use md_slide::builder::{
    advance, build, file_name_for, write_next, BuildAction, BuildError, BuildEvent, BuildState,
    Stage,
};
use md_slide::markdown::slide_contents;
use md_slide::serve::{self, FileMeta, ServeAction, ServeEvent, StaticFile};
use md_slide::plain::{known_word, plain, MAX_CODE};
use md_slide::template::{bindings_for, render, DEFAULT_SLIDE_TEMPLATE};

fn run(template: &str, source: &str, exists: bool) -> (Vec<String>, Vec<(String, String)>, BuildAction) {
    let mut trace: Vec<String> = Vec::new();
    let mut files: Vec<(String, String)> = Vec::new();
    let (mut state, mut action) = build(template);
    loop {
        let event = match action {
            BuildAction::ReadSource => {
                trace.push("read".to_string());
                BuildEvent::SourceRead(source.to_string())
            }
            BuildAction::ProbeOutput => {
                trace.push("probe".to_string());
                BuildEvent::OutputExists(exists)
            }
            BuildAction::RemoveOutput => {
                trace.push("remove".to_string());
                BuildEvent::Removed
            }
            BuildAction::CreateOutput => {
                trace.push("create".to_string());
                BuildEvent::Created
            }
            BuildAction::WriteFile { name, contents } => {
                trace.push(format!("write {}", name));
                files.push((name, contents));
                BuildEvent::Written
            }
            last => return (trace, files, last),
        };
        let next = advance(state, event);
        state = next.0;
        action = next.1;
    }
}

#[test]
fn three_slides_are_built_in_order() {
    let (trace, files, last) = run(DEFAULT_SLIDE_TEMPLATE, "A\n\n---\n\nB\n\n---\n\nC\n", false);
    assert_eq!(trace, vec!["read", "probe", "create", "write 0.html", "write 1.html", "write 2.html"]);
    assert!(matches!(last, BuildAction::Finish(3)));
    assert_eq!(files.len(), 3);
    assert!(files[0].1.contains("<p>A</p>"));
    assert!(files[1].1.contains("<p>B</p>"));
    assert!(files[2].1.contains("<p>C</p>"));
    assert!(!files[0].1.contains("<p>B</p>"));
}

#[test]
fn existing_output_is_removed_before_it_is_created() {
    let (trace, _, last) = run(DEFAULT_SLIDE_TEMPLATE, "only", true);
    assert_eq!(trace, vec!["read", "probe", "remove", "create", "write 0.html"]);
    assert!(matches!(last, BuildAction::Finish(1)));
}

#[test]
fn pages_link_to_their_neighbours() {
    let (_, files, _) = run(DEFAULT_SLIDE_TEMPLATE, "A\n\n---\n\nB\n\n---\n\nC\n", false);
    assert!(files[0].1.contains("<title>Slide 0</title>"));
    assert!(!files[0].1.contains("Previous"));
    assert!(files[0].1.contains("href=\"/1.html\""));
    assert!(files[1].1.contains("href=\"/0.html\""));
    assert!(files[1].1.contains("href=\"/2.html\""));
    assert!(files[2].1.contains("href=\"/1.html\""));
    assert!(!files[2].1.contains("Next"));
}

#[test]
fn empty_slide_still_gets_its_page() {
    let (trace, files, last) = run("{{ index }}/{{ num_of_slides }}:{{ content }}", "A\n\n---\n\n---\n\nB\n", false);
    assert!(matches!(last, BuildAction::Finish(3)));
    assert_eq!(trace[3..], ["write 0.html", "write 1.html", "write 2.html"]);
    assert_eq!(files[0].1, "0/3:<p>A</p>\n");
    assert_eq!(files[1].1, "1/3:");
    assert_eq!(files[2].1, "2/3:<p>B</p>\n");
}

#[test]
fn empty_document_is_one_empty_slide() {
    let (_, files, last) = run("[{{ content }}]", "", false);
    assert!(matches!(last, BuildAction::Finish(1)));
    assert_eq!(files, vec![("0.html".to_string(), "[]".to_string())]);
}

#[test]
fn content_is_not_escaped_by_the_template() {
    let page = render("<p>a &amp; b</p>", 0, 1, "{{ content }}").unwrap();
    assert_eq!(page, "<p>a &amp; b</p>");
}

#[test]
fn reported_failure_ends_the_build() {
    let (state, _) = build("{{ content }}");
    let (state, action) = advance(state, BuildEvent::Failed("no such file".to_string()));
    assert!(matches!(state.stage, Stage::Done));
    assert!(matches!(action, BuildAction::Fail(BuildError::Io(reason)) if reason == "no such file"));
}

#[test]
fn write_failure_keeps_earlier_files_and_stops() {
    let (state, _) = build("{{ content }}");
    let (state, _) = advance(state, BuildEvent::SourceRead("A\n\n---\n\nB".to_string()));
    let (state, _) = advance(state, BuildEvent::OutputExists(false));
    let (state, action) = advance(state, BuildEvent::Created);
    assert!(matches!(action, BuildAction::WriteFile { ref name, .. } if name == "0.html"));
    let (state, action) = advance(state, BuildEvent::Written);
    assert!(matches!(action, BuildAction::WriteFile { ref name, .. } if name == "1.html"));
    let (state, action) = advance(state, BuildEvent::Failed("disk full".to_string()));
    assert!(matches!(action, BuildAction::Fail(BuildError::Io(_))));
    assert!(matches!(state.stage, Stage::Done));
}

#[test]
fn event_out_of_turn_ends_the_build() {
    let (state, _) = build("{{ content }}");
    let (state, action) = advance(state, BuildEvent::Created);
    assert!(matches!(action, BuildAction::Fail(BuildError::OutOfTurn)));
    let (_, action) = advance(state, BuildEvent::SourceRead("A".to_string()));
    assert!(matches!(action, BuildAction::Fail(BuildError::OutOfTurn)));
}

#[test]
fn write_next_finishes_when_nothing_is_left() {
    let contents = vec!["a".to_string(), "b".to_string()];
    let (state, action) = write_next("{{ content }}".to_string(), contents, 2);
    assert!(matches!(state.stage, Stage::Done));
    assert!(matches!(action, BuildAction::Finish(2)));
    let contents = vec!["a".to_string(), "b".to_string()];
    let (state, action) = write_next("{{ index }}{{ content }}".to_string(), contents, 1);
    assert!(matches!(state, BuildState { stage: Stage::Writing { written: 2, .. }, .. }));
    assert!(matches!(action, BuildAction::WriteFile { name, contents } if name == "1.html" && contents == "1b"));
}

#[test]
fn files_are_named_by_index() {
    assert_eq!(file_name_for(0), "0.html");
    assert_eq!(file_name_for(12), "12.html");
}

#[test]
fn bindings_hold_index_total_and_content() {
    let bindings = bindings_for(2, "<p>x</p>", 5);
    assert_eq!(bindings.numbers, vec![("index".to_string(), 2), ("num_of_slides".to_string(), 5)]);
    assert_eq!(bindings.texts, vec![("content".to_string(), "<p>x</p>".to_string())]);
}

#[test]
fn slide_contents_splits_at_thematic_breaks() {
    assert_eq!(slide_contents("A\n\n---\n\nB\n\n---\n\nC\n"), vec!["<p>A</p>\n", "<p>B</p>\n", "<p>C</p>\n"]);
    assert_eq!(slide_contents("# Title\n\ntext"), vec!["<h1>Title</h1>\n<p>text</p>\n"]);
    assert_eq!(slide_contents("***\n"), vec!["", ""]);
    assert_eq!(slide_contents(""), vec![""]);
    assert_eq!(slide_contents("A\n\n---\n\n---\n\nB"), vec!["<p>A</p>\n", "", "<p>B</p>\n"]);
}

#[test]
fn built_slides_are_served_and_the_next_one_is_missing() {
    let (_, files, last) = run(DEFAULT_SLIDE_TEMPLATE, "A\n\n---\n\nB\n\n---\n\nC\n", false);
    assert!(matches!(last, BuildAction::Finish(3)));
    let served = StaticFile { root: "./build".to_string() };
    let bodies = ["<p>A</p>", "<p>B</p>", "<p>C</p>"];
    for request in ["/0.html", "/1.html", "/2.html", "/3.html"] {
        let (mut state, mut action) = serve::serve_static_files(&served, request);
        let mut served_file: Option<&(String, String)> = None;
        let response = loop {
            let event = match action {
                ServeAction::QueryMetadata(path) => {
                    served_file = files.iter().find(|(name, _)| format!("./build/{}", name) == path);
                    ServeEvent::Metadata(served_file.map(|(_, contents)| FileMeta {
                        is_file: true,
                        len: contents.len() as u64,
                    }))
                }
                ServeAction::OpenFile(_) => ServeEvent::Opened(true),
                ServeAction::Respond(response) => break response,
            };
            let next = serve::advance(state, event);
            state = next.0;
            action = next.1;
        };
        match served_file {
            Some((name, contents)) => {
                assert_eq!(response.status, 200);
                assert_eq!(response.content_type, "text/html");
                assert_eq!(response.content_length, Some(contents.len().to_string()));
                let index: usize = name.trim_end_matches(".html").parse().unwrap();
                assert!(contents.contains(bodies[index]));
            }
            None => {
                assert_eq!(request, "/3.html");
                assert_eq!(response.status, 404);
            }
        }
    }
}

#[test]
fn template_error_ends_the_build_after_the_directory_was_replaced() {
    let (trace, files, last) = run("{{ index < content }}", "A", true);
    assert_eq!(trace, vec!["read", "probe", "remove", "create"]);
    assert!(files.is_empty());
    assert!(matches!(last, BuildAction::Fail(BuildError::Template(_))));
    let (trace, _, last) = run("{{ undefined_variable }}", "A", true);
    assert_eq!(trace, vec!["read", "probe", "remove", "create"]);
    assert!(matches!(last, BuildAction::Fail(BuildError::Template(_))));
}

#[test]
fn template_that_the_engine_rejects_is_a_template_error() {
    for template in ["{% if %}", "{% endif %}", "{{ index < content }}", "{{ 99999999999999999999 }}"] {
        assert!(plain(template), "{}", template);
        let error = render("x", 0, 1, template).unwrap_err();
        assert!(!error.message.is_empty());
        assert_ne!(error.message, "the template holds more than plain tags");
    }
}

#[test]
fn template_that_is_not_plain_is_refused_before_the_engine() {
    for template in [
        "{{ missing }}",
        "{{ now() }}",
        "{{ get_random(end=3) }}",
        "{{ get_env(name=\"HOME\") }}",
        "{{ index | date }}",
        "{{ 100000000000000000000000.5 }}",
        "{% macro f() %}{{ self::f() }}{% endmacro %}{{ self::f() }}",
        "{% include \"slide.html\" %}",
        "{% for c in content %}{{ c }}{% endfor %}",
        "{% filter upper %}x{% endfilter %}",
        "{{ index % 2 }}",
        "{{ index / 2 }}",
        "{{ index * 2 }}",
        "{{ (index) }}",
        "{% if content is defined %}x{% endif %}",
        "{% raw %}{{ x }}{% endraw %}",
        "{{ content",
        "{# {{ \"x\" }} #}",
    ] {
        assert!(!plain(template), "{}", template);
        let error = render("x", 0, 1, template).unwrap_err();
        assert_eq!(error.message, "the template holds more than plain tags");
    }
}

#[test]
fn plain_templates_hold_any_text_outside_their_tags() {
    assert!(plain(DEFAULT_SLIDE_TEMPLATE));
    assert!(plain(""));
    assert!(plain("it is snowing; white-space: nowrap; rgba(0, 0, 0, 0.6) 100% a|b \"q\""));
    assert!(plain("{{ index }} of {{ num_of_slides }}: {{ content }}"));
    assert!(plain("{%- if index + 1 < num_of_slides and not index == 0 -%}x{% elif true %}y{% else %}z{% endif %}"));
    assert!(plain("{ {{ index - 1 }} } %} }}"));
    assert!(plain("{# a note #}{{ content }}"));
    assert_eq!(render("<p>x</p>", 1, 3, "it is snowing: {{ content }}").unwrap(), "it is snowing: <p>x</p>");
}

#[test]
fn plain_template_expands_the_same_every_time() {
    let first = render("<p>x</p>", 1, 3, DEFAULT_SLIDE_TEMPLATE).unwrap();
    let second = render("<p>x</p>", 1, 3, DEFAULT_SLIDE_TEMPLATE).unwrap();
    assert_eq!(first, second);
    assert!(first.contains("<p>x</p>"));
    assert!(render("x", 0, 1, "{% if %}").is_err());
    assert!(render("x", 0, 1, "{% if %}").is_err());
}

#[test]
fn tags_hold_a_bounded_number_of_characters() {
    let tag = "{{ index }}";
    let fits = tag.repeat(MAX_CODE / 9);
    assert!(plain(&fits));
    let too_long = tag.repeat(MAX_CODE / 9 + 1);
    assert!(!plain(&too_long));
    let text = "x".repeat(10 * MAX_CODE);
    assert!(plain(&text));
}

#[test]
fn deepest_and_longest_plain_tags_are_expanded() {
    let depth = MAX_CODE / 17;
    let nested = format!("{}x{}", "{%if 1%}".repeat(depth), "{%endif%}".repeat(depth));
    assert!(plain(&nested));
    assert_eq!(render("", 0, 1, &nested).unwrap(), "x");
    let sum = format!("{{{{1{}}}}}", "+1".repeat((MAX_CODE - 4) / 2));
    assert!(plain(&sum));
    assert_eq!(render("", 0, 1, &sum).unwrap(), ((MAX_CODE - 4) / 2 + 1).to_string());
}

#[test]
fn known_words_are_the_variables_the_condition_words_and_numbers() {
    for word in ["index", "content", "num_of_slides", "if", "elif", "else", "endif", "and", "or", "not", "true", "false", "0", "42"] {
        assert!(known_word(&word.chars().collect()), "{}", word);
    }
    for word in ["now", "date", "for", "macro", "Index", "x1", "1x", "is", "set"] {
        assert!(!known_word(&word.chars().collect()), "{}", word);
    }
}
