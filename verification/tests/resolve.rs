use md_slide::resolve::{
    get_path, join, resolve_components, run_steps, steps_for, steps_for_text, Step,
};
use md_slide::segments::{classify_segment, split, SegmentKind};

#[test]
fn traversal_collapses_under_the_root() {
    assert_eq!(get_path("/srv/build", "../../../etc/passwd"), "/srv/build/etc/passwd");
}

#[test]
fn empty_request_resolves_to_root() {
    assert_eq!(get_path("/srv/build", ""), "/srv/build");
    assert_eq!(get_path("./build", ""), "./build");
}

#[test]
fn only_parent_markers_resolve_to_root() {
    assert_eq!(get_path("/srv/build", "../.."), "/srv/build");
    assert_eq!(get_path("/srv/build", "/../../"), "/srv/build");
}

#[test]
fn plain_file_is_joined() {
    assert_eq!(get_path("./build", "0.html"), "./build/0.html");
    assert_eq!(get_path("./build", "/0.html"), "./build/0.html");
    assert_eq!(get_path("./build/", "0.html"), "./build/0.html");
    assert_eq!(get_path("", "0.html"), "0.html");
}

#[test]
fn parent_marker_removes_the_last_name() {
    assert_eq!(get_path("/r", "a/b/../c"), "/r/a/c");
    assert_eq!(get_path("/r", "a/../../b"), "/r/b");
    assert_eq!(get_path("/r", "a/./b//c/"), "/r/a/b/c");
}

#[test]
fn escapes_are_decoded_in_names() {
    assert_eq!(get_path("/r", "a%20b/c%2Ehtml"), "/r/a b/c.html");
    assert_eq!(get_path("/r", "caf%C3%A9"), "/r/caf\u{e9}");
}

#[test]
fn bad_escapes_do_not_fail() {
    assert_eq!(get_path("/r", "100%/x%zz"), "/r/100%/x%zz");
    assert_eq!(get_path("/r", "a%FFb"), "/r/a\u{fffd}b");
}

#[test]
fn encoded_parent_marker_steps_up_like_the_plain_one() {
    assert_eq!(resolve_components("a/%2e%2e/b"), vec!["b"]);
    assert_eq!(resolve_components("a/../b"), vec!["b"]);
    assert_eq!(resolve_components("a/%2E%2E/%2e%2e/%2e%2E/b"), vec!["b"]);
    assert_eq!(resolve_components("a/%2e/b"), vec!["a", "b"]);
}

#[test]
fn split_keeps_empty_segments() {
    assert_eq!(split(""), vec![""]);
    assert_eq!(split("a"), vec!["a"]);
    assert_eq!(split("/a//b/"), vec!["", "a", "", "b", ""]);
    assert_eq!(split("\u{e9}/\u{4e2d}"), vec!["\u{e9}", "\u{4e2d}"]);
}

#[test]
fn segments_are_classified() {
    assert_eq!(classify_segment(""), SegmentKind::Ignorable);
    assert_eq!(classify_segment("."), SegmentKind::Ignorable);
    assert_eq!(classify_segment(".."), SegmentKind::Parent);
    assert_eq!(classify_segment("..."), SegmentKind::Normal);
    assert_eq!(classify_segment(".a"), SegmentKind::Normal);
    assert_eq!(classify_segment("%2e%2e"), SegmentKind::Normal);
}

#[test]
fn steps_for_decodes_names_and_reads_them_again() {
    let steps = steps_for("a%41");
    assert_eq!(steps.len(), 1);
    assert!(matches!(&steps[0], Step::Push(name) if name == "aA"));
    let steps = steps_for("..");
    assert!(matches!(steps.as_slice(), [Step::Pop]));
    let steps = steps_for(".");
    assert!(matches!(steps.as_slice(), [Step::Skip]));
    let steps = steps_for("");
    assert!(matches!(steps.as_slice(), [Step::Skip]));
    let steps = steps_for("%2e%2e");
    assert!(matches!(steps.as_slice(), [Step::Pop]));
    let steps = steps_for("%2e");
    assert!(matches!(steps.as_slice(), [Step::Skip]));
    let steps = steps_for("a%2F..%2Fb");
    assert!(matches!(
        steps.as_slice(),
        [Step::Push(first), Step::Pop, Step::Push(second)] if first == "a" && second == "b"
    ));
}

#[test]
fn decoded_text_is_read_as_segments() {
    assert!(matches!(steps_for_text("..").as_slice(), [Step::Pop]));
    assert!(matches!(steps_for_text("").as_slice(), [Step::Skip]));
    assert!(matches!(
        steps_for_text("/etc/passwd").as_slice(),
        [Step::Skip, Step::Push(first), Step::Push(second)] if first == "etc" && second == "passwd"
    ));
    assert!(matches!(steps_for_text("a%41").as_slice(), [Step::Push(name)] if name == "a%41"));
}

#[test]
fn pop_on_empty_accumulator_does_nothing() {
    let steps = vec![Step::Pop, Step::Pop, Step::Push("a".to_string()), Step::Skip];
    assert_eq!(run_steps(&steps), vec!["a"]);
    let steps = vec![Step::Push("a".to_string()), Step::Push("b".to_string()), Step::Pop];
    assert_eq!(run_steps(&steps), vec!["a"]);
    assert!(run_steps(&Vec::new()).is_empty());
}

#[test]
fn join_puts_one_separator_between_parts() {
    let names = vec!["a".to_string(), "b".to_string()];
    assert_eq!(join("/r", &names), "/r/a/b");
    assert_eq!(join("/r/", &names), "/r/a/b");
    assert_eq!(join("", &names), "a/b");
    assert_eq!(join("/r", &Vec::new()), "/r");
}

fn reads_below(root: &str, path: &str) -> bool {
    let relative = match path.strip_prefix(root) {
        Some(relative) => relative,
        None => return false,
    };
    if !(relative.is_empty() || relative.starts_with('/')) {
        return false;
    }
    let mut depth: usize = 0;
    for segment in relative.split('/') {
        match segment {
            "" | "." => {}
            ".." => {
                if depth == 0 {
                    return false;
                }
                depth -= 1;
            }
            _ => depth += 1,
        }
    }
    true
}

#[test]
fn every_mix_of_segments_stays_under_the_root() {
    let parts = ["a", "..", ".", "", "b.html", "...", "c d", "%2e%2e", "%2E", "x%2Fy", "%2f..%2f.."];
    for first in parts {
        for second in parts {
            for third in parts {
                for lead in ["", "/"] {
                    let request = format!("{}{}/{}/{}", lead, first, second, third);
                    let path = get_path("/srv/build", &request);
                    assert!(reads_below("/srv/build", &path), "{} gave {}", request, path);
                }
            }
        }
    }
}

#[test]
fn escaped_names_that_are_plain_stay_under_the_root() {
    for request in ["a%20b/../c", "%41/%42/../..", "x%2Ehtml", "../%7Euser/./file"] {
        let path = get_path("/srv/build", request);
        assert!(reads_below("/srv/build", &path), "{} gave {}", request, path);
    }
}

#[test]
fn escaped_traversal_stays_under_the_root() {
    assert_eq!(get_path("/srv/build", "%2e%2e"), "/srv/build");
    assert_eq!(get_path("/srv/build", "%2e%2e/%2e%2e/etc/passwd"), "/srv/build/etc/passwd");
    assert_eq!(get_path("/srv/build", "%2E%2E/"), "/srv/build");
    assert_eq!(get_path("/srv/build", "%2Fetc%2Fpasswd"), "/srv/build/etc/passwd");
    assert_eq!(get_path("/srv/build", "%2e%2e%2f%2e%2e%2fetc%2fpasswd"), "/srv/build/etc/passwd");
    assert_eq!(get_path("/srv/build", "x/a%2F..%2F..%2Fb"), "/srv/build/b");
    assert_eq!(get_path("/srv/build", "a/%2e%2e/%2e%2e/b"), "/srv/build/b");
    for request in ["%2e%2e", "%2e%2e/%2e%2e/etc/passwd", "%2Fetc%2Fpasswd", "..%2f..%2fetc"] {
        let path = get_path("/srv/build", request);
        assert!(reads_below("/srv/build", &path), "{} gave {}", request, path);
        assert!(resolve_components(request).iter().all(|name| {
            !name.is_empty() && name != "." && name != ".." && !name.contains('/')
        }));
    }
}
