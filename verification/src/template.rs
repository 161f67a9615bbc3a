//! Expanding the page template for one slide.

use vstd::prelude::*;
use vstd::string::StringExecFns;
use crate::plain::{is_plain, plain};

verus! {

/// The page template that is used where no other is given: one slide with
/// its title, its content and links to the slides before and after it.
pub const DEFAULT_SLIDE_TEMPLATE: &'static str = "<html lang=\"en\">
  <head>
    <meta charset=\"utf-8\" />
    <meta name=\"viewport\" content=\"width=device-width, initial-scale=1\">
    <title>Slide {{ index }}</title>
    <style>
        html {
            font-family: Helvetica, sans-serif;
            font-size: 22px;
            height: 100%;
        }
        body {
            height: 100%;
            padding: 2rem;
            position: relative;
        }
        h1 {
            font-size: 4rem;
        }
        h2 {
            font-size: 3rem;
        }
        h3 {
            font-size: 2rem;
        }
        h4 {
            font-size: 1rem;
        }
        h5 {
            font-size: 0.75rem;
        }
        p, ul, ol {
            font-size: 1.5rem;
        }
        nav {
            bottom: 5vw;
            display: flex;
            justify-content: space-between;
            left: 0;
            padding: 0 2rem;
            position: absolute;
            width: 100%;
        }
        nav a {
            flex: 1 1 auto;
            text-decoration: none;
        }
        ul {
            padding: 0 1rem;
        }
        ol {
            padding: 0 1.5rem;
        }
        blockquote {
            border-left: 4px solid black;
            color: rgba(0, 0, 0, 0.6);
            margin: 0;
            padding-left: 1rem;
        }
        img {
            display: block;
            height: auto;
            margin: 0 auto;
            max-width: 600px;
            width: 80vw;
        }
        .ta-right {
            text-align: right;
        }
    </style>
  </head>
  <body>
    {{ content }}

    <nav>
        {% if index > 0 %}
            <a href=\"/{{ index - 1 }}.html\"><= Previous</a>
        {% endif %}
        {% if index + 1 < num_of_slides %}
            <a class=\"ta-right\" href=\"/{{ index + 1 }}.html\">Next =></a>
        {% endif %}
    </nav>
  </body>
</html>";

/// Why a page could not be expanded from its template.
#[derive(Debug)]
pub struct TemplateError {
    /// What the template engine said.
    pub message: String,
}

/// The values that a page template can refer to.
#[derive(Debug)]
pub struct Bindings {
    /// The variables that hold a number, each with its name.
    pub numbers: Vec<(String, usize)>,
    /// The variables that hold text, each with its name.
    pub texts: Vec<(String, String)>,
}

/// The mathematical value of `Bindings`.
pub struct BindingsView {
    pub numbers: Seq<(Seq<char>, nat)>,
    pub texts: Seq<(Seq<char>, Seq<char>)>,
}

impl View for Bindings {
    type V = BindingsView;

    open spec fn view(&self) -> BindingsView {
        BindingsView {
            numbers: self.numbers@.map_values(|b: (String, usize)| (b.0@, b.1 as nat)),
            texts: self.texts@.map_values(|b: (String, String)| (b.0@, b.1@)),
        }
    }
}

/// The bindings of the page for slide `index` out of `total`: the numbers
/// `index` and `num_of_slides` and the text `content`.
pub open spec fn slide_bindings(index: nat, content: Seq<char>, total: nat) -> BindingsView {
    BindingsView {
        numbers: seq![("index"@, index), ("num_of_slides"@, total)],
        texts: seq![("content"@, content)],
    }
}

/// An error of the template engine.
#[verifier::external_type_specification]
#[verifier::external_body]
pub struct ExTeraError(tera::Error);

/// The message that a template engine error displays.
pub uninterp spec fn error_text(error: tera::Error) -> Seq<char>;

/// Formats a `tera::Error` through its `Display` impl.
#[verifier::external_body]
fn describe(error: &tera::Error) -> (message: String)
    ensures
        message@ == error_text(*error),
{
    error.to_string()
}

/// The views of a list of suffixes.
pub open spec fn suffix_views(suffixes: Seq<&'static str>) -> Seq<Seq<char>> {
    suffixes.map_values(|suffix: &'static str| suffix@)
}

/// The page that the engine expands a plain template to, or `None` where
/// it rejects the template or a variable that the template refers to. The
/// template stands alone in the engine under `name`, values are escaped only
/// in templates whose name ends in one of `escaped_suffixes`, and the number
/// bindings are made before the text bindings.
pub uninterp spec fn expansion(
    name: Seq<char>,
    template: Seq<char>,
    escaped_suffixes: Seq<Seq<char>>,
    bindings: BindingsView,
) -> Option<Seq<char>>;

/// The page of an engine's answer, if it is one.
pub open spec fn page_in(outcome: Result<String, tera::Error>) -> Option<Seq<char>> {
    match outcome {
        Ok(page) => Some(page@),
        Err(_) => None,
    }
}

/// The page of a rendering result, if it is one.
pub open spec fn page_view(result: Result<String, TemplateError>) -> Option<Seq<char>> {
    match result {
        Ok(page) => Some(page@),
        Err(_) => None,
    }
}

/// The page of slide `index` out of `total` with the HTML `content`: the
/// expansion of a plain template with `index`, `num_of_slides` and `content`
/// bound and nothing escaped. A template that is not plain has no page.
pub open spec fn slide_page(
    template: Seq<char>,
    index: nat,
    content: Seq<char>,
    total: nat,
) -> Option<Seq<char>> {
    if is_plain(template) {
        expansion(
            "slide.html"@,
            template,
            Seq::<Seq<char>>::empty(),
            slide_bindings(index, content, total),
        )
    } else {
        None
    }
}

/// What a `TemplateError` says of a template that is not plain.
pub open spec fn not_plain_text() -> Seq<char> {
    "the template holds more than plain tags"@
}

/// Makes a `tera::Tera` with its defaults, sets the suffixes on which it
/// escapes with `autoescape_on`, adds `template` under `name` with
/// `add_raw_template`, fills a `tera::Context` with the bindings through
/// `insert` and calls `render`.
///
/// Only a plain template is handed over. Its tags can print a variable or a
/// sum of whole numbers and can test a condition; the engine works such sums
/// out with checked arithmetic and answers what it cannot work out with an
/// error. A plain template can reach no filter, no function, no loop, no
/// macro and no other template, so the engine neither reads the clock, a
/// random source or the variables of the process, nor runs without end.
/// Whether the template expands, and to which page, is therefore a function
/// of what is passed here. Nothing is claimed of which error the engine
/// reports.
#[verifier::external_body]
fn expand(
    name: &str,
    template: &str,
    escaped_suffixes: Vec<&'static str>,
    bindings: &Bindings,
) -> (outcome: Result<String, tera::Error>)
    requires
        is_plain(template@),
    ensures
        page_in(outcome) == expansion(
            name@,
            template@,
            suffix_views(escaped_suffixes@),
            bindings@,
        ),
{
    let mut engine = tera::Tera::default();
    engine.autoescape_on(escaped_suffixes);
    engine.add_raw_template(name, template)?;
    let mut context = tera::Context::new();
    for (key, value) in bindings.numbers.iter() {
        context.insert(key.as_str(), value);
    }
    for (key, value) in bindings.texts.iter() {
        context.insert(key.as_str(), value);
    }
    engine.render(name, &context)
}

/// The bindings of the page for slide `index` out of `total`.
pub fn bindings_for(index: usize, content: &str, total: usize) -> (bindings: Bindings)
    ensures
        bindings@ == slide_bindings(index as nat, content@, total as nat),
{
    let mut numbers: Vec<(String, usize)> = Vec::new();
    numbers.push((String::from_str("index"), index));
    numbers.push((String::from_str("num_of_slides"), total));
    let mut texts: Vec<(String, String)> = Vec::new();
    texts.push((String::from_str("content"), String::from_str(content)));
    let bindings = Bindings { numbers, texts };
    assert(bindings@.numbers =~= slide_bindings(index as nat, content@, total as nat).numbers);
    assert(bindings@.texts =~= slide_bindings(index as nat, content@, total as nat).texts);
    bindings
}

/// What the engine's answer means for the slide: its page, or the error with
/// the engine's message.
pub open spec fn page_of(outcome: Result<String, tera::Error>) -> Result<Seq<char>, Seq<char>> {
    match outcome {
        Ok(page) => Ok(page@),
        Err(error) => Err(error_text(error)),
    }
}

/// The view of a rendering result.
pub open spec fn rendered(result: Result<String, TemplateError>) -> Result<Seq<char>, Seq<char>> {
    match result {
        Ok(page) => Ok(page@),
        Err(error) => Err(error.message@),
    }
}

/// Turns the engine's answer into the slide's page or a `TemplateError`.
pub fn page_from(outcome: Result<String, tera::Error>) -> (result: Result<String, TemplateError>)
    ensures
        rendered(result) == page_of(outcome),
        page_view(result) == page_in(outcome),
{
    match outcome {
        Ok(page) => Ok(page),
        Err(error) => Err(TemplateError { message: describe(&error) }),
    }
}

/// Renders the page of one slide: expands `template` with `index`, `content`
/// and `num_of_slides` bound, and escapes nothing, since `content` is HTML
/// already.
///
/// The result is `slide_page` of the arguments. The call fails with a
/// `TemplateError` where the template is not plain, which is found before
/// the engine is called, and where the engine rejects the template or a
/// variable that the template refers to.
pub fn render(content: &str, index: usize, total: usize, template: &str) -> (result: Result<
    String,
    TemplateError,
>)
    ensures
        page_view(result) == slide_page(template@, index as nat, content@, total as nat),
        !is_plain(template@) ==> (result matches Err(error) && error.message@ == not_plain_text()),
{
    if !plain(template) {
        return Err(
            TemplateError { message: String::from_str("the template holds more than plain tags") },
        );
    }
    let bindings = bindings_for(index, content, total);
    let escaped_suffixes: Vec<&'static str> = Vec::new();
    assert(suffix_views(escaped_suffixes@) =~= Seq::<Seq<char>>::empty());
    page_from(expand("slide.html", template, escaped_suffixes, &bindings))
}

} // verus!
