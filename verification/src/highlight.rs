//! Syntax highlighting: the grammar is picked by file extension, and the
//! source is parsed with tree-sitter grammars through syntastica and styled
//! with its One Dark theme.

use vstd::prelude::*;
use syntastica::renderer::resolve_styles;
use syntastica::Processor;
use syntastica_parsers::{Lang, LanguageSetImpl};
use crate::dispatcher::{
    file_extension, lemma_bare_name_is_plain_path, name_extension, path_extension, plain_file_path,
    simple_file_name,
};
use crate::text_ops::{ascii_lowercase, equals_ascii_lowercase, lemma_ascii_lowercase_idempotent};

verus! {

/// The languages the previewer highlights.
#[derive(Debug, Clone, Copy, PartialEq, Eq, Structural)]
pub enum CodeLanguage {
    Rust,
    Python,
    Javascript,
    Typescript,
    Tsx,
    Go,
    C,
    Cpp,
    Java,
    Json,
    Yaml,
    Bash,
    Html,
    Css,
    Lua,
}

#[derive(Debug)]
pub enum HighlightError {
    Parse(String),
}

/// The style of a highlighted span: its colour and text decorations.
#[derive(Debug, Clone, Copy)]
pub struct SpanStyle {
    pub red: u8,
    pub green: u8,
    pub blue: u8,
    pub bold: bool,
    pub italic: bool,
    pub underline: bool,
    pub strikethrough: bool,
}

/// Colour channels, then bold, italic, underline and strikethrough.
pub type StyleView = (u8, u8, u8, bool, bool, bool, bool);

/// A span's text and its style (`None`: the theme gives it none).
pub type SpanView = (Seq<char>, Option<StyleView>);

impl View for SpanStyle {
    type V = StyleView;

    open spec fn view(&self) -> StyleView {
        (self.red, self.green, self.blue, self.bold, self.italic, self.underline, self.strikethrough)
    }
}

/// One line of highlighted source, as styled spans in order.
pub struct HighlightedLine {
    pub spans: Vec<(String, Option<SpanStyle>)>,
}

pub open spec fn span_view(span: (String, Option<SpanStyle>)) -> SpanView {
    (
        span.0@,
        match span.1 {
            Some(style) => Some(style@),
            None => None,
        },
    )
}

impl View for HighlightedLine {
    type V = Seq<SpanView>;

    open spec fn view(&self) -> Seq<SpanView> {
        self.spans@.map_values(|span: (String, Option<SpanStyle>)| span_view(span))
    }
}

/// A highlighted span keeps its text and every field of its style: colour
/// channels, bold, italic, underline and strikethrough.
pub proof fn lemma_span_view_keeps_style(text: String, style: Option<SpanStyle>)
    ensures
        span_view((text, style)).0 == text@,
        style is None ==> span_view((text, style)).1 is None,
        style matches Some(st) ==> span_view((text, style)).1 == Some(
            (st.red, st.green, st.blue, st.bold, st.italic, st.underline, st.strikethrough),
        ),
{
}

pub open spec fn lines_view(lines: Seq<HighlightedLine>) -> Seq<Seq<SpanView>> {
    lines.map_values(|line: HighlightedLine| line@)
}

/// What syntastica makes of `source` with the grammar named `grammar` and
/// the One Dark theme: the styled spans of each line, or the message of its
/// error.
pub uninterp spec fn highlighting(source: Seq<char>, grammar: Seq<char>) -> Result<
    Seq<Seq<SpanView>>,
    Seq<char>,
>;

/// Parses `grammar` as a `syntastica_parsers::Lang`, runs
/// `syntastica::Processor::process` on `source` with it, and resolves the
/// highlights against `syntastica_themes::one::dark()` with
/// `syntastica::renderer::resolve_styles`; each style is copied field by
/// field. The contract only names the outcome.
#[verifier::external_body]
fn run_highlighter(source: &str, grammar: &str) -> (out: Result<Vec<HighlightedLine>, String>)
    ensures
        match out {
            Ok(lines) => highlighting(source@, grammar@) == Ok::<_, Seq<char>>(lines_view(lines@)),
            Err(msg) => highlighting(source@, grammar@) == Err::<Seq<Seq<SpanView>>, _>(msg@),
        },
{
    let lang = grammar.parse::<Lang>().map_err(|e| e.to_string())?;
    let found = Processor::new(&LanguageSetImpl::new()).process(source, lang).map_err(|e| e.to_string())?;
    Ok(resolve_styles(&found, syntastica_themes::one::dark()).into_iter().map(|line| HighlightedLine {
        spans: line.into_iter().map(|(text, style)| (text.to_string(), style.map(|s| SpanStyle {
            red: s.color().red, green: s.color().green, blue: s.color().blue, bold: s.bold(),
            italic: s.italic(), underline: s.underline(), strikethrough: s.strikethrough(),
        }))).collect(),
    }).collect())
}

/// The name of the syntastica grammar for a language.
pub open spec fn grammar_of(lang: CodeLanguage) -> Seq<char> {
    match lang {
        CodeLanguage::Rust => "rust"@,
        CodeLanguage::Python => "python"@,
        CodeLanguage::Javascript => "javascript"@,
        CodeLanguage::Typescript => "typescript"@,
        CodeLanguage::Tsx => "tsx"@,
        CodeLanguage::Go => "go"@,
        CodeLanguage::C => "c"@,
        CodeLanguage::Cpp => "cpp"@,
        CodeLanguage::Java => "java"@,
        CodeLanguage::Json => "json"@,
        CodeLanguage::Yaml => "yaml"@,
        CodeLanguage::Bash => "bash"@,
        CodeLanguage::Html => "html"@,
        CodeLanguage::Css => "css"@,
        CodeLanguage::Lua => "lua"@,
    }
}

/// Each language is highlighted with the syntastica grammar of its own
/// name, and different languages use different grammars.
pub proof fn lemma_grammar_names(a: CodeLanguage, b: CodeLanguage)
    ensures
        grammar_of(CodeLanguage::Rust) == "rust"@,
        grammar_of(CodeLanguage::Python) == "python"@,
        grammar_of(CodeLanguage::Javascript) == "javascript"@,
        grammar_of(CodeLanguage::Typescript) == "typescript"@,
        grammar_of(CodeLanguage::Tsx) == "tsx"@,
        grammar_of(CodeLanguage::Go) == "go"@,
        grammar_of(CodeLanguage::C) == "c"@,
        grammar_of(CodeLanguage::Cpp) == "cpp"@,
        grammar_of(CodeLanguage::Java) == "java"@,
        grammar_of(CodeLanguage::Json) == "json"@,
        grammar_of(CodeLanguage::Yaml) == "yaml"@,
        grammar_of(CodeLanguage::Bash) == "bash"@,
        grammar_of(CodeLanguage::Html) == "html"@,
        grammar_of(CodeLanguage::Css) == "css"@,
        grammar_of(CodeLanguage::Lua) == "lua"@,
        a != b ==> grammar_of(a) != grammar_of(b),
{
    reveal_strlit("rust");
    reveal_strlit("python");
    reveal_strlit("javascript");
    reveal_strlit("typescript");
    reveal_strlit("tsx");
    reveal_strlit("go");
    reveal_strlit("c");
    reveal_strlit("cpp");
    reveal_strlit("java");
    reveal_strlit("json");
    reveal_strlit("yaml");
    reveal_strlit("bash");
    reveal_strlit("html");
    reveal_strlit("css");
    reveal_strlit("lua");
    assert("rust"@.len() == 4 && "rust"@[0] == 'r' && "rust"@[1] == 'u' && "rust"@[2] == 's' && "rust"@[3] == 't');
    assert("python"@.len() == 6 && "python"@[0] == 'p' && "python"@[1] == 'y' && "python"@[2] == 't' && "python"@[3] == 'h' && "python"@[4] == 'o' && "python"@[5] == 'n');
    assert("javascript"@.len() == 10 && "javascript"@[0] == 'j' && "javascript"@[1] == 'a' && "javascript"@[2] == 'v' && "javascript"@[3] == 'a' && "javascript"@[4] == 's' && "javascript"@[5] == 'c' && "javascript"@[6] == 'r' && "javascript"@[7] == 'i' && "javascript"@[8] == 'p' && "javascript"@[9] == 't');
    assert("typescript"@.len() == 10 && "typescript"@[0] == 't' && "typescript"@[1] == 'y' && "typescript"@[2] == 'p' && "typescript"@[3] == 'e' && "typescript"@[4] == 's' && "typescript"@[5] == 'c' && "typescript"@[6] == 'r' && "typescript"@[7] == 'i' && "typescript"@[8] == 'p' && "typescript"@[9] == 't');
    assert("tsx"@.len() == 3 && "tsx"@[0] == 't' && "tsx"@[1] == 's' && "tsx"@[2] == 'x');
    assert("go"@.len() == 2 && "go"@[0] == 'g' && "go"@[1] == 'o');
    assert("c"@.len() == 1 && "c"@[0] == 'c');
    assert("cpp"@.len() == 3 && "cpp"@[0] == 'c' && "cpp"@[1] == 'p' && "cpp"@[2] == 'p');
    assert("java"@.len() == 4 && "java"@[0] == 'j' && "java"@[1] == 'a' && "java"@[2] == 'v' && "java"@[3] == 'a');
    assert("json"@.len() == 4 && "json"@[0] == 'j' && "json"@[1] == 's' && "json"@[2] == 'o' && "json"@[3] == 'n');
    assert("yaml"@.len() == 4 && "yaml"@[0] == 'y' && "yaml"@[1] == 'a' && "yaml"@[2] == 'm' && "yaml"@[3] == 'l');
    assert("bash"@.len() == 4 && "bash"@[0] == 'b' && "bash"@[1] == 'a' && "bash"@[2] == 's' && "bash"@[3] == 'h');
    assert("html"@.len() == 4 && "html"@[0] == 'h' && "html"@[1] == 't' && "html"@[2] == 'm' && "html"@[3] == 'l');
    assert("css"@.len() == 3 && "css"@[0] == 'c' && "css"@[1] == 's' && "css"@[2] == 's');
    assert("lua"@.len() == 3 && "lua"@[0] == 'l' && "lua"@[1] == 'u' && "lua"@[2] == 'a');
}

pub fn grammar_name(lang: CodeLanguage) -> (name: &'static str)
    ensures
        name@ == grammar_of(lang),
{
    match lang {
        CodeLanguage::Rust => "rust",
        CodeLanguage::Python => "python",
        CodeLanguage::Javascript => "javascript",
        CodeLanguage::Typescript => "typescript",
        CodeLanguage::Tsx => "tsx",
        CodeLanguage::Go => "go",
        CodeLanguage::C => "c",
        CodeLanguage::Cpp => "cpp",
        CodeLanguage::Java => "java",
        CodeLanguage::Json => "json",
        CodeLanguage::Yaml => "yaml",
        CodeLanguage::Bash => "bash",
        CodeLanguage::Html => "html",
        CodeLanguage::Css => "css",
        CodeLanguage::Lua => "lua",
    }
}

/// The result of highlighting, given what the highlighter reported: its
/// lines, or its error message as a parse error.
pub fn highlight_outcome(reported: Result<Vec<HighlightedLine>, String>) -> (out: Result<
    Vec<HighlightedLine>,
    HighlightError,
>)
    ensures
        match reported {
            Ok(lines) => out matches Ok(v) && lines_view(v@) == lines_view(lines@),
            Err(msg) => out matches Err(HighlightError::Parse(m)) && m@ == msg@,
        },
{
    match reported {
        Ok(lines) => Ok(lines),
        Err(msg) => Err(HighlightError::Parse(msg)),
    }
}

/// Highlights `source` as `lang`: the styled spans of each line, or a parse
/// error with the highlighter's message.
pub fn highlight_source(source: &str, lang: CodeLanguage) -> (out: Result<
    Vec<HighlightedLine>,
    HighlightError,
>)
    ensures
        match highlighting(source@, grammar_of(lang)) {
            Ok(lines) => out matches Ok(v) && lines_view(v@) == lines,
            Err(msg) => out matches Err(HighlightError::Parse(m)) && m@ == msg,
        },
{
    let reported = run_highlighter(source, grammar_name(lang));
    highlight_outcome(reported)
}

/// The language for a file extension, compared without regard to ASCII
/// case; `None` when no grammar is used for it.
pub open spec fn extension_language(ext: Seq<char>) -> Option<CodeLanguage> {
    let l = ascii_lowercase(ext);
    if l == "rs"@ {
        Some(CodeLanguage::Rust)
    } else if l == "py"@ || l == "pyw"@ {
        Some(CodeLanguage::Python)
    } else if l == "js"@ || l == "mjs"@ || l == "cjs"@ {
        Some(CodeLanguage::Javascript)
    } else if l == "ts"@ || l == "mts"@ || l == "cts"@ {
        Some(CodeLanguage::Typescript)
    } else if l == "tsx"@ {
        Some(CodeLanguage::Tsx)
    } else if l == "go"@ {
        Some(CodeLanguage::Go)
    } else if l == "c"@ || l == "h"@ {
        Some(CodeLanguage::C)
    } else if l == "cpp"@ || l == "cc"@ || l == "cxx"@ || l == "hpp"@ || l == "hh"@ {
        Some(CodeLanguage::Cpp)
    } else if l == "java"@ {
        Some(CodeLanguage::Java)
    } else if l == "json"@ {
        Some(CodeLanguage::Json)
    } else if l == "yaml"@ || l == "yml"@ {
        Some(CodeLanguage::Yaml)
    } else if l == "sh"@ || l == "bash"@ || l == "zsh"@ {
        Some(CodeLanguage::Bash)
    } else if l == "html"@ || l == "htm"@ {
        Some(CodeLanguage::Html)
    } else if l == "css"@ {
        Some(CodeLanguage::Css)
    } else if l == "lua"@ {
        Some(CodeLanguage::Lua)
    } else {
        None
    }
}

/// The grammar table: each listed extension, in any ASCII case, picks its
/// language, and every other extension picks none.
pub proof fn lemma_extension_languages(ext: Seq<char>)
    ensures
        extension_language("rs"@) == Some(CodeLanguage::Rust),
        extension_language("py"@) == Some(CodeLanguage::Python),
        extension_language("pyw"@) == Some(CodeLanguage::Python),
        extension_language("js"@) == Some(CodeLanguage::Javascript),
        extension_language("mjs"@) == Some(CodeLanguage::Javascript),
        extension_language("cjs"@) == Some(CodeLanguage::Javascript),
        extension_language("ts"@) == Some(CodeLanguage::Typescript),
        extension_language("mts"@) == Some(CodeLanguage::Typescript),
        extension_language("cts"@) == Some(CodeLanguage::Typescript),
        extension_language("tsx"@) == Some(CodeLanguage::Tsx),
        extension_language("go"@) == Some(CodeLanguage::Go),
        extension_language("c"@) == Some(CodeLanguage::C),
        extension_language("h"@) == Some(CodeLanguage::C),
        extension_language("cpp"@) == Some(CodeLanguage::Cpp),
        extension_language("cc"@) == Some(CodeLanguage::Cpp),
        extension_language("cxx"@) == Some(CodeLanguage::Cpp),
        extension_language("hpp"@) == Some(CodeLanguage::Cpp),
        extension_language("hh"@) == Some(CodeLanguage::Cpp),
        extension_language("java"@) == Some(CodeLanguage::Java),
        extension_language("json"@) == Some(CodeLanguage::Json),
        extension_language("yaml"@) == Some(CodeLanguage::Yaml),
        extension_language("yml"@) == Some(CodeLanguage::Yaml),
        extension_language("sh"@) == Some(CodeLanguage::Bash),
        extension_language("bash"@) == Some(CodeLanguage::Bash),
        extension_language("zsh"@) == Some(CodeLanguage::Bash),
        extension_language("html"@) == Some(CodeLanguage::Html),
        extension_language("htm"@) == Some(CodeLanguage::Html),
        extension_language("css"@) == Some(CodeLanguage::Css),
        extension_language("lua"@) == Some(CodeLanguage::Lua),
        extension_language(ext) == extension_language(ascii_lowercase(ext)),
        ({
            let l = ascii_lowercase(ext);
            l != "rs"@ && l != "py"@ && l != "pyw"@ && l != "js"@ && l != "mjs"@ && l != "cjs"@ && l != "ts"@ && l != "mts"@ && l != "cts"@ && l != "tsx"@ && l != "go"@ && l != "c"@ && l != "h"@ && l != "cpp"@ && l != "cc"@ && l != "cxx"@ && l != "hpp"@ && l != "hh"@ && l != "java"@ && l != "json"@ && l != "yaml"@ && l != "yml"@ && l != "sh"@ && l != "bash"@ && l != "zsh"@ && l != "html"@ && l != "htm"@ && l != "css"@ && l != "lua"@
        }) ==> extension_language(ext) is None,
{
    lemma_ascii_lowercase_idempotent(ext);
    reveal_strlit("rs");
    reveal_strlit("py");
    reveal_strlit("pyw");
    reveal_strlit("js");
    reveal_strlit("mjs");
    reveal_strlit("cjs");
    reveal_strlit("ts");
    reveal_strlit("mts");
    reveal_strlit("cts");
    reveal_strlit("tsx");
    reveal_strlit("go");
    reveal_strlit("c");
    reveal_strlit("h");
    reveal_strlit("cpp");
    reveal_strlit("cc");
    reveal_strlit("cxx");
    reveal_strlit("hpp");
    reveal_strlit("hh");
    reveal_strlit("java");
    reveal_strlit("json");
    reveal_strlit("yaml");
    reveal_strlit("yml");
    reveal_strlit("sh");
    reveal_strlit("bash");
    reveal_strlit("zsh");
    reveal_strlit("html");
    reveal_strlit("htm");
    reveal_strlit("css");
    reveal_strlit("lua");
    assert("rs"@.len() == 2 && "rs"@[0] == 'r' && "rs"@[1] == 's');
    assert(ascii_lowercase("rs"@) =~= "rs"@);
    assert("py"@.len() == 2 && "py"@[0] == 'p' && "py"@[1] == 'y');
    assert(ascii_lowercase("py"@) =~= "py"@);
    assert("pyw"@.len() == 3 && "pyw"@[0] == 'p' && "pyw"@[1] == 'y' && "pyw"@[2] == 'w');
    assert(ascii_lowercase("pyw"@) =~= "pyw"@);
    assert("js"@.len() == 2 && "js"@[0] == 'j' && "js"@[1] == 's');
    assert(ascii_lowercase("js"@) =~= "js"@);
    assert("mjs"@.len() == 3 && "mjs"@[0] == 'm' && "mjs"@[1] == 'j' && "mjs"@[2] == 's');
    assert(ascii_lowercase("mjs"@) =~= "mjs"@);
    assert("cjs"@.len() == 3 && "cjs"@[0] == 'c' && "cjs"@[1] == 'j' && "cjs"@[2] == 's');
    assert(ascii_lowercase("cjs"@) =~= "cjs"@);
    assert("ts"@.len() == 2 && "ts"@[0] == 't' && "ts"@[1] == 's');
    assert(ascii_lowercase("ts"@) =~= "ts"@);
    assert("mts"@.len() == 3 && "mts"@[0] == 'm' && "mts"@[1] == 't' && "mts"@[2] == 's');
    assert(ascii_lowercase("mts"@) =~= "mts"@);
    assert("cts"@.len() == 3 && "cts"@[0] == 'c' && "cts"@[1] == 't' && "cts"@[2] == 's');
    assert(ascii_lowercase("cts"@) =~= "cts"@);
    assert("tsx"@.len() == 3 && "tsx"@[0] == 't' && "tsx"@[1] == 's' && "tsx"@[2] == 'x');
    assert(ascii_lowercase("tsx"@) =~= "tsx"@);
    assert("go"@.len() == 2 && "go"@[0] == 'g' && "go"@[1] == 'o');
    assert(ascii_lowercase("go"@) =~= "go"@);
    assert("c"@.len() == 1 && "c"@[0] == 'c');
    assert(ascii_lowercase("c"@) =~= "c"@);
    assert("h"@.len() == 1 && "h"@[0] == 'h');
    assert(ascii_lowercase("h"@) =~= "h"@);
    assert("cpp"@.len() == 3 && "cpp"@[0] == 'c' && "cpp"@[1] == 'p' && "cpp"@[2] == 'p');
    assert(ascii_lowercase("cpp"@) =~= "cpp"@);
    assert("cc"@.len() == 2 && "cc"@[0] == 'c' && "cc"@[1] == 'c');
    assert(ascii_lowercase("cc"@) =~= "cc"@);
    assert("cxx"@.len() == 3 && "cxx"@[0] == 'c' && "cxx"@[1] == 'x' && "cxx"@[2] == 'x');
    assert(ascii_lowercase("cxx"@) =~= "cxx"@);
    assert("hpp"@.len() == 3 && "hpp"@[0] == 'h' && "hpp"@[1] == 'p' && "hpp"@[2] == 'p');
    assert(ascii_lowercase("hpp"@) =~= "hpp"@);
    assert("hh"@.len() == 2 && "hh"@[0] == 'h' && "hh"@[1] == 'h');
    assert(ascii_lowercase("hh"@) =~= "hh"@);
    assert("java"@.len() == 4 && "java"@[0] == 'j' && "java"@[1] == 'a' && "java"@[2] == 'v' && "java"@[3] == 'a');
    assert(ascii_lowercase("java"@) =~= "java"@);
    assert("json"@.len() == 4 && "json"@[0] == 'j' && "json"@[1] == 's' && "json"@[2] == 'o' && "json"@[3] == 'n');
    assert(ascii_lowercase("json"@) =~= "json"@);
    assert("yaml"@.len() == 4 && "yaml"@[0] == 'y' && "yaml"@[1] == 'a' && "yaml"@[2] == 'm' && "yaml"@[3] == 'l');
    assert(ascii_lowercase("yaml"@) =~= "yaml"@);
    assert("yml"@.len() == 3 && "yml"@[0] == 'y' && "yml"@[1] == 'm' && "yml"@[2] == 'l');
    assert(ascii_lowercase("yml"@) =~= "yml"@);
    assert("sh"@.len() == 2 && "sh"@[0] == 's' && "sh"@[1] == 'h');
    assert(ascii_lowercase("sh"@) =~= "sh"@);
    assert("bash"@.len() == 4 && "bash"@[0] == 'b' && "bash"@[1] == 'a' && "bash"@[2] == 's' && "bash"@[3] == 'h');
    assert(ascii_lowercase("bash"@) =~= "bash"@);
    assert("zsh"@.len() == 3 && "zsh"@[0] == 'z' && "zsh"@[1] == 's' && "zsh"@[2] == 'h');
    assert(ascii_lowercase("zsh"@) =~= "zsh"@);
    assert("html"@.len() == 4 && "html"@[0] == 'h' && "html"@[1] == 't' && "html"@[2] == 'm' && "html"@[3] == 'l');
    assert(ascii_lowercase("html"@) =~= "html"@);
    assert("htm"@.len() == 3 && "htm"@[0] == 'h' && "htm"@[1] == 't' && "htm"@[2] == 'm');
    assert(ascii_lowercase("htm"@) =~= "htm"@);
    assert("css"@.len() == 3 && "css"@[0] == 'c' && "css"@[1] == 's' && "css"@[2] == 's');
    assert(ascii_lowercase("css"@) =~= "css"@);
    assert("lua"@.len() == 3 && "lua"@[0] == 'l' && "lua"@[1] == 'u' && "lua"@[2] == 'a');
    assert(ascii_lowercase("lua"@) =~= "lua"@);
}

/// Picks the grammar for an already extracted file extension.
pub fn language_for_extension(ext: Option<&str>) -> (lang: Option<CodeLanguage>)
    ensures
        lang == match ext {
            Some(e) => extension_language(e@),
            None => None,
        },
{
    let e = match ext {
        Some(e) => e,
        None => return None,
    };
    let eq = |lit: &str| -> (b: bool)
        ensures
            b == (ascii_lowercase(e@) == lit@),
        { equals_ascii_lowercase(e, lit) };
    if eq("rs") {
        Some(CodeLanguage::Rust)
    } else if eq("py") || eq("pyw") {
        Some(CodeLanguage::Python)
    } else if eq("js") || eq("mjs") || eq("cjs") {
        Some(CodeLanguage::Javascript)
    } else if eq("ts") || eq("mts") || eq("cts") {
        Some(CodeLanguage::Typescript)
    } else if eq("tsx") {
        Some(CodeLanguage::Tsx)
    } else if eq("go") {
        Some(CodeLanguage::Go)
    } else if eq("c") || eq("h") {
        Some(CodeLanguage::C)
    } else if eq("cpp") || eq("cc") || eq("cxx") || eq("hpp") || eq("hh") {
        Some(CodeLanguage::Cpp)
    } else if eq("java") {
        Some(CodeLanguage::Java)
    } else if eq("json") {
        Some(CodeLanguage::Json)
    } else if eq("yaml") || eq("yml") {
        Some(CodeLanguage::Yaml)
    } else if eq("sh") || eq("bash") || eq("zsh") {
        Some(CodeLanguage::Bash)
    } else if eq("html") || eq("htm") {
        Some(CodeLanguage::Html)
    } else if eq("css") {
        Some(CodeLanguage::Css)
    } else if eq("lua") {
        Some(CodeLanguage::Lua)
    } else {
        None
    }
}

/// Picks the grammar by the extension of `path` (the extension itself comes
/// from the platform's path rules). For a bare file name the extension is
/// what follows its last `.`, so `main.rs` is Rust and `.bashrc` has none.
pub fn detect_language(path: &str) -> (lang: Option<CodeLanguage>)
    ensures
        lang is None || exists|e: Seq<char>|
            !e.contains('.') && !e.contains('/') && #[trigger] extension_language(e) == lang,
        !path@.contains('.') ==> lang is None,
        simple_file_name(path@) ==> lang == match name_extension(path@) {
            Some(e) => extension_language(e),
            None => None,
        },
        plain_file_path(path@) ==> lang == match path_extension(path@) {
            Some(e) => extension_language(e),
            None => None,
        },
{
    let ext = file_extension(path);
    let lang = language_for_extension(ext);
    proof {
        if simple_file_name(path@) {
            lemma_bare_name_is_plain_path(path@);
        }
        if let Some(e) = ext {
            assert(extension_language(e@) == lang);
        }
    }
    lang
}

} // verus!
