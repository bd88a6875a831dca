use rooq::highlight::{
    detect_language, grammar_name, highlight_outcome, highlight_source, language_for_extension,
    CodeLanguage, HighlightError, HighlightedLine, SpanStyle,
};

#[test]
fn detects_rust_from_extension() {
    assert!(matches!(detect_language("main.rs"), Some(CodeLanguage::Rust)));
}

#[test]
fn unknown_extension_returns_none() {
    assert!(detect_language("file.zzz").is_none());
}

#[test]
fn language_table_ignores_ascii_case() {
    assert_eq!(language_for_extension(Some("HPP")), Some(CodeLanguage::Cpp));
    assert_eq!(language_for_extension(Some("yml")), Some(CodeLanguage::Yaml));
    assert_eq!(language_for_extension(Some("Zsh")), Some(CodeLanguage::Bash));
    assert_eq!(language_for_extension(None), None);
    assert_eq!(detect_language("Makefile"), None);
}

#[test]
fn extension_is_what_follows_the_last_dot() {
    assert_eq!(detect_language("archive.tar.py"), Some(CodeLanguage::Python));
    assert_eq!(detect_language("config.json"), Some(CodeLanguage::Json));
    assert_eq!(detect_language(".bashrc"), None);
    assert_eq!(detect_language(".hidden.sh"), Some(CodeLanguage::Bash));
    assert_eq!(detect_language("trailing."), None);
}

#[test]
fn highlights_simple_rust_snippet() {
    let result = highlight_source("fn main() {}", CodeLanguage::Rust);
    assert!(result.is_ok());
    let lines = result.unwrap();
    assert_eq!(lines.len(), 1);
    assert!(!lines[0].spans.is_empty());
}

#[test]
fn highlighted_spans_cover_the_source_line_by_line() {
    let source = "let x = 1;\nlet y = \"two\";";
    let lines = highlight_source(source, CodeLanguage::Rust).unwrap();
    assert_eq!(lines.len(), 2);
    let first: String = lines[0].spans.iter().map(|(t, _)| t.as_str()).collect();
    assert_eq!(first, "let x = 1;");
    assert!(lines[0].spans.iter().any(|(_, style)| style.is_some()));
}

#[test]
fn every_language_has_a_grammar() {
    for (lang, name) in [
        (CodeLanguage::Rust, "rust"),
        (CodeLanguage::Cpp, "cpp"),
        (CodeLanguage::Tsx, "tsx"),
        (CodeLanguage::Bash, "bash"),
        (CodeLanguage::Lua, "lua"),
    ] {
        assert_eq!(grammar_name(lang), name);
        assert!(highlight_source("x", lang).is_ok());
    }
}

#[test]
fn highlighter_errors_become_parse_errors() {
    match highlight_outcome(Err("no grammar".to_string())) {
        Err(HighlightError::Parse(m)) => assert_eq!(m, "no grammar"),
        Ok(_) => panic!("expected an error"),
    }
    let style = SpanStyle {
        red: 1,
        green: 2,
        blue: 3,
        bold: true,
        italic: false,
        underline: false,
        strikethrough: false,
    };
    let line = HighlightedLine { spans: vec![("fn".to_string(), Some(style))] };
    let out = highlight_outcome(Ok(vec![line])).unwrap();
    assert_eq!(out.len(), 1);
    assert_eq!(out[0].spans[0].0, "fn");
    assert_eq!(out[0].spans[0].1.unwrap().blue, 3);
}
