use hanji::extract::{extract_function_doc, strip_comment_marker, TokenEntry};
use hanji::markdown::{render_function_doc, MarkdownEngine};
use hanji::text::text_eq;

fn tok(kind: &str, text: &str) -> TokenEntry {
    TokenEntry { kind: kind.to_string(), description: String::new(), text: text.to_string() }
}

fn signature(params: &[(&str, &str)], tail: &[(&str, &str)]) -> Vec<TokenEntry> {
    let mut v = vec![tok("TokenFunction", "fn"), tok("TokenIdentifier", "f"), tok("TokenLParen", "(")];
    for (k, t) in params {
        v.push(tok(k, t));
    }
    v.push(tok("TokenRParen", ")"));
    for (k, t) in tail {
        v.push(tok(k, t));
    }
    v
}

#[test]
fn parameters_split_at_commas() {
    let tokens = signature(
        &[
            ("TokenIdentifier", "a"),
            ("TokenComma", ","),
            ("TokenIdentifier", "b"),
            ("TokenComma", ","),
            ("TokenIdentifier", "c"),
        ],
        &[("TokenLBrace", "{")],
    );
    let doc = extract_function_doc(&tokens);
    assert_eq!(doc.parameters, vec!["a".to_string(), "b".to_string(), "c".to_string()]);
    let block = render_function_doc(&doc, "");
    assert!(block.contains("#### Parameters:\n```\na\nb\nc\n```\n"));
}

#[test]
fn trailing_comma_leaves_no_empty_parameter() {
    let tokens = signature(
        &[("TokenIdentifier", "a"), ("TokenComma", ","), ("TokenIdentifier", "b"), ("TokenComma", ",")],
        &[("TokenLBrace", "{")],
    );
    let doc = extract_function_doc(&tokens);
    assert_eq!(doc.parameters, vec!["a".to_string(), "b".to_string()]);
}

#[test]
fn parameter_tokens_are_joined_by_spaces() {
    let tokens = signature(
        &[("TokenIdentifier", "x"), ("TokenColon", ":"), ("TokenIdentifier", "u32")],
        &[("TokenLBrace", "{")],
    );
    let doc = extract_function_doc(&tokens);
    assert_eq!(doc.parameters, vec!["x : u32".to_string()]);
}

#[test]
fn arrow_gives_return_type() {
    let tokens = signature(&[], &[("TokenArrow", "->"), ("TokenIdentifier", "u32"), ("TokenLBrace", "{")]);
    let doc = extract_function_doc(&tokens);
    assert_eq!(doc.return_type, "u32");
    assert!(doc.complete);
    assert!(doc.parameters.is_empty());
}

#[test]
fn no_arrow_gives_empty_return_type() {
    let tokens = signature(&[], &[("TokenLBrace", "{")]);
    let doc = extract_function_doc(&tokens);
    assert_eq!(doc.return_type, "");
    assert!(doc.complete);
}

#[test]
fn tokens_before_brace_without_arrow_are_not_a_return_type() {
    let tokens = signature(&[], &[("TokenNoPanic", "nopanic"), ("TokenLBrace", "{")]);
    let doc = extract_function_doc(&tokens);
    assert_eq!(doc.return_type, "");
}

#[test]
fn multi_token_return_type() {
    let tokens = signature(
        &[],
        &[
            ("TokenArrow", "->"),
            ("TokenIdentifier", "Array"),
            ("TokenLT", "<"),
            ("TokenIdentifier", "felt252"),
            ("TokenGT", ">"),
            ("TokenLBrace", "{"),
        ],
    );
    let doc = extract_function_doc(&tokens);
    assert_eq!(doc.return_type, "Array < felt252 >");
}

#[test]
fn leading_comments_are_stripped_and_joined() {
    let mut tokens = vec![
        tok("TokenSingleLineComment", "// first line  "),
        tok("TokenSingleLineComment", "//   second // inner"),
    ];
    tokens.extend(signature(&[], &[("TokenLBrace", "{")]));
    let doc = extract_function_doc(&tokens);
    assert_eq!(doc.leading_comments, "first line\nsecond // inner");
    assert_eq!(doc.name, "f");
}

#[test]
fn missing_keyword_is_degraded() {
    let tokens = vec![tok("TokenIdentifier", "x"), tok("TokenLParen", "("), tok("TokenRParen", ")")];
    let doc = extract_function_doc(&tokens);
    assert!(!doc.complete);
    assert_eq!(doc.name, "");
    assert!(doc.parameters.is_empty());
}

#[test]
fn keyword_as_last_token_has_no_name() {
    let tokens = vec![tok("TokenFunction", "fn")];
    let doc = extract_function_doc(&tokens);
    assert!(!doc.complete);
    assert_eq!(doc.name, "");
}

#[test]
fn empty_slice() {
    let doc = extract_function_doc(&[]);
    assert!(!doc.complete);
    assert_eq!(doc.name, "");
    assert_eq!(doc.leading_comments, "");
    assert_eq!(doc.return_type, "");
}

#[test]
fn same_tokens_same_doc() {
    let tokens = signature(
        &[("TokenIdentifier", "a"), ("TokenComma", ","), ("TokenIdentifier", "b")],
        &[("TokenArrow", "->"), ("TokenIdentifier", "bool"), ("TokenLBrace", "{")],
    );
    let first = extract_function_doc(&tokens);
    let second = extract_function_doc(&tokens);
    assert_eq!(first.name, second.name);
    assert_eq!(first.leading_comments, second.leading_comments);
    assert_eq!(first.parameters, second.parameters);
    assert_eq!(first.return_type, second.return_type);
    assert_eq!(first.complete, second.complete);
}

#[test]
fn render_full_block() {
    let mut tokens = vec![tok("TokenSingleLineComment", "// doubles x")];
    tokens.extend(signature(
        &[("TokenIdentifier", "x"), ("TokenColon", ":"), ("TokenIdentifier", "u32")],
        &[("TokenArrow", "->"), ("TokenIdentifier", "u32"), ("TokenLBrace", "{")],
    ));
    let doc = extract_function_doc(&tokens);
    let block = render_function_doc(&doc, "fn f(x: u32) -> u32 { x }");
    assert_eq!(
        block,
        "\n## Function `f`\n\ndoubles x\n\n#### Parameters:\n```\nx : u32\n```\n\n#### Returns:\n```\nu32\n```\n\n#### Source code\n```\nfn f(x: u32) -> u32 { x }\n```\n\n-----------------------------\n"
    );
}

#[test]
fn render_omits_empty_sections() {
    let tokens = signature(&[], &[("TokenLBrace", "{")]);
    let doc = extract_function_doc(&tokens);
    let block = render_function_doc(&doc, "");
    assert_eq!(block, "\n## Function `f`\n\n-----------------------------\n");
}

#[test]
fn render_syntax_doc_line() {
    let engine = MarkdownEngine::new();
    assert_eq!(
        engine.render_syntax_doc("TokenIdentifier", "name", "double", "FunctionDeclaration"),
        "TokenIdentifier name double\n"
    );
}

#[test]
fn comment_marker_is_stripped_once() {
    assert_eq!(strip_comment_marker("// a // b"), " a // b");
    assert_eq!(strip_comment_marker("/ x"), "/ x");
    assert_eq!(strip_comment_marker(""), "");
}

#[test]
fn text_helpers() {
    assert!(text_eq("TokenComma", "TokenComma"));
    assert!(!text_eq("TokenComma", "TokenColon"));
    assert!(!text_eq("Token", "TokenComma"));
    assert!(text_eq("", ""));
}

#[test]
fn comment_lines_lose_unicode_white_space() {
    let mut tokens = vec![tok("TokenSingleLineComment", "//\u{3000}wide\u{a0}\u{2009}")];
    tokens.extend(signature(&[], &[("TokenLBrace", "{")]));
    let doc = extract_function_doc(&tokens);
    assert_eq!(doc.leading_comments, "wide");
}
