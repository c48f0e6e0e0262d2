use hanji::markdown::MarkdownEngine;
use hanji::printer::{run_printer_with_spec, Printer, WalkError};
use hanji::syntax::{NodeShape, NodeSpec, SyntaxTree};
use hanji::template_engine::TemplateEngine;

fn tok(kind: &str, text: &str) -> SyntaxTree {
    SyntaxTree::Token { kind: kind.to_string(), text: text.to_string() }
}

fn node(kind: &str, children: Vec<SyntaxTree>) -> SyntaxTree {
    SyntaxTree::Node { kind: kind.to_string(), children }
}

fn strings(names: &[&str]) -> Vec<String> {
    names.iter().map(|n| n.to_string()).collect()
}

fn structure(name: &str, members: &[&str]) -> NodeSpec {
    NodeSpec { name: name.to_string(), shape: NodeShape::Struct { members: strings(members) } }
}

fn terminal(name: &str) -> NodeSpec {
    NodeSpec {
        name: name.to_string(),
        shape: NodeShape::Terminal { members: strings(&["leading_trivia", "token", "trailing_trivia"]) },
    }
}

fn list(name: &str) -> NodeSpec {
    NodeSpec { name: name.to_string(), shape: NodeShape::List }
}

fn separated(name: &str) -> NodeSpec {
    NodeSpec { name: name.to_string(), shape: NodeShape::SeparatedList }
}

fn grammar() -> Vec<NodeSpec> {
    vec![
        structure("SyntaxFile", &["items", "eof"]),
        list("ItemList"),
        structure("FunctionWithBody", &["declaration", "body"]),
        structure("FunctionDeclaration", &["function_kw", "name", "signature"]),
        terminal("TerminalFunction"),
        list("Trivia"),
        structure("FunctionSignature", &["lparen", "parameters", "rparen", "ret_ty"]),
        separated("ParamList"),
        structure("Param", &["name", "colon", "ws", "ty"]),
        structure("ReturnTypeClause", &["ws", "arrow", "ws2", "ty"]),
        structure("ExprBlock", &["ws", "lbrace", "statements", "rbrace"]),
        NodeSpec { name: "Expr".to_string(), shape: NodeShape::Enum },
        structure("Pair", &["left", "right"]),
    ]
}

fn param(name: &str, ty: &str) -> SyntaxTree {
    node(
        "Param",
        vec![
            tok("TokenIdentifier", name),
            tok("TokenColon", ":"),
            tok("TokenWhitespace", " "),
            tok("TokenIdentifier", ty),
        ],
    )
}

/// `// <comment>\nfn <name>(<params>) -> <ret> { <body> }`
fn function(comment: &str, name: &str, params: &[(&str, &str)], ret: &str, body: &str) -> SyntaxTree {
    let trivia = vec![tok("TokenSingleLineComment", comment), tok("TokenNewline", "\n")];
    function_with_trivia(trivia, name, params, ret, body)
}

fn function_with_trivia(
    trivia: Vec<SyntaxTree>,
    name: &str,
    params: &[(&str, &str)],
    ret: &str,
    body: &str,
) -> SyntaxTree {
    let mut list = Vec::new();
    for (i, (n, t)) in params.iter().enumerate() {
        if i > 0 {
            list.push(tok("TokenComma", ","));
        }
        list.push(param(n, t));
    }
    node(
        "FunctionWithBody",
        vec![
            node(
                "FunctionDeclaration",
                vec![
                    node(
                        "TerminalFunction",
                        vec![
                            node("Trivia", trivia),
                            tok("TokenFunction", "fn"),
                            node("Trivia", vec![tok("TokenWhitespace", " ")]),
                        ],
                    ),
                    tok("TokenIdentifier", name),
                    node(
                        "FunctionSignature",
                        vec![
                            tok("TokenLParen", "("),
                            node("ParamList", list),
                            tok("TokenRParen", ")"),
                            node(
                                "ReturnTypeClause",
                                vec![
                                    tok("TokenWhitespace", " "),
                                    tok("TokenArrow", "->"),
                                    tok("TokenWhitespace", " "),
                                    tok("TokenIdentifier", ret),
                                ],
                            ),
                        ],
                    ),
                ],
            ),
            node(
                "ExprBlock",
                vec![
                    tok("TokenWhitespace", " "),
                    tok("TokenLBrace", "{"),
                    tok("TokenText", body),
                    tok("TokenRBrace", "}"),
                ],
            ),
        ],
    )
}

fn file(functions: Vec<SyntaxTree>) -> SyntaxTree {
    node("SyntaxFile", vec![node("ItemList", functions), tok("TokenEndOfFile", "")])
}

fn double_file() -> SyntaxTree {
    file(vec![function("// doubles x", "double", &[("x", "u32")], "u32", " x * 2 ")])
}

const DOUBLE_BLOCK: &str = "\n## Function `double`\n\ndoubles x\n\n#### Parameters:\n```\nx : u32\n```\n\n#### Returns:\n```\nu32\n```\n\n#### Source code\n```\n// doubles x\nfn double(x: u32) -> u32 { x * 2 }\n```\n\n-----------------------------\n";

fn render(tree: &SyntaxTree) -> String {
    run_printer_with_spec(grammar(), tree, MarkdownEngine::new()).unwrap()
}

#[test]
fn double_function_document() {
    let out = render(&double_file());
    assert_eq!(out, DOUBLE_BLOCK);
    let header = out.find("## Function `double`").unwrap();
    let comment = out.find("doubles x").unwrap();
    let params = out.find("#### Parameters:\n```\nx : u32").unwrap();
    let returns = out.find("#### Returns:\n```\nu32").unwrap();
    assert!(header < comment && comment < params && params < returns);
}

#[test]
fn functions_render_in_document_order() {
    let tree = file(vec![
        function("// one", "first", &[("a", "u8"), ("b", "u8")], "u8", " a "),
        function("// two", "second", &[], "bool", " true "),
    ]);
    let out = render(&tree);
    let a = out.find("## Function `first`").unwrap();
    let b = out.find("## Function `second`").unwrap();
    assert!(a < b);
    assert!(out.contains("#### Parameters:\n```\na : u8\nb : u8\n```\n"));
}

#[test]
fn separate_files_do_not_mix() {
    let a = file(vec![function("// alpha doc", "alpha", &[("x", "u32")], "u32", " x ")]);
    let b = file(vec![function("// beta doc", "beta_only", &[("zeta", "felt252")], "felt252", " zeta ")]);
    let alone = render(&a);
    let _ = render(&b);
    let out_a = render(&a);
    let out_b = render(&b);
    assert_eq!(out_a, alone);
    for word in ["beta_only", "zeta", "felt252", "beta doc"] {
        assert!(!out_a.contains(word));
    }
    assert!(!out_b.contains("alpha"));
}

#[test]
fn boundary_at_the_function_keeps_the_output() {
    let mut printer = Printer::with_spec(MarkdownEngine::new(), grammar());
    printer.set_top_level_kind(Some("FunctionWithBody".to_string()));
    printer.print_tree("root", &double_file(), "", true, false).unwrap();
    assert_eq!(printer.template_engine().get_result(), DOUBLE_BLOCK);
}

#[test]
fn boundary_reports_fewer_tokens_in_the_same_order() {
    let mut whole = Printer::with_spec(MarkdownEngine::new(), grammar());
    whole.print_tree("root", &double_file(), "", true, true).unwrap();
    let mut bounded = Printer::with_spec(MarkdownEngine::new(), grammar());
    bounded.set_top_level_kind(Some("ReturnTypeClause".to_string()));
    bounded.print_tree("root", &double_file(), "", true, false).unwrap();
    let all: Vec<String> = whole.template_engine().tokens().iter().map(|t| t.text.clone()).collect();
    let inside: Vec<String> = bounded.template_engine().tokens().iter().map(|t| t.text.clone()).collect();
    assert_eq!(inside, vec!["->".to_string(), "u32".to_string()]);
    assert!(inside.len() <= all.len());
    let pos = all.iter().position(|t| t == "->").unwrap();
    assert_eq!(all[pos + 1], "u32");
    assert_eq!(bounded.template_engine().get_result(), "");
}

#[test]
fn boundary_kind_absent_reports_nothing() {
    let mut printer = Printer::with_spec(MarkdownEngine::new(), grammar());
    printer.set_top_level_kind(Some("ModuleBody".to_string()));
    printer.print_tree("root", &double_file(), "", true, false).unwrap();
    assert!(printer.template_engine().tokens().is_empty());
    assert_eq!(printer.template_engine().get_result(), "");
}

#[test]
fn ignored_node_hides_descendants() {
    let mut printer = Printer::with_spec(MarkdownEngine::new(), grammar());
    printer.set_ignored_kinds(vec!["FunctionSignature".to_string()]);
    printer.print_tree("root", &double_file(), "", true, true).unwrap();
    let texts: Vec<String> = printer.template_engine().tokens().iter().map(|t| t.text.clone()).collect();
    assert_eq!(texts, vec!["// doubles x", "fn", "double", "{", " x * 2 ", "}"]);
    assert!(printer.template_engine().is_balanced());
    let out = printer.template_engine().get_result();
    assert!(out.contains("## Function `double`"));
    assert!(!out.contains("#### Parameters:"));
}

#[test]
fn struct_children_are_labelled_by_members() {
    let mut printer = Printer::with_spec(MarkdownEngine::new(), grammar());
    printer.print_tree("root", &double_file(), "", true, true).unwrap();
    let labels: Vec<(String, String)> = printer
        .template_engine()
        .tokens()
        .iter()
        .map(|t| (t.text.clone(), t.description.clone()))
        .collect();
    let label_of = |text: &str| labels.iter().find(|(t, _)| t == text).unwrap().1.clone();
    assert_eq!(label_of("// doubles x"), "child #0");
    assert_eq!(label_of("fn"), "token");
    assert_eq!(label_of("double"), "name");
    assert_eq!(label_of("("), "lparen");
    assert_eq!(label_of("x"), "name");
    assert_eq!(label_of(":"), "colon");
    assert_eq!(label_of("->"), "arrow");
    assert_eq!(label_of("}"), "rbrace");
}

#[test]
fn separated_list_labels() {
    let mut printer = Printer::with_spec(MarkdownEngine::new(), grammar());
    let tree = node("ParamList", vec![tok("TokenIdentifier", "a"), tok("TokenComma", ","), tok("TokenIdentifier", "b")]);
    printer.print_tree("params", &tree, "", true, true).unwrap();
    let labels: Vec<String> = printer.template_engine().tokens().iter().map(|t| t.description.clone()).collect();
    assert_eq!(labels, vec!["item #0", "separator #0", "item #1"]);
}

#[test]
fn list_labels() {
    let mut printer = Printer::with_spec(MarkdownEngine::new(), grammar());
    let children: Vec<SyntaxTree> = (0..12).map(|i| tok("TokenIdentifier", &format!("t{i}"))).collect();
    printer.print_tree("items", &node("ItemList", children), "", true, true).unwrap();
    let labels: Vec<String> = printer.template_engine().tokens().iter().map(|t| t.description.clone()).collect();
    assert_eq!(labels[0], "child #0");
    assert_eq!(labels[11], "child #11");
}

#[test]
fn terminals_collapse_without_trivia() {
    let mut printer = Printer::with_spec(MarkdownEngine::new(), grammar());
    printer.set_print_trivia(false);
    printer.print_tree("root", &double_file(), "", true, true).unwrap();
    let tokens = printer.template_engine().tokens();
    assert!(tokens.iter().all(|t| t.kind != "TokenSingleLineComment"));
    let fn_kw = tokens.iter().find(|t| t.text == "fn").unwrap();
    assert_eq!(fn_kw.description, "function_kw");
    let out = printer.template_engine().get_result();
    assert!(out.contains("## Function `double`"));
    assert!(!out.contains("doubles x\n\n#### Parameters"));
}

#[test]
fn newline_and_whitespace_are_not_collected() {
    let mut printer = Printer::with_spec(MarkdownEngine::new(), grammar());
    printer.print_tree("root", &double_file(), "", true, true).unwrap();
    let tokens = printer.template_engine().tokens();
    assert!(tokens
        .iter()
        .all(|t| t.kind != "TokenNewline" && t.kind != "TokenWhitespace" && t.kind != "TokenEndOfFile"));
    assert!(printer.template_engine().is_balanced());
}

#[test]
fn missing_shape_is_an_error() {
    let tree = node("Mystery", vec![tok("TokenIdentifier", "x")]);
    let r = run_printer_with_spec(grammar(), &tree, MarkdownEngine::new());
    assert_eq!(r, Err(WalkError::MissingShape { kind: "Mystery".to_string() }));
}

#[test]
fn child_count_mismatch_is_an_error() {
    let tree = node("Param", vec![tok("TokenIdentifier", "x")]);
    let r = run_printer_with_spec(grammar(), &tree, MarkdownEngine::new());
    assert_eq!(r, Err(WalkError::ChildCountMismatch { kind: "Param".to_string() }));
}

#[test]
fn enum_shape_on_a_node_is_an_error() {
    let tree = node("Expr", vec![tok("TokenIdentifier", "x")]);
    let r = run_printer_with_spec(grammar(), &tree, MarkdownEngine::new());
    assert_eq!(r, Err(WalkError::UnexpectedShape { kind: "Expr".to_string() }));
}

#[test]
fn empty_node_needs_no_shape() {
    let tree = node("Mystery", vec![]);
    let r = run_printer_with_spec(grammar(), &tree, MarkdownEngine::new());
    assert_eq!(r, Ok(String::new()));
}

#[test]
fn unbalanced_end_is_flagged() {
    let mut engine = MarkdownEngine::new();
    let n = node("ItemList", vec![]);
    engine.node_end("x", &n);
    assert!(!engine.is_balanced());
    assert_eq!(engine.get_result(), "");
}

fn x_param() -> SyntaxTree {
    param("x", "u32")
}

#[test]
fn tree_dump_of_a_struct() {
    let mut printer = Printer::with_spec(MarkdownEngine::new(), grammar());
    printer.print_tree("param", &x_param(), "", true, true).unwrap();
    assert_eq!(
        printer.get_tree(),
        "└── param (kind: Param)\n    ├── name (kind: TokenIdentifier): 'x'\n    ├── colon (kind: TokenColon): ':'\n    ├── ws (kind: TokenWhitespace).\n    └── ty (kind: TokenIdentifier): 'u32'\n"
    );
}

#[test]
fn tree_dump_marks_only_the_last_sibling() {
    let mut printer = Printer::with_spec(MarkdownEngine::new(), grammar());
    let tree = node("Pair", vec![x_param(), tok("TokenIdentifier", "y")]);
    printer.print_tree("root", &tree, "", true, true).unwrap();
    assert_eq!(
        printer.get_tree(),
        "└── root (kind: Pair)\n    ├── left (kind: Param)\n    │   ├── name (kind: TokenIdentifier): 'x'\n    │   ├── colon (kind: TokenColon): ':'\n    │   ├── ws (kind: TokenWhitespace).\n    │   └── ty (kind: TokenIdentifier): 'u32'\n    └── right (kind: TokenIdentifier): 'y'\n"
    );
}

#[test]
fn tree_dump_starts_at_the_boundary() {
    let mut printer = Printer::with_spec(MarkdownEngine::new(), grammar());
    printer.set_top_level_kind(Some("Param".to_string()));
    let tree = node("ItemList", vec![tok("TokenIdentifier", "outside"), x_param()]);
    printer.print_tree("root", &tree, "", true, false).unwrap();
    assert_eq!(
        printer.get_tree(),
        "└── Top level kind: Param\n    ├── name (kind: TokenIdentifier): 'x'\n    ├── colon (kind: TokenColon): ':'\n    ├── ws (kind: TokenWhitespace).\n    └── ty (kind: TokenIdentifier): 'u32'\n"
    );
}

#[test]
fn tree_dump_of_ignored_empty_and_missing() {
    let mut printer = Printer::with_spec(MarkdownEngine::new(), grammar());
    printer.set_ignored_kinds(vec!["Param".to_string()]);
    let tree = node(
        "ItemList",
        vec![x_param(), node("ItemList", vec![]), node("ExprMissing", vec![]), tok("TokenMissing", "")],
    );
    printer.print_tree("items", &tree, "", true, true).unwrap();
    assert_eq!(
        printer.get_tree(),
        "└── items (kind: ItemList)\n    ├── child #0 (kind: Param) <ignored>\n    ├── child #1 (kind: ItemList) []\n    ├── child #2: Missing []\n    └── child #3: Missing\n"
    );
}

#[test]
fn source_code_is_trimmed_of_newlines() {
    let trivia = vec![
        tok("TokenNewline", "\n"),
        tok("TokenNewline", "\n"),
        tok("TokenSingleLineComment", "// c"),
        tok("TokenNewline", "\n"),
    ];
    let tree = file(vec![function_with_trivia(trivia, "g", &[], "u8", " 1 ")]);
    let out = render(&tree);
    assert!(out.contains("#### Source code\n```\n// c\nfn g() -> u8 { 1 }\n```\n"));
    assert!(out.contains("\nc\n"));
}

#[test]
fn ignored_terminal_is_not_replaced_by_its_token() {
    let mut printer = Printer::with_spec(MarkdownEngine::new(), grammar());
    printer.set_print_trivia(false);
    printer.set_ignored_kinds(vec!["TerminalFunction".to_string()]);
    printer.print_tree("root", &double_file(), "", true, true).unwrap();
    let tokens = printer.template_engine().tokens();
    assert!(tokens.iter().all(|t| t.text != "fn" && t.text != "// doubles x"));
    assert!(tokens.iter().any(|t| t.text == "double"));
    assert!(printer.get_tree().contains("function_kw (kind: TerminalFunction) <ignored>\n"));
}
