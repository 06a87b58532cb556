use railroad_dsl::{compile, start_to_end, Diagram, Expected, Expr, Root, SyntaxError, Wrapped};

fn term(s: &str) -> Expr {
    Expr::Term(s.to_string())
}

fn nonterm(s: &str) -> Expr {
    Expr::NonTerm(s.to_string())
}

fn boxed(e: Expr) -> Box<Expr> {
    Box::new(e)
}

fn single(src: &str) -> Expr {
    match compile(src, "").expect("should compile").root {
        Root::Single(w) => w.inner,
        Root::Grid(_) => panic!("expected a single diagram"),
    }
}

fn failure(src: &str) -> SyntaxError {
    match compile(src, "") {
        Ok(_) => panic!("expected a syntax error"),
        Err(e) => e,
    }
}

#[test]
fn term_unescapes_double_quote() {
    assert_eq!(single("\"a\\\"b\""), term("a\"b"));
}

#[test]
fn nonterm_unescapes_single_quote() {
    assert_eq!(single("'x\\'y'"), nonterm("x'y"));
}

#[test]
fn escaped_backslash_is_kept_once() {
    assert_eq!(single("\"a\\\\b\""), term("a\\b"));
    assert_eq!(single("\"\\n\""), term("n"));
}

#[test]
fn comment_and_empty_leaves() {
    assert_eq!(single("`note`"), Expr::Comment("note".to_string()));
    assert_eq!(single("!"), Expr::Empty);
}

#[test]
fn optional_binds_before_repeat() {
    assert_eq!(
        single("\"a\"?*\",\""),
        Expr::Repeat(boxed(Expr::Optional(boxed(term("a")))), boxed(term(",")))
    );
}

#[test]
fn optional_suffixes_nest() {
    assert_eq!(
        single("\"a\"??"),
        Expr::Optional(boxed(Expr::Optional(boxed(term("a")))))
    );
}

#[test]
fn labeled_box_binds_loosest() {
    assert_eq!(
        single("\"a\"*\",\"#'L'"),
        Expr::LabeledBox(
            boxed(Expr::Repeat(boxed(term("a")), boxed(term(",")))),
            boxed(nonterm("L"))
        )
    );
}

#[test]
fn whitespace_between_suffixes() {
    assert_eq!(
        single("  \"a\" ?\n* \",\" ? "),
        Expr::Repeat(
            boxed(Expr::Optional(boxed(term("a")))),
            boxed(Expr::Optional(boxed(term(","))))
        )
    );
}

#[test]
fn lists_keep_source_order() {
    assert_eq!(
        single("[\"a\", 'b', {!, `c`}, <\"x\", \"y\">]"),
        Expr::Sequence(vec![
            term("a"),
            nonterm("b"),
            Expr::Stack(vec![Expr::Empty, Expr::Comment("c".to_string())]),
            Expr::Choice(vec![term("x"), term("y")]),
        ])
    );
}

#[test]
fn empty_input_fails() {
    let e = failure("");
    assert_eq!(e.pos, 0);
    assert_eq!(e.expected, Expected::Expression);
    assert_eq!((e.line, e.column), (1, 1));
}

#[test]
fn blank_input_fails() {
    let e = failure("  \n\t ");
    assert_eq!(e.pos, 5);
    assert_eq!(e.expected, Expected::Expression);
    assert_eq!((e.line, e.column), (2, 3));
}

#[test]
fn unterminated_quote_fails_after_delimiter() {
    let e = failure("\"a");
    assert_eq!(e.pos, 2);
    assert_eq!(e.expected, Expected::Closing('"'));
    assert_eq!((e.line, e.column), (1, 3));
    assert_eq!(e.path, None);
}

#[test]
fn trailing_backslash_leaves_quote_open() {
    let e = failure("'a\\'");
    assert_eq!(e.pos, 4);
    assert_eq!(e.expected, Expected::Closing('\''));
}

#[test]
fn unclosed_list_fails() {
    let e = failure("[\"a\" \"b\"]");
    assert_eq!(e.pos, 5);
    assert_eq!(e.expected, Expected::ListEnd(']'));
}

#[test]
fn second_repeat_is_rejected() {
    let e = failure("\"a\"*\"b\"*\"c\"");
    assert_eq!(e.pos, 7);
    assert_eq!(e.expected, Expected::Expression);
}

#[test]
fn missing_separator_is_rejected() {
    let e = failure("\"a\"*");
    assert_eq!(e.pos, 4);
    assert_eq!(e.expected, Expected::Expression);
}

#[test]
fn error_position_on_later_line() {
    let e = failure("\"a\"\n  <\"b\",\n  ?>");
    assert_eq!(e.pos, 14);
    assert_eq!((e.line, e.column), (3, 3));
}

#[test]
fn two_diagrams_form_a_grid() {
    let d = compile("\"a\" \"b\"", "").expect("should compile");
    assert_eq!(d.root.len(), 2);
    assert_eq!(
        d.root,
        Root::Grid(vec![Wrapped { inner: term("a") }, Wrapped { inner: term("b") }])
    );
}

#[test]
fn one_diagram_is_single() {
    let d = compile("[\"a\"]", "").expect("should compile");
    assert_eq!(d.root.len(), 1);
    assert!(matches!(d.root, Root::Single(_)));
}

#[test]
fn recompiling_gives_identical_trees() {
    let src = "<\"a\"?, ['b'*`c`]#\"l\"> {!}";
    let a: Diagram = compile(src, "css").expect("should compile");
    let b: Diagram = compile(src, "css").expect("should compile");
    assert_eq!(a, b);
}

#[test]
fn stylesheet_is_passed_through() {
    let d = compile("!", "svg { fill: red }").expect("should compile");
    assert_eq!(d.stylesheet, "svg { fill: red }");
}

#[test]
fn with_path_labels_the_error() {
    let e = failure("[").with_path("<stdin>");
    assert_eq!(e.path, Some("<stdin>".to_string()));
    assert_eq!(e.pos, 1);
    assert_eq!(e.expected, Expected::Expression);
}

#[test]
fn start_to_end_frames_the_tree() {
    assert_eq!(start_to_end(Expr::Empty), Wrapped { inner: Expr::Empty });
}

#[test]
fn expected_descriptions() {
    assert_eq!(Expected::Expression.describe(), "an expression");
    assert_eq!(Expected::Closing('`').describe(), "a closing backtick");
    assert_eq!(Expected::ListEnd('>').describe(), "`,` or `>`");
}

#[test]
fn message_without_path() {
    let e = failure("\n\n   [\"a\"");
    assert_eq!(e.message(), "line 3, column 8: expected `,` or `]`");
}

#[test]
fn message_with_path() {
    let e = failure("'x").with_path("grammar.txt");
    assert_eq!(e.message(), "grammar.txt:1:3: expected a closing single quote");
}

#[test]
fn message_with_multi_digit_position() {
    let src = format!("{}`", "\n".repeat(120));
    let e = failure(&src);
    assert_eq!(e.line, 121);
    assert_eq!(e.message(), "line 121, column 2: expected a closing backtick");
}

#[test]
fn concatenated_documents_add_their_diagrams() {
    let a = "[\"a\", 'b']? <!, `c`>";
    let b = "'d'*\",\"#`e`";
    let joined = format!("{}\n\t {}", a, b);
    let n_a = compile(a, "").expect("should compile").root.len();
    let n_b = compile(b, "").expect("should compile").root.len();
    let d = compile(&joined, "").expect("should compile");
    assert_eq!((n_a, n_b), (2, 1));
    assert_eq!(d.root.len(), 3);
    match d.root {
        Root::Grid(ws) => {
            assert_eq!(ws[2].inner, Expr::LabeledBox(
                boxed(Expr::Repeat(boxed(nonterm("d")), boxed(term(",")))),
                boxed(Expr::Comment("e".to_string()))
            ));
        }
        Root::Single(_) => panic!("expected a grid"),
    }
}
