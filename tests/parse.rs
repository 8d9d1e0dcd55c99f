use proc_macro2::{Span, TokenStream};
use snafu_parse::{
    attributes_from_groups, parse_group, AnnotationGroup, Attribute, Delimiter, ErrorKind,
    Expected, ParseError, SourceClause, Spacing, TokenTree,
};

fn convert(ts: TokenStream) -> Vec<TokenTree> {
    ts.into_iter().map(convert_tree).collect()
}

fn convert_tree(t: proc_macro2::TokenTree) -> TokenTree {
    match t {
        proc_macro2::TokenTree::Group(g) => TokenTree::Group {
            delimiter: match g.delimiter() {
                proc_macro2::Delimiter::Parenthesis => Delimiter::Parenthesis,
                proc_macro2::Delimiter::Brace => Delimiter::Brace,
                proc_macro2::Delimiter::Bracket => Delimiter::Bracket,
                proc_macro2::Delimiter::None => Delimiter::Invisible,
            },
            body: convert(g.stream()),
            span: g.span(),
        },
        proc_macro2::TokenTree::Ident(i) => TokenTree::Ident { name: i.to_string(), span: i.span() },
        proc_macro2::TokenTree::Punct(p) => TokenTree::Punct {
            ch: p.as_char(),
            spacing: match p.spacing() {
                proc_macro2::Spacing::Alone => Spacing::Alone,
                proc_macro2::Spacing::Joint => Spacing::Joint,
            },
            span: p.span(),
        },
        proc_macro2::TokenTree::Literal(l) => {
            let single = TokenStream::from(proc_macro2::TokenTree::Literal(l.clone()));
            let text = syn::parse2::<syn::LitStr>(single).ok().map(|s| s.value());
            let lexed = text.as_ref().and_then(|v| v.parse::<TokenStream>().ok()).map(convert);
            TokenTree::Literal { repr: l.to_string(), text, lexed, span: l.span() }
        }
    }
}

fn lex(src: &str) -> Vec<TokenTree> {
    convert(src.parse().unwrap())
}

fn group(src: &str) -> Result<Vec<Attribute>, ParseError> {
    parse_group(lex(src), Span::call_site())
}

fn annotation(name: &str, src: &str) -> AnnotationGroup {
    AnnotationGroup { name: Some(name.to_string()), tokens: lex(src), span: Span::call_site() }
}

/// The tokens as text, without their spans.
fn render(ts: &[TokenTree]) -> String {
    let mut out = String::new();
    for t in ts {
        match t {
            TokenTree::Group { delimiter, body, .. } => {
                let (open, close) = match delimiter {
                    Delimiter::Parenthesis => ("(", ")"),
                    Delimiter::Brace => ("{", "}"),
                    Delimiter::Bracket => ("[", "]"),
                    Delimiter::Invisible => ("", ""),
                };
                out.push_str(open);
                out.push_str(&render(body));
                out.push_str(close);
            }
            TokenTree::Ident { name, .. } => out.push_str(name),
            TokenTree::Punct { ch, .. } => out.push(*ch),
            TokenTree::Literal { repr, .. } => out.push_str(repr),
        }
        out.push(' ');
    }
    out
}

fn one(src: &str) -> Attribute {
    let mut v = group(src).unwrap_or_else(|e| panic!("{}: {}", src, e.message()));
    assert_eq!(v.len(), 1, "{}", src);
    v.remove(0)
}

fn error_kind(src: &str) -> ErrorKind {
    match group(src) {
        Ok(_) => panic!("{} parsed", src),
        Err(e) => e.kind,
    }
}

fn enabled(a: &Attribute) -> (&'static str, bool) {
    match a {
        Attribute::Backtrace { enabled, .. } => ("backtrace", *enabled),
        Attribute::Context { enabled, .. } => ("context", *enabled),
        _ => panic!("not a flag attribute"),
    }
}

fn flags(a: &Attribute) -> Vec<bool> {
    match a {
        Attribute::Source { clauses, .. } => clauses
            .iter()
            .map(|c| match c {
                SourceClause::Flag(b) => *b,
                SourceClause::From { .. } => panic!("not a flag"),
            })
            .collect(),
        _ => panic!("not a source attribute"),
    }
}

fn display_args(a: &Attribute) -> String {
    match a {
        Attribute::Display { args, .. } => render(args.emit()),
        _ => panic!("not a display attribute"),
    }
}

#[test]
fn bare_flags_default_to_true() {
    assert_eq!(enabled(&one("backtrace")), ("backtrace", true));
    assert_eq!(enabled(&one("context")), ("context", true));
    assert_eq!(flags(&one("source")), vec![true]);
}

#[test]
fn explicit_flags_are_kept() {
    assert_eq!(enabled(&one("backtrace(false)")), ("backtrace", false));
    assert_eq!(enabled(&one("backtrace(true)")), ("backtrace", true));
    assert_eq!(enabled(&one("context(false)")), ("context", false));
    assert_eq!(flags(&one("source(false)")), vec![false]);
    assert_eq!(flags(&one("source(true, false)")), vec![true, false]);
}

#[test]
fn other_alone_is_accepted() {
    assert!(matches!(one("other"), Attribute::Other { .. }));
}

#[test]
fn other_with_argument_is_disallowed() {
    let errs = match attributes_from_groups(vec![annotation("snafu", "(other(true))")]) {
        Ok(_) => panic!("parsed"),
        Err(errs) => errs,
    };
    assert_eq!(errs.len(), 1);
    assert_eq!(errs[0].kind, ErrorKind::DisallowedArgument);
    assert!(errs[0].message().contains("`other`"));
}

#[test]
fn backtrace_delegate_is_deprecated() {
    assert_eq!(error_kind("backtrace(delegate)"), ErrorKind::DeprecatedSyntax);
    assert!(group("backtrace(delegate)").err().unwrap().message().contains("removed"));
    assert_eq!(
        error_kind("context(delegate)"),
        ErrorKind::MalformedArgument(Expected::BoolLiteral)
    );
}

#[test]
fn malformed_groups_are_all_reported() {
    let groups = vec![
        annotation("snafu", "(context(1))"),
        annotation("snafu", "(display)"),
        annotation("snafu", "(backtrace)"),
        annotation("snafu", "(unknown)"),
    ];
    let errs = match attributes_from_groups(groups) {
        Ok(_) => panic!("parsed"),
        Err(errs) => errs,
    };
    let kinds: Vec<ErrorKind> = errs.iter().map(|e| e.kind).collect();
    assert_eq!(
        kinds,
        vec![
            ErrorKind::MalformedArgument(Expected::BoolLiteral),
            ErrorKind::MalformedArgument(Expected::ParenthesizedOrString),
            ErrorKind::UnrecognizedKeyword,
        ]
    );
}

#[test]
fn two_malformed_groups_give_two_errors() {
    let groups = vec![annotation("snafu", "(backtrace(7))"), annotation("snafu", "(other(x))")];
    match attributes_from_groups(groups) {
        Ok(_) => panic!("parsed"),
        Err(errs) => assert_eq!(errs.len(), 2),
    }
}

#[test]
fn crate_root_round_trip() {
    match one("crate_root(::my_crate::errors)") {
        Attribute::CrateRoot { path, .. } => {
            assert_eq!(render(path.emit()), render(&lex("::my_crate::errors")))
        }
        _ => panic!("not crate_root"),
    }
}

#[test]
fn display_round_trip() {
    let args = r#""{} at {:?}", self.name, foo(a, [b, c])"#;
    let a = one(&format!("display({})", args));
    assert_eq!(display_args(&a), render(&lex(args)));
    match a {
        Attribute::Display { args: f, .. } => assert_eq!(f.emit().len(), 8),
        _ => panic!("not display"),
    }
}

#[test]
fn source_from_round_trip() {
    match one("source(from(Box<dyn std::error::Error>, wrap_io))") {
        Attribute::Source { clauses, .. } => {
            assert_eq!(clauses.len(), 1);
            match &clauses[0] {
                SourceClause::From { ty, expr } => {
                    assert_eq!(render(ty.emit()), render(&lex("Box<dyn std::error::Error>")));
                    assert_eq!(render(expr.emit()), render(&lex("wrap_io")));
                }
                SourceClause::Flag(_) => panic!("not from"),
            }
        }
        _ => panic!("not source"),
    }
}

#[test]
fn display_compat_forms_agree() {
    let pretty = one(r#"display("{}", x)"#);
    let nested = one(r#"display = "(\"{}\", x)""#);
    let bare = one(r#"display = "\"{}\", x""#);
    assert_eq!(display_args(&pretty), display_args(&nested));
    assert_eq!(display_args(&pretty), display_args(&bare));
    assert_eq!(display_args(&pretty), "\"{}\" , x ");
}

#[test]
fn display_string_tries_nested_parentheses_first() {
    assert_eq!(display_args(&one(r#"display = "(a)""#)), "a ");
    assert_eq!(display_args(&one(r#"display = "(a), b""#)), "(a ) , b ");
    assert_eq!(display_args(&one(r#"display = "((a, b))""#)), "(a , b ) ");
}

#[test]
fn visibility_is_not_defaulted() {
    let attrs = group("backtrace, context(false)").unwrap();
    assert!(!attrs.iter().any(|a| matches!(a, Attribute::Visibility { .. })));
    match one("visibility") {
        Attribute::Visibility { spec, .. } => assert!(spec.is_none()),
        _ => panic!("not visibility"),
    }
}

#[test]
fn visibility_forms() {
    for (src, want) in [
        ("visibility(pub(crate))", "pub (crate ) "),
        (r#"visibility = "pub(crate)""#, "pub (crate ) "),
        ("visibility()", ""),
    ] {
        match one(src) {
            Attribute::Visibility { spec: Some(f), .. } => assert_eq!(render(f.emit()), want),
            _ => panic!("{}", src),
        }
    }
}

#[test]
fn doc_comment_is_harvested() {
    let attrs = match attributes_from_groups(vec![annotation("doc", r#"= "Some text""#)]) {
        Ok(attrs) => attrs,
        Err(_) => panic!("failed"),
    };
    assert_eq!(attrs.len(), 1);
    match &attrs[0] {
        Attribute::DocComment { text, .. } => assert_eq!(text, "Some text"),
        _ => panic!("not a doc comment"),
    }
}

#[test]
fn malformed_doc_is_ignored() {
    let groups = vec![
        annotation("doc", "(hidden)"),
        annotation("doc", "= 5"),
        annotation("derive", "(Debug)"),
        annotation("snafu", "(other)"),
    ];
    let attrs = match attributes_from_groups(groups) {
        Ok(attrs) => attrs,
        Err(_) => panic!("failed"),
    };
    assert_eq!(attrs.len(), 1);
    assert!(matches!(attrs[0], Attribute::Other { .. }));
}

#[test]
fn scenario_backtrace_context_source() {
    let attrs = group("backtrace, context(false), source(from(IoError, wrap_io))").unwrap();
    assert_eq!(attrs.len(), 3);
    assert_eq!(enabled(&attrs[0]), ("backtrace", true));
    assert_eq!(enabled(&attrs[1]), ("context", false));
    match &attrs[2] {
        Attribute::Source { clauses, .. } => {
            assert_eq!(clauses.len(), 1);
            match &clauses[0] {
                SourceClause::From { ty, expr } => {
                    assert_eq!(render(ty.emit()), "IoError ");
                    assert_eq!(render(expr.emit()), "wrap_io ");
                }
                SourceClause::Flag(_) => panic!("not from"),
            }
        }
        _ => panic!("not source"),
    }
}

#[test]
fn scenario_other_true() {
    match group("other(true)") {
        Ok(_) => panic!("parsed"),
        Err(e) => {
            assert_eq!(e.kind, ErrorKind::DisallowedArgument);
            assert!(e.message().contains("`other`"));
        }
    }
}

#[test]
fn order_of_annotations_is_kept() {
    let groups = vec![
        annotation("snafu", "(display(\"x\"))"),
        annotation("doc", "= \"first\""),
        annotation("snafu", "(context(false), backtrace)"),
    ];
    let attrs = match attributes_from_groups(groups) {
        Ok(attrs) => attrs,
        Err(_) => panic!("failed"),
    };
    assert_eq!(attrs.len(), 4);
    assert!(matches!(attrs[0], Attribute::Display { .. }));
    assert!(matches!(attrs[1], Attribute::DocComment { .. }));
    assert_eq!(enabled(&attrs[2]), ("context", false));
    assert_eq!(enabled(&attrs[3]), ("backtrace", true));
}

#[test]
fn each_malformed_shape_has_its_error() {
    let cases = [
        ("unknown", ErrorKind::UnrecognizedKeyword),
        ("\"display\"", ErrorKind::UnrecognizedKeyword),
        ("backtrace,", ErrorKind::UnrecognizedKeyword),
        ("", ErrorKind::UnrecognizedKeyword),
        ("backtrace(1)", ErrorKind::MalformedArgument(Expected::BoolLiteral)),
        ("backtrace()", ErrorKind::MalformedArgument(Expected::BoolLiteral)),
        ("backtrace(true false)", ErrorKind::MalformedArgument(Expected::End)),
        ("backtrace context", ErrorKind::MalformedArgument(Expected::Comma)),
        ("backtrace = true", ErrorKind::MalformedArgument(Expected::Comma)),
        ("crate_root", ErrorKind::MalformedArgument(Expected::Parenthesized)),
        ("crate_root = \"x\"", ErrorKind::MalformedArgument(Expected::Parenthesized)),
        ("crate_root(a, b)", ErrorKind::MalformedArgument(Expected::Fragment)),
        ("crate_root()", ErrorKind::MalformedArgument(Expected::Fragment)),
        ("display", ErrorKind::MalformedArgument(Expected::ParenthesizedOrString)),
        ("display = 5", ErrorKind::MalformedArgument(Expected::StringLiteral)),
        ("display(,)", ErrorKind::MalformedArgument(Expected::FragmentList)),
        ("display(\"x\",)", ErrorKind::MalformedArgument(Expected::FragmentList)),
        ("display = \"a,,b\"", ErrorKind::MalformedArgument(Expected::FragmentList)),
        ("display = \"'\"", ErrorKind::MalformedArgument(Expected::FragmentList)),
        ("source(maybe)", ErrorKind::MalformedArgument(Expected::BoolOrFrom)),
        ("source()", ErrorKind::MalformedArgument(Expected::BoolOrFrom)),
        ("source(from)", ErrorKind::MalformedArgument(Expected::Parenthesized)),
        ("source(from(T))", ErrorKind::MalformedArgument(Expected::TypeAndExpression)),
        ("source(from(T,))", ErrorKind::MalformedArgument(Expected::TypeAndExpression)),
        ("source(from(Vec<T, e))", ErrorKind::MalformedArgument(Expected::TypeAndExpression)),
        ("crate_root(a, B<C, D>)", ErrorKind::MalformedArgument(Expected::Fragment)),
        ("source(from(, e))", ErrorKind::MalformedArgument(Expected::TypeAndExpression)),
        ("source(true false)", ErrorKind::MalformedArgument(Expected::Comma)),
        ("visibility(a, b)", ErrorKind::MalformedArgument(Expected::Fragment)),
        ("visibility = \"a, b\"", ErrorKind::MalformedArgument(Expected::Fragment)),
        ("visibility = pub", ErrorKind::MalformedArgument(Expected::StringLiteral)),
        ("other = 1", ErrorKind::DisallowedArgument),
    ];
    for (src, kind) in cases {
        assert_eq!(error_kind(src), kind, "{}", src);
    }
}

#[test]
fn snafu_annotation_needs_parentheses() {
    for tokens in ["", "= \"backtrace\"", "[backtrace]"] {
        match attributes_from_groups(vec![annotation("snafu", tokens)]) {
            Ok(_) => panic!("parsed {}", tokens),
            Err(errs) => assert_eq!(
                errs[0].kind,
                ErrorKind::MalformedArgument(Expected::AttributeArguments)
            ),
        }
    }
}

#[test]
fn every_error_has_a_message() {
    for src in ["unknown", "backtrace(delegate)", "other(1)", "source(x)"] {
        assert!(!group(src).err().unwrap().message().is_empty());
    }
}

fn from_clause(src: &str) -> (String, String) {
    match one(src) {
        Attribute::Source { clauses, .. } => {
            assert_eq!(clauses.len(), 1);
            match &clauses[0] {
                SourceClause::From { ty, expr } => (render(ty.emit()), render(expr.emit())),
                SourceClause::Flag(_) => panic!("not from"),
            }
        }
        _ => panic!("not source"),
    }
}

#[test]
fn from_type_may_hold_commas_in_angle_brackets() {
    let cases = [
        ("Result<A, B>", "f"),
        ("HashMap<K, V>", "|a| wrap(a)"),
        ("Box<dyn Fn(u8, u8) -> Vec<Vec<u8>>>", "f"),
        ("T", "a, b"),
        ("Result<A, B>", "convert::<X, Y>"),
        ("T", "|a, b| a"),
    ];
    for (ty, expr) in cases {
        let got = from_clause(&format!("source(from({}, {}))", ty, expr));
        assert_eq!(got, (render(&lex(ty)), render(&lex(expr))), "{} / {}", ty, expr);
    }
}

#[test]
fn crate_root_path_may_hold_generic_arguments() {
    match one("crate_root(a::B<C, D>)") {
        Attribute::CrateRoot { path, .. } => {
            assert_eq!(render(path.emit()), render(&lex("a::B<C, D>")))
        }
        _ => panic!("not crate_root"),
    }
}

#[test]
fn error_messages_state_the_expected_shape() {
    let cases = [
        ("foo", "expected one of: `backtrace`, `context`, `crate_root`, `display`, `other`, `source`, `visibility`"),
        ("other(true)", "`other` takes no arguments"),
        ("backtrace(delegate)", "`backtrace(delegate)` has been removed; use `backtrace` on a source field"),
        ("context(1)", "expected boolean literal"),
        ("backtrace(yes)", "expected boolean literal"),
        ("display", "expected parentheses or `=`"),
        ("display, context", "expected parentheses or `=`"),
        ("source(1)", "expected boolean literal or `from`"),
        ("context backtrace", "expected `,`"),
    ];
    for (src, msg) in cases {
        assert_eq!(group(src).err().unwrap().message(), msg, "{}", src);
    }
}
