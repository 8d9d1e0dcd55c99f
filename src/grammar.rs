//! The grammar of one annotation group, as spec functions over the remaining
//! token trees, and the parser proved to follow it.
//!
//! ```text
//! Group        := Attr (',' Attr)*
//! Attr         := 'backtrace' ('(' Bool ')')? | 'context' ('(' Bool ')')?
//!               | 'crate_root' '(' Fragment ')' | 'display' CompatArgs | 'other'
//!               | 'source' ('(' SourceClause (',' SourceClause)* ')')?
//!               | 'visibility' CompatVis?
//! SourceClause := Bool | 'from' '(' Fragment ',' Tokens ')'
//! CompatArgs   := '(' FragmentList ')' | '=' StringLit
//! CompatVis    := '(' Fragment? ')' | '=' StringLit
//! ```
//!
//! A fragment ends at a comma outside any group and any angle brackets; the
//! expression of `from(...)` is everything after its first such comma.

use vstd::prelude::*;
use crate::attribute::{
    Attribute, AttributeModel, ClauseModel, ErrorKind, Expected, Fragment, ParseError, SourceClause,
    SpanRange, attributes_view, clauses_view,
};
use crate::token::{
    TokenTree, bool_of, bool_value, contains_comma, first_top_comma, fragment_list_is, group_body,
    has_comma, has_top_comma, is_top_comma,
    ident_is, is_comma, is_fragment, is_fragment_list, is_ident_named, is_paren, is_punct_char,
    is_string, paren_is, punct_is, span_at, string_text, string_tokens,
};

verus! {

/// A failure of the given kind at `span`.
pub open spec fn error_at(kind: ErrorKind, span: proc_macro2::Span) -> ParseError {
    ParseError { kind, span }
}

/// A malformed argument at `span`.
pub open spec fn malformed(e: Expected, span: proc_macro2::Span) -> ParseError {
    ParseError { kind: ErrorKind::MalformedArgument(e), span }
}

/// The spans of the first `n` token trees.
pub open spec fn range_of(ts: Seq<TokenTree>, n: nat) -> SpanRange {
    SpanRange { first: ts[0].spec_span(), last: ts[n - 1].spec_span() }
}

/// The inside of `backtrace(...)` or `context(...)`: one boolean literal. With
/// `deprecated_guard`, a leading `delegate` is the removed form.
pub open spec fn bool_arg(body: Seq<TokenTree>, deprecated_guard: bool, end: proc_macro2::Span) -> Result<
    bool,
    ParseError,
> {
    if deprecated_guard && body.len() > 0 && is_ident_named(body[0], "delegate"@) {
        Err(error_at(ErrorKind::DeprecatedSyntax, body[0].spec_span()))
    } else if body.len() > 0 && bool_value(body[0]).is_some() {
        if body.len() == 1 {
            Ok(bool_value(body[0]).unwrap())
        } else {
            Err(malformed(Expected::End, body[1].spec_span()))
        }
    } else {
        Err(malformed(Expected::BoolLiteral, span_at(body, 0, end)))
    }
}

/// A keyword with an optional parenthesized boolean; absent means `true`.
pub open spec fn flag_attr(ts: Seq<TokenTree>, deprecated_guard: bool) -> Result<(bool, nat), ParseError> {
    if ts.len() > 1 && is_paren(ts[1]) {
        match bool_arg(group_body(ts[1]), deprecated_guard, ts[1].spec_span()) {
            Ok(b) => Ok((b, 2)),
            Err(e) => Err(e),
        }
    } else {
        Ok((true, 1))
    }
}

/// `crate_root(...)`: one fragment, in parentheses only.
pub open spec fn crate_root_attr(ts: Seq<TokenTree>, end: proc_macro2::Span) -> Result<(Seq<TokenTree>, nat), ParseError> {
    if ts.len() > 1 && is_paren(ts[1]) {
        if is_fragment(group_body(ts[1])) {
            Ok((group_body(ts[1]), 2))
        } else {
            Err(malformed(Expected::Fragment, ts[1].spec_span()))
        }
    } else {
        Err(malformed(Expected::Parenthesized, span_at(ts, 1, end)))
    }
}

/// What the legacy string of `display = "..."` gives: first its tokens read as
/// one parenthesized fragment list, and only failing that, its tokens read as
/// the fragment list itself.
pub open spec fn legacy_display_args(l: Seq<TokenTree>) -> Option<Seq<TokenTree>> {
    if l.len() == 1 && is_paren(l[0]) && is_fragment_list(group_body(l[0])) {
        Some(group_body(l[0]))
    } else if is_fragment_list(l) {
        Some(l)
    } else {
        None
    }
}

/// `display(...)` or `display = "..."`.
pub open spec fn display_attr(ts: Seq<TokenTree>, end: proc_macro2::Span) -> Result<(Seq<TokenTree>, nat), ParseError> {
    if ts.len() > 1 && is_paren(ts[1]) {
        if is_fragment_list(group_body(ts[1])) {
            Ok((group_body(ts[1]), 2))
        } else {
            Err(malformed(Expected::FragmentList, ts[1].spec_span()))
        }
    } else if ts.len() > 1 && is_punct_char(ts[1], '=') {
        if ts.len() > 2 && string_text(ts[2]).is_some() {
            match string_tokens(ts[2]) {
                Some(l) => match legacy_display_args(l) {
                    Some(a) => Ok((a, 3)),
                    None => Err(malformed(Expected::FragmentList, ts[2].spec_span())),
                },
                None => Err(malformed(Expected::FragmentList, ts[2].spec_span())),
            }
        } else {
            Err(malformed(Expected::StringLiteral, span_at(ts, 2, end)))
        }
    } else {
        Err(malformed(Expected::ParenthesizedOrString, span_at(ts, 1, end)))
    }
}

/// `visibility`, `visibility(...)` or `visibility = "..."`. The specifier may be
/// empty (the private visibility, written out); absent, it is `None`.
pub open spec fn visibility_attr(ts: Seq<TokenTree>, end: proc_macro2::Span) -> Result<(Option<Seq<TokenTree>>, nat), ParseError> {
    if ts.len() > 1 && is_paren(ts[1]) {
        if !has_comma(group_body(ts[1])) {
            Ok((Some(group_body(ts[1])), 2))
        } else {
            Err(malformed(Expected::Fragment, ts[1].spec_span()))
        }
    } else if ts.len() > 1 && is_punct_char(ts[1], '=') {
        if ts.len() > 2 && string_text(ts[2]).is_some() {
            match string_tokens(ts[2]) {
                Some(l) => if !has_comma(l) {
                    Ok((Some(l), 3))
                } else {
                    Err(malformed(Expected::Fragment, ts[2].spec_span()))
                },
                None => Err(malformed(Expected::Fragment, ts[2].spec_span())),
            }
        } else {
            Err(malformed(Expected::StringLiteral, span_at(ts, 2, end)))
        }
    } else {
        Ok((None, 1))
    }
}

/// The comma at `k` splits `b` into a type and an expression: it is the first
/// separating comma, and neither side is empty. The expression is all that
/// follows it.
pub open spec fn splits_at(b: Seq<TokenTree>, k: int) -> bool {
    &&& 0 < k < b.len() - 1
    &&& is_top_comma(b, k)
    &&& forall|j: int| 0 <= j < k ==> !#[trigger] is_top_comma(b, j)
}

/// The inside of `from(...)`: a type fragment and an expression fragment.
pub open spec fn from_args(b: Seq<TokenTree>) -> Option<(Seq<TokenTree>, Seq<TokenTree>)> {
    if exists|k: int| splits_at(b, k) {
        let k = choose|k: int| splits_at(b, k);
        Some((b.subrange(0, k), b.subrange(k + 1, b.len() as int)))
    } else {
        None
    }
}

/// One clause of `source(...)`.
pub open spec fn clause(ts: Seq<TokenTree>, end: proc_macro2::Span) -> Result<(ClauseModel, nat), ParseError> {
    if ts.len() > 0 && bool_value(ts[0]).is_some() {
        Ok((ClauseModel::Flag(bool_value(ts[0]).unwrap()), 1))
    } else if ts.len() > 0 && is_ident_named(ts[0], "from"@) {
        if ts.len() > 1 && is_paren(ts[1]) {
            match from_args(group_body(ts[1])) {
                Some((t, e)) => Ok((ClauseModel::From(t, e), 2)),
                None => Err(malformed(Expected::TypeAndExpression, ts[1].spec_span())),
            }
        } else {
            Err(malformed(Expected::Parenthesized, span_at(ts, 1, end)))
        }
    } else {
        Err(malformed(Expected::BoolOrFrom, span_at(ts, 0, end)))
    }
}

/// The clauses of `source(...)`, separated by commas.
pub open spec fn clauses(ts: Seq<TokenTree>, end: proc_macro2::Span) -> Result<Seq<ClauseModel>, ParseError>
    decreases ts.len(),
{
    match clause(ts, end) {
        Err(e) => Err(e),
        Ok((c, n)) => if n >= ts.len() {
            Ok(seq![c])
        } else if is_comma(ts[n as int]) {
            match clauses(ts.subrange(n + 1 as int, ts.len() as int), end) {
                Ok(cs) => Ok(seq![c] + cs),
                Err(e) => Err(e),
            }
        } else {
            Err(malformed(Expected::Comma, ts[n as int].spec_span()))
        },
    }
}

/// One attribute, dispatched on its leading keyword, and how many token trees
/// it takes.
pub open spec fn attribute(ts: Seq<TokenTree>, end: proc_macro2::Span) -> Result<(AttributeModel, nat), ParseError> {
    if ts.len() == 0 {
        Err(error_at(ErrorKind::UnrecognizedKeyword, end))
    } else if is_ident_named(ts[0], "backtrace"@) {
        match flag_attr(ts, true) {
            Ok((b, n)) => Ok((AttributeModel::Backtrace { span: range_of(ts, n), enabled: b }, n)),
            Err(e) => Err(e),
        }
    } else if is_ident_named(ts[0], "context"@) {
        match flag_attr(ts, false) {
            Ok((b, n)) => Ok((AttributeModel::Context { span: range_of(ts, n), enabled: b }, n)),
            Err(e) => Err(e),
        }
    } else if is_ident_named(ts[0], "crate_root"@) {
        match crate_root_attr(ts, end) {
            Ok((p, n)) => Ok((AttributeModel::CrateRoot { span: range_of(ts, n), path: p }, n)),
            Err(e) => Err(e),
        }
    } else if is_ident_named(ts[0], "display"@) {
        match display_attr(ts, end) {
            Ok((a, n)) => Ok((AttributeModel::Display { span: range_of(ts, n), args: a }, n)),
            Err(e) => Err(e),
        }
    } else if is_ident_named(ts[0], "other"@) {
        if ts.len() > 1 && !is_comma(ts[1]) {
            Err(error_at(ErrorKind::DisallowedArgument, ts[1].spec_span()))
        } else {
            Ok((AttributeModel::Other { span: range_of(ts, 1) }, 1))
        }
    } else if is_ident_named(ts[0], "source"@) {
        if ts.len() > 1 && is_paren(ts[1]) {
            match clauses(group_body(ts[1]), ts[1].spec_span()) {
                Ok(cs) => Ok((AttributeModel::Source { span: range_of(ts, 2), clauses: cs }, 2)),
                Err(e) => Err(e),
            }
        } else {
            Ok(
                (
                    AttributeModel::Source {
                        span: range_of(ts, 1),
                        clauses: seq![ClauseModel::Flag(true)],
                    },
                    1,
                ),
            )
        }
    } else if is_ident_named(ts[0], "visibility"@) {
        match visibility_attr(ts, end) {
            Ok((v, n)) => Ok((AttributeModel::Visibility { span: range_of(ts, n), spec: v }, n)),
            Err(e) => Err(e),
        }
    } else {
        Err(error_at(ErrorKind::UnrecognizedKeyword, ts[0].spec_span()))
    }
}

/// The attributes of one group, separated by commas; `end` is the span at
/// which a missing attribute is reported.
pub open spec fn attributes(ts: Seq<TokenTree>, end: proc_macro2::Span) -> Result<Seq<AttributeModel>, ParseError>
    decreases ts.len(),
{
    match attribute(ts, end) {
        Err(e) => Err(e),
        Ok((a, n)) => if n >= ts.len() {
            Ok(seq![a])
        } else if is_comma(ts[n as int]) {
            match attributes(ts.subrange(n + 1 as int, ts.len() as int), end) {
                Ok(xs) => Ok(seq![a] + xs),
                Err(e) => Err(e),
            }
        } else {
            Err(malformed(Expected::Comma, ts[n as int].spec_span()))
        },
    }
}

/// `new` is `old` after its first `n` token trees were taken.
pub open spec fn took(old: Seq<TokenTree>, new: Seq<TokenTree>, n: nat) -> bool {
    1 <= n <= old.len() && new == old.subrange(n as int, old.len() as int)
}

fn drop_front(rest: &mut Vec<TokenTree>, n: usize)
    requires
        n <= old(rest).len(),
    ensures
        final(rest)@ == old(rest)@.subrange(n as int, old(rest)@.len() as int),
{
    let mut i: usize = 0;
    while i < n
        invariant
            i <= n,
            n <= old(rest).len(),
            rest@ == old(rest)@.subrange(i as int, old(rest)@.len() as int),
        decreases n - i,
    {
        rest.remove(0);
        i = i + 1;
        assert(rest@ =~= old(rest)@.subrange(i as int, old(rest)@.len() as int));
    }
}

/// Takes a keyword and the group after it, and gives the group's tokens.
fn take_group_after_keyword(rest: &mut Vec<TokenTree>) -> (r: Vec<TokenTree>)
    requires
        old(rest).len() > 1,
    ensures
        r@ == group_body(old(rest)@[1]),
        final(rest)@ == old(rest)@.subrange(2, old(rest)@.len() as int),
{
    drop_front(rest, 1);
    let t = rest.remove(0);
    assert(rest@ =~= old(rest)@.subrange(2, old(rest)@.len() as int));
    match t {
        TokenTree::Group { body, .. } => body,
        _ => Vec::new(),
    }
}

/// Takes a keyword, `=` and a string literal, and gives what the string lexes to.
fn take_string_after_eq(rest: &mut Vec<TokenTree>) -> (r: Vec<TokenTree>)
    requires
        old(rest).len() > 2,
        string_tokens(old(rest)@[2]).is_some(),
    ensures
        r@ == string_tokens(old(rest)@[2]).unwrap(),
        final(rest)@ == old(rest)@.subrange(3, old(rest)@.len() as int),
{
    drop_front(rest, 2);
    let t = rest.remove(0);
    assert(rest@ =~= old(rest)@.subrange(3, old(rest)@.len() as int));
    match t {
        TokenTree::Literal { lexed: Some(l), .. } => l,
        _ => Vec::new(),
    }
}

fn has_string_tokens(t: &TokenTree) -> (r: bool)
    ensures
        r == string_tokens(*t).is_some(),
{
    match t {
        TokenTree::Literal { text: Some(_), lexed: Some(_), .. } => true,
        _ => false,
    }
}

fn span_or(ts: &Vec<TokenTree>, i: usize, end: proc_macro2::Span) -> (r: proc_macro2::Span)
    ensures
        r == span_at(ts@, i as int, end),
{
    if i < ts.len() {
        ts[i].span()
    } else {
        end
    }
}

fn malformed_at(e: Expected, span: proc_macro2::Span) -> (r: ParseError)
    ensures
        r == malformed(e, span),
{
    ParseError { kind: ErrorKind::MalformedArgument(e), span }
}

fn bool_argument(body: &Vec<TokenTree>, deprecated_guard: bool, end: proc_macro2::Span) -> (r: Result<
    bool,
    ParseError,
>)
    ensures
        r == bool_arg(body@, deprecated_guard, end),
{
    if deprecated_guard && body.len() > 0 && ident_is(&body[0], "delegate") {
        return Err(ParseError { kind: ErrorKind::DeprecatedSyntax, span: body[0].span() });
    }
    if body.len() > 0 {
        if let Some(b) = bool_of(&body[0]) {
            if body.len() == 1 {
                return Ok(b);
            }
            return Err(malformed_at(Expected::End, body[1].span()));
        }
    }
    Err(malformed_at(Expected::BoolLiteral, span_or(body, 0, end)))
}

fn flag_attribute(rest: &mut Vec<TokenTree>, deprecated_guard: bool) -> (r: Result<(bool, SpanRange), ParseError>)
    requires
        old(rest).len() > 0,
    ensures
        match flag_attr(old(rest)@, deprecated_guard) {
            Ok((b, n)) => r == Ok::<(bool, SpanRange), ParseError>((b, range_of(old(rest)@, n)))
                && took(old(rest)@, final(rest)@, n),
            Err(e) => r == Err::<(bool, SpanRange), ParseError>(e),
        },
{
    let first = rest[0].span();
    if rest.len() > 1 && paren_is(&rest[1]) {
        let last = rest[1].span();
        let b = match &rest[1] {
            TokenTree::Group { body, .. } => bool_argument(body, deprecated_guard, last),
            _ => Ok(true),
        };
        match b {
            Ok(v) => {
                drop_front(rest, 2);
                Ok((v, SpanRange { first, last }))
            },
            Err(e) => Err(e),
        }
    } else {
        drop_front(rest, 1);
        Ok((true, SpanRange { first, last: first }))
    }
}

fn crate_root_attribute(rest: &mut Vec<TokenTree>, end: proc_macro2::Span) -> (r: Result<(Fragment, SpanRange), ParseError>)
    requires
        old(rest).len() > 0,
    ensures
        match crate_root_attr(old(rest)@, end) {
            Ok((p, n)) => r matches Ok((f, s)) && f@ == p && s == range_of(old(rest)@, n)
                && took(old(rest)@, final(rest)@, n),
            Err(e) => r matches Err(x) && x == e,
        },
{
    let first = rest[0].span();
    if rest.len() > 1 && paren_is(&rest[1]) {
        let last = rest[1].span();
        let ok = match &rest[1] {
            TokenTree::Group { body, .. } => body.len() > 0 && match first_top_comma(body) {
                Some(_) => false,
                None => true,
            },
            _ => false,
        };
        if ok {
            let body = take_group_after_keyword(rest);
            Ok((Fragment { tokens: body }, SpanRange { first, last }))
        } else {
            Err(malformed_at(Expected::Fragment, last))
        }
    } else {
        Err(malformed_at(Expected::Parenthesized, span_or(rest, 1, end)))
    }
}

fn display_attribute(rest: &mut Vec<TokenTree>, end: proc_macro2::Span) -> (r: Result<(Fragment, SpanRange), ParseError>)
    requires
        old(rest).len() > 0,
    ensures
        match display_attr(old(rest)@, end) {
            Ok((a, n)) => r matches Ok((f, s)) && f@ == a && s == range_of(old(rest)@, n)
                && took(old(rest)@, final(rest)@, n),
            Err(e) => r matches Err(x) && x == e,
        },
{
    let first = rest[0].span();
    if rest.len() > 1 && paren_is(&rest[1]) {
        let last = rest[1].span();
        let ok = match &rest[1] {
            TokenTree::Group { body, .. } => fragment_list_is(body),
            _ => false,
        };
        if ok {
            let body = take_group_after_keyword(rest);
            Ok((Fragment { tokens: body }, SpanRange { first, last }))
        } else {
            Err(malformed_at(Expected::FragmentList, last))
        }
    } else if rest.len() > 1 && punct_is(&rest[1], '=') {
        if rest.len() > 2 && is_string(&rest[2]) {
            let last = rest[2].span();
            if !has_string_tokens(&rest[2]) {
                return Err(malformed_at(Expected::FragmentList, last));
            }
            let mut l = take_string_after_eq(rest);
            let nested = l.len() == 1 && paren_is(&l[0]) && match &l[0] {
                TokenTree::Group { body, .. } => fragment_list_is(body),
                _ => false,
            };
            if nested {
                let inner = match l.remove(0) {
                    TokenTree::Group { body, .. } => body,
                    _ => Vec::new(),
                };
                Ok((Fragment { tokens: inner }, SpanRange { first, last }))
            } else if fragment_list_is(&l) {
                Ok((Fragment { tokens: l }, SpanRange { first, last }))
            } else {
                Err(malformed_at(Expected::FragmentList, last))
            }
        } else {
            Err(malformed_at(Expected::StringLiteral, span_or(rest, 2, end)))
        }
    } else {
        Err(malformed_at(Expected::ParenthesizedOrString, span_or(rest, 1, end)))
    }
}

fn visibility_attribute(rest: &mut Vec<TokenTree>, end: proc_macro2::Span) -> (r: Result<(Option<Fragment>, SpanRange), ParseError>)
    requires
        old(rest).len() > 0,
    ensures
        match visibility_attr(old(rest)@, end) {
            Ok((v, n)) => r matches Ok((f, s)) && s == range_of(old(rest)@, n)
                && took(old(rest)@, final(rest)@, n) && match (f, v) {
                (Some(x), Some(y)) => x@ == y,
                (None, None) => true,
                _ => false,
            },
            Err(e) => r matches Err(x) && x == e,
        },
{
    let first = rest[0].span();
    if rest.len() > 1 && paren_is(&rest[1]) {
        let last = rest[1].span();
        let ok = match &rest[1] {
            TokenTree::Group { body, .. } => !contains_comma(body),
            _ => false,
        };
        if ok {
            let body = take_group_after_keyword(rest);
            Ok((Some(Fragment { tokens: body }), SpanRange { first, last }))
        } else {
            Err(malformed_at(Expected::Fragment, last))
        }
    } else if rest.len() > 1 && punct_is(&rest[1], '=') {
        if rest.len() > 2 && is_string(&rest[2]) {
            let last = rest[2].span();
            if !has_string_tokens(&rest[2]) {
                return Err(malformed_at(Expected::Fragment, last));
            }
            let l = take_string_after_eq(rest);
            if !contains_comma(&l) {
                Ok((Some(Fragment { tokens: l }), SpanRange { first, last }))
            } else {
                Err(malformed_at(Expected::Fragment, last))
            }
        } else {
            Err(malformed_at(Expected::StringLiteral, span_or(rest, 2, end)))
        }
    } else {
        drop_front(rest, 1);
        Ok((None, SpanRange { first, last: first }))
    }
}

/// A result with `front` put before the sequence it holds, if it holds one.
pub open spec fn prepend<T>(front: Seq<T>, r: Result<Seq<T>, ParseError>) -> Result<Seq<T>, ParseError> {
    match r {
        Ok(xs) => Ok(front + xs),
        Err(e) => Err(e),
    }
}

proof fn lemma_prepend_push<T>(front: Seq<T>, x: T, r: Result<Seq<T>, ParseError>)
    ensures
        prepend(front, prepend(seq![x], r)) == prepend(front.push(x), r),
{
    if let Ok(xs) = r {
        assert(front + (seq![x] + xs) =~= front.push(x) + xs);
    }
}

/// The first separating comma of `b` is at `k`: the inside of `from(...)`
/// splits there or nowhere.
proof fn lemma_from_first_comma(b: Seq<TokenTree>, k: int)
    requires
        0 <= k < b.len(),
        is_top_comma(b, k),
        forall|j: int| 0 <= j < k ==> !#[trigger] is_top_comma(b, j),
    ensures
        from_args(b) == if 0 < k < b.len() - 1 {
            Some((b.subrange(0, k), b.subrange(k + 1, b.len() as int)))
        } else {
            None::<(Seq<TokenTree>, Seq<TokenTree>)>
        },
{
    assert forall|k2: int| splits_at(b, k2) implies k2 == k by {
        if k2 < k {
            assert(!is_top_comma(b, k2));
        } else if k2 > k {
            assert(!is_top_comma(b, k));
        }
    }
    if 0 < k < b.len() - 1 {
        assert(splits_at(b, k));
    }
}

proof fn lemma_from_no_comma(b: Seq<TokenTree>)
    requires
        !has_top_comma(b),
    ensures
        from_args(b) is None,
{
    assert forall|k: int| !splits_at(b, k) by {
        if 0 <= k < b.len() {
            assert(!is_top_comma(b, k));
        }
    }
}

/// Parses one clause of `source(...)`.
fn source_clause(rest: &mut Vec<TokenTree>, end: proc_macro2::Span) -> (r: Result<SourceClause, ParseError>)
    ensures
        match clause(old(rest)@, end) {
            Ok((c, n)) => r matches Ok(x) && x@ == c && took(old(rest)@, final(rest)@, n),
            Err(e) => r matches Err(x) && x == e,
        },
{
    if rest.len() > 0 {
        if let Some(b) = bool_of(&rest[0]) {
            drop_front(rest, 1);
            return Ok(SourceClause::Flag(b));
        }
    }
    if rest.len() > 0 && ident_is(&rest[0], "from") {
        if rest.len() > 1 && paren_is(&rest[1]) {
            let gspan = rest[1].span();
            let mut body = take_group_after_keyword(rest);
            let ghost b = body@;
            match first_top_comma(&body) {
                None => {
                    proof {
                        lemma_from_no_comma(b);
                    }
                    Err(malformed_at(Expected::TypeAndExpression, gspan))
                },
                Some(k) => {
                    proof {
                        lemma_from_first_comma(b, k as int);
                    }
                    if k == 0 || k + 1 >= body.len() {
                        return Err(malformed_at(Expected::TypeAndExpression, gspan));
                    }
                    let expr = body.split_off(k + 1);
                    body.pop();
                    assert(body@ =~= b.subrange(0, k as int));
                    Ok(SourceClause::From { ty: Fragment { tokens: body }, expr: Fragment { tokens: expr } })
                },
            }
        } else {
            Err(malformed_at(Expected::Parenthesized, span_or(rest, 1, end)))
        }
    } else {
        Err(malformed_at(Expected::BoolOrFrom, span_or(rest, 0, end)))
    }
}

/// Parses the inside of `source(...)`; `end` is the span of the parentheses.
fn source_clauses(tokens: Vec<TokenTree>, end: proc_macro2::Span) -> (r: Result<Vec<SourceClause>, ParseError>)
    ensures
        match clauses(tokens@, end) {
            Ok(cs) => r matches Ok(v) && clauses_view(v@) == cs,
            Err(e) => r matches Err(x) && x == e,
        },
{
    let mut rest = tokens;
    let mut acc: Vec<SourceClause> = Vec::new();
    loop
        invariant
            clauses(tokens@, end) == prepend(clauses_view(acc@), clauses(rest@, end)),
        decreases rest.len(),
    {
        let ghost before = rest@;
        let ghost acc_before = acc@;
        let c = match source_clause(&mut rest, end) {
            Ok(c) => c,
            Err(e) => return Err(e),
        };
        acc.push(c);
        assert(clauses_view(acc@) =~= clauses_view(acc_before).push(c@));
        if rest.len() == 0 {
            assert(clauses_view(acc_before) + seq![c@] =~= clauses_view(acc@));
            return Ok(acc);
        }
        if !punct_is(&rest[0], ',') {
            return Err(malformed_at(Expected::Comma, rest[0].span()));
        }
        let ghost n = (before.len() - rest@.len()) as nat;
        drop_front(&mut rest, 1);
        assert(rest@ =~= before.subrange(n + 1 as int, before.len() as int));
        proof {
            lemma_prepend_push(clauses_view(acc_before), c@, clauses(rest@, end));
        }
    }
}

/// Parses one attribute, dispatched on its leading keyword.
fn parse_attribute(rest: &mut Vec<TokenTree>, end: proc_macro2::Span) -> (r: Result<Attribute, ParseError>)
    ensures
        match attribute(old(rest)@, end) {
            Ok((a, n)) => r matches Ok(x) && x@ == a && took(old(rest)@, final(rest)@, n),
            Err(e) => r matches Err(x) && x == e,
        },
{
    if rest.len() == 0 {
        return Err(ParseError { kind: ErrorKind::UnrecognizedKeyword, span: end });
    }
    if ident_is(&rest[0], "backtrace") {
        match flag_attribute(rest, true) {
            Ok((b, s)) => Ok(Attribute::Backtrace { span: s, enabled: b }),
            Err(e) => Err(e),
        }
    } else if ident_is(&rest[0], "context") {
        match flag_attribute(rest, false) {
            Ok((b, s)) => Ok(Attribute::Context { span: s, enabled: b }),
            Err(e) => Err(e),
        }
    } else if ident_is(&rest[0], "crate_root") {
        match crate_root_attribute(rest, end) {
            Ok((p, s)) => Ok(Attribute::CrateRoot { span: s, path: p }),
            Err(e) => Err(e),
        }
    } else if ident_is(&rest[0], "display") {
        match display_attribute(rest, end) {
            Ok((a, s)) => Ok(Attribute::Display { span: s, args: a }),
            Err(e) => Err(e),
        }
    } else if ident_is(&rest[0], "other") {
        if rest.len() > 1 && !punct_is(&rest[1], ',') {
            Err(ParseError { kind: ErrorKind::DisallowedArgument, span: rest[1].span() })
        } else {
            let first = rest[0].span();
            drop_front(rest, 1);
            Ok(Attribute::Other { span: SpanRange { first, last: first } })
        }
    } else if ident_is(&rest[0], "source") {
        let first = rest[0].span();
        if rest.len() > 1 && paren_is(&rest[1]) {
            let last = rest[1].span();
            let body = take_group_after_keyword(rest);
            match source_clauses(body, last) {
                Ok(cs) => Ok(Attribute::Source { span: SpanRange { first, last }, clauses: cs }),
                Err(e) => Err(e),
            }
        } else {
            drop_front(rest, 1);
            let mut cs: Vec<SourceClause> = Vec::new();
            cs.push(SourceClause::Flag(true));
            assert(clauses_view(cs@) =~= seq![ClauseModel::Flag(true)]);
            Ok(Attribute::Source { span: SpanRange { first, last: first }, clauses: cs })
        }
    } else if ident_is(&rest[0], "visibility") {
        match visibility_attribute(rest, end) {
            Ok((v, s)) => Ok(Attribute::Visibility { span: s, spec: v }),
            Err(e) => Err(e),
        }
    } else {
        Err(ParseError { kind: ErrorKind::UnrecognizedKeyword, span: rest[0].span() })
    }
}

/// Parses the inside of one annotation group: attributes separated by commas.
/// `end` is the span at which a missing attribute is reported, that of the
/// group's parentheses.
pub fn parse_group(tokens: Vec<TokenTree>, end: proc_macro2::Span) -> (r: Result<Vec<Attribute>, ParseError>)
    ensures
        match attributes(tokens@, end) {
            Ok(xs) => r matches Ok(v) && attributes_view(v@) == xs,
            Err(e) => r matches Err(x) && x == e,
        },
{
    let mut rest = tokens;
    let mut acc: Vec<Attribute> = Vec::new();
    loop
        invariant
            attributes(tokens@, end) == prepend(attributes_view(acc@), attributes(rest@, end)),
        decreases rest.len(),
    {
        let ghost before = rest@;
        let ghost acc_before = acc@;
        let a = match parse_attribute(&mut rest, end) {
            Ok(a) => a,
            Err(e) => return Err(e),
        };
        acc.push(a);
        assert(attributes_view(acc@) =~= attributes_view(acc_before).push(a@));
        if rest.len() == 0 {
            assert(attributes_view(acc_before) + seq![a@] =~= attributes_view(acc@));
            return Ok(acc);
        }
        if !punct_is(&rest[0], ',') {
            return Err(malformed_at(Expected::Comma, rest[0].span()));
        }
        let ghost n = (before.len() - rest@.len()) as nat;
        drop_front(&mut rest, 1);
        assert(rest@ =~= before.subrange(n + 1 as int, before.len() as int));
        proof {
            lemma_prepend_push(attributes_view(acc_before), a@, attributes(rest@, end));
        }
    }
}

} // verus!
