//! Properties of the annotation language that hold of every input, proved
//! from the grammar.

use vstd::prelude::*;
use crate::attribute::{AttributeModel, ClauseModel, ErrorKind, ParseError};
use crate::collect::{AnnotationGroup, GroupOutcome, collected, group_outcome, is_named};
use crate::grammar::{
    attribute, attributes, error_at, from_args, legacy_display_args, range_of, splits_at,
};
use crate::token::{
    TokenTree, angle_depth, bool_value, group_body, is_comma, is_top_comma, is_fragment, is_fragment_list,
    is_ident_named, is_paren, is_punct_char, string_text, string_tokens,
};

verus! {

/// The words of the annotation language differ from one another in their
/// length or their first character.
pub proof fn lemma_keywords_distinct()
    ensures
        "backtrace"@.len() == 9 && "backtrace"@[0] == 'b',
        "context"@.len() == 7 && "context"@[0] == 'c',
        "crate_root"@.len() == 10 && "crate_root"@[0] == 'c',
        "display"@.len() == 7 && "display"@[0] == 'd',
        "other"@.len() == 5 && "other"@[0] == 'o',
        "source"@.len() == 6 && "source"@[0] == 's',
        "visibility"@.len() == 10 && "visibility"@[0] == 'v',
        "true"@.len() == 4 && "true"@[0] == 't',
        "false"@.len() == 5 && "false"@[0] == 'f',
        "delegate"@.len() == 8 && "delegate"@[0] == 'd',
        "from"@.len() == 4 && "from"@[0] == 'f',
        "doc"@.len() == 3 && "doc"@[0] == 'd',
        "snafu"@.len() == 5 && "snafu"@[0] == 's',
{
    reveal_strlit("backtrace");
    reveal_strlit("context");
    reveal_strlit("crate_root");
    reveal_strlit("display");
    reveal_strlit("other");
    reveal_strlit("source");
    reveal_strlit("visibility");
    reveal_strlit("true");
    reveal_strlit("false");
    reveal_strlit("delegate");
    reveal_strlit("from");
    reveal_strlit("doc");
    reveal_strlit("snafu");
}

/// A bare `backtrace` or `context` is enabled, and a bare `source` is the
/// single clause `Flag(true)`.
pub proof fn lemma_bare_keyword_defaults(ts: Seq<TokenTree>, end: proc_macro2::Span)
    requires
        ts.len() > 0,
        !(ts.len() > 1 && is_paren(ts[1])),
    ensures
        is_ident_named(ts[0], "backtrace"@) ==> attribute(ts, end) == Ok::<(AttributeModel, nat), ParseError>(
            (AttributeModel::Backtrace { span: range_of(ts, 1), enabled: true }, 1),
        ),
        is_ident_named(ts[0], "context"@) ==> attribute(ts, end) == Ok::<(AttributeModel, nat), ParseError>(
            (AttributeModel::Context { span: range_of(ts, 1), enabled: true }, 1),
        ),
        is_ident_named(ts[0], "source"@) ==> attribute(ts, end) == Ok::<(AttributeModel, nat), ParseError>(
            (
                AttributeModel::Source { span: range_of(ts, 1), clauses: seq![ClauseModel::Flag(true)] },
                1,
            ),
        ),
{
    lemma_keywords_distinct();
}

/// `backtrace(b)`, `context(b)` and `source(b)` give exactly the boolean `b`.
pub proof fn lemma_explicit_flag(ts: Seq<TokenTree>, end: proc_macro2::Span, b: bool)
    requires
        ts.len() > 1,
        is_paren(ts[1]),
        group_body(ts[1]).len() == 1,
        bool_value(group_body(ts[1])[0]) == Some(b),
    ensures
        is_ident_named(ts[0], "backtrace"@) ==> attribute(ts, end) == Ok::<(AttributeModel, nat), ParseError>(
            (AttributeModel::Backtrace { span: range_of(ts, 2), enabled: b }, 2),
        ),
        is_ident_named(ts[0], "context"@) ==> attribute(ts, end) == Ok::<(AttributeModel, nat), ParseError>(
            (AttributeModel::Context { span: range_of(ts, 2), enabled: b }, 2),
        ),
        is_ident_named(ts[0], "source"@) ==> attribute(ts, end) == Ok::<(AttributeModel, nat), ParseError>(
            (AttributeModel::Source { span: range_of(ts, 2), clauses: seq![ClauseModel::Flag(b)] }, 2),
        ),
{
    lemma_keywords_distinct();
    if is_ident_named(ts[0], "source"@) {
        assert(attribute(ts, end) == Ok::<(AttributeModel, nat), ParseError>(
            (AttributeModel::Source { span: range_of(ts, 2), clauses: seq![ClauseModel::Flag(b)] }, 2),
        ));
    }
}

/// `other` followed by anything but a comma fails with `DisallowedArgument`
/// at that token; `other` alone is accepted.
pub proof fn lemma_other_takes_no_argument(ts: Seq<TokenTree>, end: proc_macro2::Span)
    requires
        ts.len() > 0,
        is_ident_named(ts[0], "other"@),
    ensures
        ts.len() > 1 && !is_comma(ts[1]) ==> attribute(ts, end) == Err::<(AttributeModel, nat), ParseError>(
            error_at(ErrorKind::DisallowedArgument, ts[1].spec_span()),
        ),
        ts.len() == 1 ==> attribute(ts, end) == Ok::<(AttributeModel, nat), ParseError>(
            (AttributeModel::Other { span: range_of(ts, 1) }, 1),
        ),
{
    lemma_keywords_distinct();
}

/// `backtrace(delegate ...)` fails with `DeprecatedSyntax` at `delegate`,
/// never with a malformed-argument error.
pub proof fn lemma_delegate_is_deprecated(ts: Seq<TokenTree>, end: proc_macro2::Span)
    requires
        ts.len() > 1,
        is_ident_named(ts[0], "backtrace"@),
        is_paren(ts[1]),
        group_body(ts[1]).len() > 0,
        is_ident_named(group_body(ts[1])[0], "delegate"@),
    ensures
        attribute(ts, end) == Err::<(AttributeModel, nat), ParseError>(
            error_at(ErrorKind::DeprecatedSyntax, group_body(ts[1])[0].spec_span()),
        ),
{
}

/// The annotations of an item are collected without stopping at a failure:
/// the result for two runs of annotations is the two results joined.
pub proof fn lemma_collect_concat(gs: Seq<AnnotationGroup>, hs: Seq<AnnotationGroup>)
    ensures
        collected(gs + hs) == (collected(gs).0 + collected(hs).0, collected(gs).1 + collected(hs).1),
    decreases hs.len(),
{
    if hs.len() == 0 {
        assert(gs + hs =~= gs);
        assert(collected(gs).0 + collected(hs).0 =~= collected(gs).0);
        assert(collected(gs).1 + collected(hs).1 =~= collected(gs).1);
    } else {
        lemma_collect_concat(gs, hs.drop_last());
        assert((gs + hs).drop_last() =~= gs + hs.drop_last());
        assert((gs + hs).last() == hs.last());
        let (a, b) = collected(gs);
        let (c, d) = collected(hs.drop_last());
        match group_outcome(hs.last()) {
            GroupOutcome::Ignored => {},
            GroupOutcome::Parsed(ys) => {
                assert(a + c + ys =~= a + (c + ys));
            },
            GroupOutcome::Failed(e) => {
                assert((b + d).push(e) =~= b + d.push(e));
            },
        }
    }
}

/// Two failing annotations give two errors, whatever stands between them.
pub proof fn lemma_each_failure_reported(g1: AnnotationGroup, mid: Seq<AnnotationGroup>, g2: AnnotationGroup)
    requires
        group_outcome(g1) is Failed,
        group_outcome(g2) is Failed,
    ensures
        collected(seq![g1] + mid + seq![g2]).1 == seq![group_outcome(g1)->Failed_0] + collected(
            mid,
        ).1 + seq![group_outcome(g2)->Failed_0],
{
    let e1 = group_outcome(g1)->Failed_0;
    let e2 = group_outcome(g2)->Failed_0;
    assert(seq![g1].drop_last() =~= Seq::<AnnotationGroup>::empty());
    assert(seq![g2].drop_last() =~= Seq::<AnnotationGroup>::empty());
    assert(collected(Seq::<AnnotationGroup>::empty()).1 == Seq::<ParseError>::empty());
    assert(collected(seq![g1]).1 == Seq::<ParseError>::empty().push(e1));
    assert(collected(seq![g2]).1 == Seq::<ParseError>::empty().push(e2));
    lemma_collect_concat(seq![g1], mid);
    lemma_collect_concat(seq![g1] + mid, seq![g2]);
    assert(Seq::<ParseError>::empty().push(e1) =~= seq![e1]);
    assert(Seq::<ParseError>::empty().push(e2) =~= seq![e2]);
}

/// `crate_root(p)` captures exactly the tokens `p`.
pub proof fn lemma_crate_root_round_trip(ts: Seq<TokenTree>, end: proc_macro2::Span)
    requires
        ts.len() > 1,
        is_ident_named(ts[0], "crate_root"@),
        is_paren(ts[1]),
        is_fragment(group_body(ts[1])),
    ensures
        attribute(ts, end) == Ok::<(AttributeModel, nat), ParseError>(
            (AttributeModel::CrateRoot { span: range_of(ts, 2), path: group_body(ts[1]) }, 2),
        ),
{
    lemma_keywords_distinct();
}

/// `display(args)` captures exactly the tokens `args`.
pub proof fn lemma_display_round_trip(ts: Seq<TokenTree>, end: proc_macro2::Span)
    requires
        ts.len() > 1,
        is_ident_named(ts[0], "display"@),
        is_paren(ts[1]),
        is_fragment_list(group_body(ts[1])),
    ensures
        attribute(ts, end) == Ok::<(AttributeModel, nat), ParseError>(
            (AttributeModel::Display { span: range_of(ts, 2), args: group_body(ts[1]) }, 2),
        ),
{
    lemma_keywords_distinct();
}

/// The angle-bracket depth before a position depends only on the tokens
/// before it.
pub proof fn lemma_angle_depth_prefix(a: Seq<TokenTree>, x: Seq<TokenTree>, i: int)
    requires
        0 <= i <= a.len(),
    ensures
        angle_depth(a + x, i) == angle_depth(a, i),
    decreases i,
{
    if i > 0 {
        lemma_angle_depth_prefix(a, x, i - 1);
        assert((a + x)[i - 1] == a[i - 1]);
        if i > 1 {
            assert((a + x)[i - 2] == a[i - 2]);
        }
    }
}

/// The inside of `from(t, e)` is split into exactly `t` and `e` when `t` is a
/// type: no separating comma in it, and its angle brackets closed. The
/// expression `e` may hold commas of its own.
pub proof fn lemma_from_round_trip(t: Seq<TokenTree>, c: TokenTree, e: Seq<TokenTree>)
    requires
        is_comma(c),
        is_fragment(t),
        angle_depth(t, t.len() as int) == 0,
        e.len() > 0,
    ensures
        from_args(t + seq![c] + e) == Some((t, e)),
{
    let b = t + seq![c] + e;
    let k = t.len() as int;
    assert(b =~= t + (seq![c] + e));
    assert forall|j: int| 0 <= j <= k implies angle_depth(b, j) == angle_depth(t, j) by {
        lemma_angle_depth_prefix(t, seq![c] + e, j);
    }
    assert(b.subrange(0, k) =~= t);
    assert(b.subrange(k + 1, b.len() as int) =~= e);
    assert(b[k] == c);
    assert(is_top_comma(b, k));
    assert forall|j: int| 0 <= j < k implies !#[trigger] is_top_comma(b, j) by {
        assert(b[j] == t[j]);
        assert(!is_top_comma(t, j));
    }
    assert(splits_at(b, k));
    assert forall|k2: int| splits_at(b, k2) implies k2 == k by {
        if k2 < k {
            assert(!is_top_comma(b, k2));
        } else if k2 > k {
            assert(!is_top_comma(b, k));
        }
    }
}

/// `source(from(t, e))` gives the single clause `From(t, e)`, with `t` and `e`
/// exactly as written, for a type `t` as in `lemma_from_round_trip`.
pub proof fn lemma_source_from_round_trip(
    ts: Seq<TokenTree>,
    end: proc_macro2::Span,
    t: Seq<TokenTree>,
    c: TokenTree,
    e: Seq<TokenTree>,
)
    requires
        ts.len() > 1,
        is_ident_named(ts[0], "source"@),
        is_paren(ts[1]),
        group_body(ts[1]).len() == 2,
        is_ident_named(group_body(ts[1])[0], "from"@),
        is_paren(group_body(ts[1])[1]),
        group_body(group_body(ts[1])[1]) == t + seq![c] + e,
        is_comma(c),
        is_fragment(t),
        angle_depth(t, t.len() as int) == 0,
        e.len() > 0,
    ensures
        attribute(ts, end) == Ok::<(AttributeModel, nat), ParseError>(
            (AttributeModel::Source { span: range_of(ts, 2), clauses: seq![ClauseModel::From(t, e)] }, 2),
        ),
{
    lemma_keywords_distinct();
    lemma_from_round_trip(t, c, e);
}

/// `display(args)` and `display = "..."` whose string lexes to `(args)` give
/// the same arguments; a string that lexes to a fragment list that is not one
/// parenthesized group gives that list itself.
pub proof fn lemma_display_compat(ts: Seq<TokenTree>, end: proc_macro2::Span)
    requires
        ts.len() > 2,
        is_ident_named(ts[0], "display"@),
        is_punct_char(ts[1], '='),
        string_text(ts[2]).is_some(),
        string_tokens(ts[2]) matches Some(l) && is_fragment_list(l),
    ensures
        attribute(ts, end) == Ok::<(AttributeModel, nat), ParseError>(
            (
                AttributeModel::Display {
                    span: range_of(ts, 3),
                    args: legacy_display_args(string_tokens(ts[2]).unwrap()).unwrap(),
                },
                3,
            ),
        ),
        ({
            let l = string_tokens(ts[2]).unwrap();
            l.len() == 1 && is_paren(l[0]) && is_fragment_list(group_body(l[0]))
                ==> legacy_display_args(l) == Some(group_body(l[0]))
        }),
        ({
            let l = string_tokens(ts[2]).unwrap();
            !(l.len() == 1 && is_paren(l[0])) ==> legacy_display_args(l) == Some(l)
        }),
{
    lemma_keywords_distinct();
}

/// Tokens with no `visibility` keyword give no `Visibility` attribute: the
/// parser supplies no default of its own.
pub proof fn lemma_no_visibility_injected(ts: Seq<TokenTree>, end: proc_macro2::Span)
    requires
        forall|i: int| 0 <= i < ts.len() ==> !is_ident_named(#[trigger] ts[i], "visibility"@),
    ensures
        attributes(ts, end) matches Ok(xs) ==> forall|i: int|
            0 <= i < xs.len() ==> !(#[trigger] xs[i] is Visibility),
    decreases ts.len(),
{
    if ts.len() > 0 {
        assert(!is_ident_named(ts[0], "visibility"@));
    }
    if let Ok((a, n)) = attribute(ts, end) {
        if n < ts.len() && is_comma(ts[n as int]) {
            let rest = ts.subrange(n + 1 as int, ts.len() as int);
            assert forall|i: int| 0 <= i < rest.len() implies !is_ident_named(
                #[trigger] rest[i],
                "visibility"@,
            ) by {
                assert(rest[i] == ts[n + 1 + i]);
            }
            lemma_no_visibility_injected(rest, end);
        }
    }
}

/// A bare `visibility` gives no specifier, not a default one.
pub proof fn lemma_bare_visibility(ts: Seq<TokenTree>, end: proc_macro2::Span)
    requires
        ts.len() > 0,
        is_ident_named(ts[0], "visibility"@),
        !(ts.len() > 1 && (is_paren(ts[1]) || is_punct_char(ts[1], '='))),
    ensures
        attribute(ts, end) == Ok::<(AttributeModel, nat), ParseError>(
            (AttributeModel::Visibility { span: range_of(ts, 1), spec: None }, 1),
        ),
{
    lemma_keywords_distinct();
}

/// A doc annotation never adds an error: `doc = "text"` adds its text, and
/// any other shape adds nothing.
pub proof fn lemma_doc_harvest(gs: Seq<AnnotationGroup>, g: AnnotationGroup)
    requires
        is_named(g, "doc"@),
    ensures
        collected(gs.push(g)).1 == collected(gs).1,
        ({
            let ts = g.tokens@;
            if ts.len() == 2 && is_punct_char(ts[0], '=') && string_text(ts[1]).is_some() {
                collected(gs.push(g)).0 == collected(gs).0.push(
                    AttributeModel::DocComment { span: range_of(ts, 2), text: string_text(ts[1]).unwrap() },
                )
            } else {
                collected(gs.push(g)).0 == collected(gs).0
            }
        }),
{
    lemma_keywords_distinct();
    assert(gs.push(g).drop_last() =~= gs);
    let ts = g.tokens@;
    if ts.len() == 2 && is_punct_char(ts[0], '=') && string_text(ts[1]).is_some() {
        let d = AttributeModel::DocComment { span: range_of(ts, 2), text: string_text(ts[1]).unwrap() };
        assert(collected(gs).0 + seq![d] =~= collected(gs).0.push(d));
    }
}

} // verus!
