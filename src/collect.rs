//! The annotations attached to one item: `snafu(...)` groups are parsed,
//! `doc = "..."` comments are harvested, and the failures of all groups are
//! reported together.

use vstd::prelude::*;
use crate::attribute::{
    Attribute, AttributeModel, ErrorKind, Expected, ParseError, SpanRange, attributes_view,
};
use crate::grammar::{attributes, malformed, parse_group, range_of};
use crate::token::{
    TokenTree, group_body, is_paren, is_punct_char, is_string, paren_is, punct_is, string_text,
};

verus! {

/// One annotation attached to an item: its path, when that is a single
/// identifier, and the tokens that follow the path.
#[derive(Debug)]
pub struct AnnotationGroup {
    pub name: Option<String>,
    pub tokens: Vec<TokenTree>,
    pub span: proc_macro2::Span,
}

/// What one annotation contributes.
pub enum GroupOutcome {
    Ignored,
    Parsed(Seq<AttributeModel>),
    Failed(ParseError),
}

/// The annotation's path is the single identifier `n`.
pub open spec fn is_named(g: AnnotationGroup, n: Seq<char>) -> bool {
    g.name matches Some(s) && s@ == n
}

/// A `snafu(...)` annotation is parsed, and fails as a whole on its first
/// error. A `doc = "..."` comment gives its text; a doc annotation of any other
/// shape, and any other annotation, is ignored.
pub open spec fn group_outcome(g: AnnotationGroup) -> GroupOutcome {
    let ts = g.tokens@;
    if is_named(g, "snafu"@) {
        if ts.len() == 1 && is_paren(ts[0]) {
            match attributes(group_body(ts[0]), ts[0].spec_span()) {
                Ok(xs) => GroupOutcome::Parsed(xs),
                Err(e) => GroupOutcome::Failed(e),
            }
        } else {
            GroupOutcome::Failed(malformed(Expected::AttributeArguments, g.span))
        }
    } else if is_named(g, "doc"@) {
        if ts.len() == 2 && is_punct_char(ts[0], '=') && string_text(ts[1]).is_some() {
            GroupOutcome::Parsed(
                seq![AttributeModel::DocComment { span: range_of(ts, 2), text: string_text(ts[1]).unwrap() }],
            )
        } else {
            GroupOutcome::Ignored
        }
    } else {
        GroupOutcome::Ignored
    }
}

/// The attributes and the errors of a sequence of annotations, each in the
/// order of the annotations.
pub open spec fn collected(gs: Seq<AnnotationGroup>) -> (Seq<AttributeModel>, Seq<ParseError>)
    decreases gs.len(),
{
    if gs.len() == 0 {
        (Seq::empty(), Seq::empty())
    } else {
        let (xs, es) = collected(gs.drop_last());
        match group_outcome(gs.last()) {
            GroupOutcome::Ignored => (xs, es),
            GroupOutcome::Parsed(ys) => (xs + ys, es),
            GroupOutcome::Failed(e) => (xs, es.push(e)),
        }
    }
}

fn name_is(name: &Option<String>, n: &str) -> (r: bool)
    ensures
        r == (name matches Some(s) && s@ == n@),
{
    match name {
        Some(s) => {
            let k = n.to_owned();
            *s == k
        },
        None => false,
    }
}

/// Parses every annotation of one item. The result is the attributes of all
/// annotations in order when no `snafu` annotation failed, and otherwise the
/// errors of all that failed, one each, in order.
pub fn attributes_from_groups(groups: Vec<AnnotationGroup>) -> (r: Result<Vec<Attribute>, Vec<ParseError>>)
    ensures
        collected(groups@).1.len() == 0 ==> (r matches Ok(v) && attributes_view(v@) == collected(
            groups@,
        ).0),
        collected(groups@).1.len() > 0 ==> (r matches Err(es) && es@ == collected(groups@).1),
{
    let ghost gs = groups@;
    assert(gs.len() == groups.len());
    let mut rest = groups;
    let mut ours: Vec<Attribute> = Vec::new();
    let mut errs: Vec<ParseError> = Vec::new();
    let mut i: usize = 0;
    while rest.len() > 0
        invariant
            i <= gs.len(),
            gs.len() <= usize::MAX,
            rest@ == gs.subrange(i as int, gs.len() as int),
            (attributes_view(ours@), errs@) == collected(gs.subrange(0, i as int)),
        decreases rest.len(),
    {
        let g = rest.remove(0);
        assert(gs.subrange(0, i + 1 as int).drop_last() =~= gs.subrange(0, i as int));
        let ghost ours_before = ours@;
        let AnnotationGroup { name, tokens, span } = g;
        let mut tokens = tokens;
        if name_is(&name, "snafu") {
            if tokens.len() == 1 && paren_is(&tokens[0]) {
                let end = tokens[0].span();
                let body = match tokens.remove(0) {
                    TokenTree::Group { body, .. } => body,
                    _ => Vec::new(),
                };
                match parse_group(body, end) {
                    Ok(v) => {
                        let mut v = v;
                        let ghost vs = v@;
                        ours.append(&mut v);
                        assert(attributes_view(ours@) =~= attributes_view(ours_before)
                            + attributes_view(vs));
                    },
                    Err(e) => errs.push(e),
                }
            } else {
                errs.push(ParseError { kind: ErrorKind::MalformedArgument(Expected::AttributeArguments), span });
            }
        } else if name_is(&name, "doc") {
            if tokens.len() == 2 && punct_is(&tokens[0], '=') && is_string(&tokens[1]) {
                let first = tokens[0].span();
                let last = tokens[1].span();
                let text = match tokens.remove(1) {
                    TokenTree::Literal { text: Some(t), .. } => t,
                    _ => String::new(),
                };
                ours.push(Attribute::DocComment { span: SpanRange { first, last }, text });
                assert(attributes_view(ours@) =~= attributes_view(ours_before).push(ours@.last()@));
            }
        }
        i = i + 1;
    }
    assert(gs.subrange(0, i as int) =~= gs);
    if errs.len() == 0 {
        Ok(ours)
    } else {
        Err(errs)
    }
}

} // verus!
