//! A plain model of the token trees that the annotation language is written in,
//! with the predicates that the grammar reads off them.

use vstd::prelude::*;

verus! {

/// Relies on `proc_macro2::Span`: a source location, carried through unread.
#[verifier::external_type_specification]
#[verifier::external_body]
pub struct ExSpan(proc_macro2::Span);

/// The delimiter around a group of tokens.
#[derive(Clone, Copy, Debug, PartialEq, Eq, Structural)]
pub enum Delimiter {
    Parenthesis,
    Brace,
    Bracket,
    Invisible,
}

/// Whether a punctuation character is immediately followed by another one.
#[derive(Clone, Copy, Debug, PartialEq, Eq, Structural)]
pub enum Spacing {
    Alone,
    Joint,
}

/// One token tree, as the host language's lexer produced it.
///
/// A literal carries its source text. A string literal also carries its value
/// (`text`) and, when that value lexes, the token trees it lexes to (`lexed`),
/// both as the lexer computed them.
#[derive(Debug)]
pub enum TokenTree {
    Group { delimiter: Delimiter, body: Vec<TokenTree>, span: proc_macro2::Span },
    Ident { name: String, span: proc_macro2::Span },
    Punct { ch: char, spacing: Spacing, span: proc_macro2::Span },
    Literal {
        repr: String,
        text: Option<String>,
        lexed: Option<Vec<TokenTree>>,
        span: proc_macro2::Span,
    },
}

impl TokenTree {
    /// The source location of this token tree.
    pub open spec fn spec_span(self) -> proc_macro2::Span {
        match self {
            TokenTree::Group { span, .. } => span,
            TokenTree::Ident { span, .. } => span,
            TokenTree::Punct { span, .. } => span,
            TokenTree::Literal { span, .. } => span,
        }
    }

    /// The source location of this token tree.
    pub fn span(&self) -> (r: proc_macro2::Span)
        ensures
            r == self.spec_span(),
    {
        match self {
            TokenTree::Group { span, .. } => *span,
            TokenTree::Ident { span, .. } => *span,
            TokenTree::Punct { span, .. } => *span,
            TokenTree::Literal { span, .. } => *span,
        }
    }
}

/// The span of the token at `i`, or `end` when the sequence stops before it.
pub open spec fn span_at(ts: Seq<TokenTree>, i: int, end: proc_macro2::Span) -> proc_macro2::Span {
    if 0 <= i < ts.len() {
        ts[i].spec_span()
    } else {
        end
    }
}

/// The token is the identifier `kw`.
pub open spec fn is_ident_named(t: TokenTree, kw: Seq<char>) -> bool {
    match t {
        TokenTree::Ident { name, .. } => name@ == kw,
        _ => false,
    }
}

/// The token is the punctuation character `c`.
pub open spec fn is_punct_char(t: TokenTree, c: char) -> bool {
    match t {
        TokenTree::Punct { ch, .. } => ch == c,
        _ => false,
    }
}

pub open spec fn is_comma(t: TokenTree) -> bool {
    is_punct_char(t, ',')
}

/// The token is a group in parentheses.
pub open spec fn is_paren(t: TokenTree) -> bool {
    match t {
        TokenTree::Group { delimiter, .. } => delimiter == Delimiter::Parenthesis,
        _ => false,
    }
}

/// The tokens inside a group (empty for any other token).
pub open spec fn group_body(t: TokenTree) -> Seq<TokenTree> {
    match t {
        TokenTree::Group { body, .. } => body@,
        _ => Seq::empty(),
    }
}

/// The value of a boolean literal, which the lexer gives as the identifier
/// `true` or `false`.
pub open spec fn bool_value(t: TokenTree) -> Option<bool> {
    if is_ident_named(t, "true"@) {
        Some(true)
    } else if is_ident_named(t, "false"@) {
        Some(false)
    } else {
        None
    }
}

/// The value of a string literal.
pub open spec fn string_text(t: TokenTree) -> Option<Seq<char>> {
    match t {
        TokenTree::Literal { text: Some(s), .. } => Some(s@),
        _ => None,
    }
}

/// The token trees that a string literal's value lexes to.
pub open spec fn string_tokens(t: TokenTree) -> Option<Seq<TokenTree>> {
    match t {
        TokenTree::Literal { text: Some(_), lexed: Some(l), .. } => Some(l@),
        _ => None,
    }
}

/// Some token of the sequence, at its own level, is a comma.
pub open spec fn has_comma(s: Seq<TokenTree>) -> bool {
    exists|i: int| 0 <= i < s.len() && #[trigger] is_comma(s[i])
}

/// The token is the punctuation character `c`, joined to the next one.
pub open spec fn is_joint_punct(t: TokenTree, c: char) -> bool {
    match t {
        TokenTree::Punct { ch, spacing, .. } => ch == c && spacing == Spacing::Joint,
        _ => false,
    }
}

/// The `>` at `i` closes an angle bracket: it is not the head of an arrow `->`.
pub open spec fn closes_angle(s: Seq<TokenTree>, i: int) -> bool {
    is_punct_char(s[i], '>') && !(i > 0 && is_joint_punct(s[i - 1], '-'))
}

/// How many angle brackets are open before the token at `i`, at the
/// sequence's own level (a `>` with none open is ignored).
pub open spec fn angle_depth(s: Seq<TokenTree>, i: int) -> nat
    decreases i,
{
    if i <= 0 {
        0
    } else {
        let d = angle_depth(s, i - 1);
        if is_punct_char(s[i - 1], '<') {
            d + 1
        } else if closes_angle(s, i - 1) {
            if d > 0 {
                (d - 1) as nat
            } else {
                0
            }
        } else {
            d
        }
    }
}

/// The token at `i` is a comma outside any group and any angle brackets: one
/// that separates fragments.
pub open spec fn is_top_comma(s: Seq<TokenTree>, i: int) -> bool {
    is_comma(s[i]) && angle_depth(s, i) == 0
}

pub open spec fn has_top_comma(s: Seq<TokenTree>) -> bool {
    exists|i: int| 0 <= i < s.len() && #[trigger] is_top_comma(s, i)
}

/// An opaque fragment: a nonempty run of token trees with no separating
/// comma (commas inside a group or inside angle brackets belong to them).
pub open spec fn is_fragment(s: Seq<TokenTree>) -> bool {
    s.len() > 0 && !has_top_comma(s)
}

/// One or more fragments separated by single commas.
pub open spec fn is_fragment_list(s: Seq<TokenTree>) -> bool {
    &&& s.len() > 0
    &&& forall|i: int|
        0 <= i < s.len() && #[trigger] is_comma(s[i]) ==> 0 < i && i + 1 < s.len() && !is_comma(
            s[i + 1],
        )
}

/// Whether the token is the identifier `kw`.
pub fn ident_is(t: &TokenTree, kw: &str) -> (r: bool)
    ensures
        r == is_ident_named(*t, kw@),
{
    match t {
        TokenTree::Ident { name, .. } => {
            let k = kw.to_owned();
            *name == k
        },
        _ => false,
    }
}

/// Whether the token is the punctuation character `c`.
pub fn punct_is(t: &TokenTree, c: char) -> (r: bool)
    ensures
        r == is_punct_char(*t, c),
{
    match t {
        TokenTree::Punct { ch, .. } => *ch == c,
        _ => false,
    }
}

/// Whether the token is the punctuation character `c`, joined to the next one.
pub fn joint_punct_is(t: &TokenTree, c: char) -> (r: bool)
    ensures
        r == is_joint_punct(*t, c),
{
    match t {
        TokenTree::Punct { ch, spacing, .. } => *ch == c && *spacing == Spacing::Joint,
        _ => false,
    }
}

/// Whether the token is a group in parentheses.
pub fn paren_is(t: &TokenTree) -> (r: bool)
    ensures
        r == is_paren(*t),
{
    match t {
        TokenTree::Group { delimiter, .. } => *delimiter == Delimiter::Parenthesis,
        _ => false,
    }
}

/// The value of a boolean literal, if the token is one.
pub fn bool_of(t: &TokenTree) -> (r: Option<bool>)
    ensures
        r == bool_value(*t),
{
    if ident_is(t, "true") {
        Some(true)
    } else if ident_is(t, "false") {
        Some(false)
    } else {
        None
    }
}

/// Whether the token is a string literal.
pub fn is_string(t: &TokenTree) -> (r: bool)
    ensures
        r == string_text(*t).is_some(),
{
    match t {
        TokenTree::Literal { text: Some(_), .. } => true,
        _ => false,
    }
}

/// Whether some token of the sequence, at its own level, is a comma.
pub fn contains_comma(s: &Vec<TokenTree>) -> (r: bool)
    ensures
        r == has_comma(s@),
{
    let mut i: usize = 0;
    while i < s.len()
        invariant
            i <= s.len(),
            forall|j: int| 0 <= j < i ==> !is_comma(#[trigger] s@[j]),
        decreases s.len() - i,
    {
        if punct_is(&s[i], ',') {
            assert(is_comma(s@[i as int]));
            return true;
        }
        i = i + 1;
    }
    false
}

/// Whether the sequence is one or more fragments separated by single commas.
pub fn fragment_list_is(s: &Vec<TokenTree>) -> (r: bool)
    ensures
        r == is_fragment_list(s@),
{
    if s.len() == 0 {
        return false;
    }
    let mut i: usize = 0;
    while i < s.len()
        invariant
            0 < s.len(),
            i <= s.len(),
            forall|j: int|
                0 <= j < i && #[trigger] is_comma(s@[j]) ==> 0 < j && j + 1 < s.len() && !is_comma(
                    s@[j + 1],
                ),
        decreases s.len() - i,
    {
        if punct_is(&s[i], ',') {
            if i == 0 || i + 1 >= s.len() || punct_is(&s[i + 1], ',') {
                assert(is_comma(s@[i as int]));
                return false;
            }
        }
        i = i + 1;
    }
    true
}

/// The position of the first separating comma, if there is one.
pub fn first_top_comma(s: &Vec<TokenTree>) -> (r: Option<usize>)
    ensures
        match r {
            Some(k) => k < s.len() && is_top_comma(s@, k as int) && forall|j: int|
                0 <= j < k ==> !#[trigger] is_top_comma(s@, j),
            None => !has_top_comma(s@),
        },
{
    let mut i: usize = 0;
    let mut d: usize = 0;
    while i < s.len()
        invariant
            i <= s.len(),
            d <= i,
            d == angle_depth(s@, i as int),
            forall|j: int| 0 <= j < i ==> !#[trigger] is_top_comma(s@, j),
        decreases s.len() - i,
    {
        if d == 0 && punct_is(&s[i], ',') {
            return Some(i);
        }
        if punct_is(&s[i], '<') {
            d = d + 1;
        } else if punct_is(&s[i], '>') && !(i > 0 && joint_punct_is(&s[i - 1], '-')) {
            if d > 0 {
                d = d - 1;
            }
        }
        i = i + 1;
    }
    None
}

} // verus!
