//! The typed attribute list that parsing produces, its mathematical model, and
//! the errors that parsing reports.

use vstd::prelude::*;
use crate::token::TokenTree;

verus! {

/// The spans of the first and the last token that define an attribute.
#[derive(Clone, Copy, Debug)]
pub struct SpanRange {
    pub first: proc_macro2::Span,
    pub last: proc_macro2::Span,
}

/// Captured token trees that are not interpreted, only handed on unchanged.
#[derive(Debug)]
pub struct Fragment {
    pub tokens: Vec<TokenTree>,
}

impl View for Fragment {
    type V = Seq<TokenTree>;

    open spec fn view(&self) -> Seq<TokenTree> {
        self.tokens@
    }
}

impl Fragment {
    /// The captured token trees, exactly as they were written.
    pub fn emit(&self) -> (r: &Vec<TokenTree>)
        ensures
            r@ == self@,
    {
        &self.tokens
    }
}

/// One clause of a `source` attribute.
#[derive(Debug)]
pub enum SourceClause {
    /// Whether the field is the error's source.
    Flag(bool),
    /// Convert from the type `ty` with the expression `expr`.
    From { ty: Fragment, expr: Fragment },
}

/// The model of a [`SourceClause`].
pub enum ClauseModel {
    Flag(bool),
    From(Seq<TokenTree>, Seq<TokenTree>),
}

impl View for SourceClause {
    type V = ClauseModel;

    open spec fn view(&self) -> ClauseModel {
        match self {
            SourceClause::Flag(b) => ClauseModel::Flag(*b),
            SourceClause::From { ty, expr } => ClauseModel::From(ty@, expr@),
        }
    }
}

/// The models of a sequence of clauses.
pub open spec fn clauses_view(cs: Seq<SourceClause>) -> Seq<ClauseModel> {
    cs.map_values(|c: SourceClause| c@)
}

/// One parsed attribute, with the spans of the tokens that define it.
#[derive(Debug)]
pub enum Attribute {
    Backtrace { span: SpanRange, enabled: bool },
    Context { span: SpanRange, enabled: bool },
    CrateRoot { span: SpanRange, path: Fragment },
    Display { span: SpanRange, args: Fragment },
    Other { span: SpanRange },
    Source { span: SpanRange, clauses: Vec<SourceClause> },
    /// `spec` is `None` when no visibility was written; the consumer then
    /// chooses the default.
    Visibility { span: SpanRange, spec: Option<Fragment> },
    DocComment { span: SpanRange, text: String },
}

/// The model of an [`Attribute`]: fragments as the token trees they hold.
pub enum AttributeModel {
    Backtrace { span: SpanRange, enabled: bool },
    Context { span: SpanRange, enabled: bool },
    CrateRoot { span: SpanRange, path: Seq<TokenTree> },
    Display { span: SpanRange, args: Seq<TokenTree> },
    Other { span: SpanRange },
    Source { span: SpanRange, clauses: Seq<ClauseModel> },
    Visibility { span: SpanRange, spec: Option<Seq<TokenTree>> },
    DocComment { span: SpanRange, text: Seq<char> },
}

impl View for Attribute {
    type V = AttributeModel;

    open spec fn view(&self) -> AttributeModel {
        match self {
            Attribute::Backtrace { span, enabled } => AttributeModel::Backtrace {
                span: *span,
                enabled: *enabled,
            },
            Attribute::Context { span, enabled } => AttributeModel::Context {
                span: *span,
                enabled: *enabled,
            },
            Attribute::CrateRoot { span, path } => AttributeModel::CrateRoot {
                span: *span,
                path: path@,
            },
            Attribute::Display { span, args } => AttributeModel::Display {
                span: *span,
                args: args@,
            },
            Attribute::Other { span } => AttributeModel::Other { span: *span },
            Attribute::Source { span, clauses } => AttributeModel::Source {
                span: *span,
                clauses: clauses_view(clauses@),
            },
            Attribute::Visibility { span, spec } => AttributeModel::Visibility {
                span: *span,
                spec: match spec {
                    Some(f) => Some(f@),
                    None => None,
                },
            },
            Attribute::DocComment { span, text } => AttributeModel::DocComment {
                span: *span,
                text: text@,
            },
        }
    }
}

/// The models of a sequence of attributes.
pub open spec fn attributes_view(attrs: Seq<Attribute>) -> Seq<AttributeModel> {
    attrs.map_values(|a: Attribute| a@)
}

/// What an argument was expected to look like where it did not.
#[derive(Clone, Copy, Debug, PartialEq, Eq, Structural)]
pub enum Expected {
    /// `true` or `false`.
    BoolLiteral,
    /// A boolean literal or `from(...)`.
    BoolOrFrom,
    /// A comma, or the end of the arguments.
    Comma,
    /// The end of the arguments.
    End,
    /// A parenthesized argument.
    Parenthesized,
    /// A parenthesized argument or `= "..."`.
    ParenthesizedOrString,
    /// A string literal.
    StringLiteral,
    /// One fragment.
    Fragment,
    /// Fragments separated by commas.
    FragmentList,
    /// A type and an expression, separated by a comma.
    TypeAndExpression,
    /// Attribute arguments in parentheses: `#[snafu(...)]`.
    AttributeArguments,
}

/// The kind of a parse failure.
#[derive(Clone, Copy, Debug, PartialEq, Eq, Structural)]
pub enum ErrorKind {
    /// The leading word is not one of the annotation language's keywords.
    UnrecognizedKeyword,
    /// An argument is present but has the wrong shape.
    MalformedArgument(Expected),
    /// `backtrace(delegate)`, which has been removed.
    DeprecatedSyntax,
    /// An argument given to `other`, which takes none.
    DisallowedArgument,
}

/// A parse failure, at the span of the token where it was found.
#[derive(Clone, Copy, Debug)]
pub struct ParseError {
    pub kind: ErrorKind,
    pub span: proc_macro2::Span,
}

/// The text that describes a malformed argument.
pub open spec fn expected_text(e: Expected) -> Seq<char> {
    match e {
        Expected::BoolLiteral => "expected boolean literal"@,
        Expected::BoolOrFrom => "expected boolean literal or `from`"@,
        Expected::Comma => "expected `,`"@,
        Expected::End => "unexpected token"@,
        Expected::Parenthesized => "expected parentheses"@,
        Expected::ParenthesizedOrString => "expected parentheses or `=`"@,
        Expected::StringLiteral => "expected string literal"@,
        Expected::Fragment => "expected a single argument"@,
        Expected::FragmentList => "expected arguments separated by commas"@,
        Expected::TypeAndExpression => "expected a type and an expression separated by `,`"@,
        Expected::AttributeArguments => "expected attribute arguments in parentheses: #[snafu(...)]"@,
    }
}

/// The text that describes a failure of the given kind.
pub open spec fn message_text(kind: ErrorKind) -> Seq<char> {
    match kind {
        ErrorKind::UnrecognizedKeyword => "expected one of: `backtrace`, `context`, `crate_root`, `display`, `other`, `source`, `visibility`"@,
        ErrorKind::DeprecatedSyntax => "`backtrace(delegate)` has been removed; use `backtrace` on a source field"@,
        ErrorKind::DisallowedArgument => "`other` takes no arguments"@,
        ErrorKind::MalformedArgument(e) => expected_text(e),
    }
}

impl ParseError {
    /// A human-readable description of the failure.
    pub fn message(&self) -> (r: &'static str)
        ensures
            r@ == message_text(self.kind),
    {
        match self.kind {
            ErrorKind::UnrecognizedKeyword => "expected one of: `backtrace`, `context`, `crate_root`, `display`, `other`, `source`, `visibility`",
            ErrorKind::DeprecatedSyntax => "`backtrace(delegate)` has been removed; use `backtrace` on a source field",
            ErrorKind::DisallowedArgument => "`other` takes no arguments",
            ErrorKind::MalformedArgument(e) => match e {
                Expected::BoolLiteral => "expected boolean literal",
                Expected::BoolOrFrom => "expected boolean literal or `from`",
                Expected::Comma => "expected `,`",
                Expected::End => "unexpected token",
                Expected::Parenthesized => "expected parentheses",
                Expected::ParenthesizedOrString => "expected parentheses or `=`",
                Expected::StringLiteral => "expected string literal",
                Expected::Fragment => "expected a single argument",
                Expected::FragmentList => "expected arguments separated by commas",
                Expected::TypeAndExpression => "expected a type and an expression separated by `,`",
                Expected::AttributeArguments => "expected attribute arguments in parentheses: #[snafu(...)]",
            },
        }
    }
}

} // verus!
