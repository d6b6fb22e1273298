//! The preprocessing-token vocabulary and its mathematical model.
//!
//! Executable tokens carry their lexemes as `String`s; the model mirrors the
//! same closed set of variants over `Seq<char>`, so that contracts can speak
//! of token streams as pure values.

use vstd::prelude::*;

verus! {

/// Atoms are the fundamental unit of information produced by sources.
/// A source either produces one valid datum, reports why a valid datum
/// could not be produced, or is permanently exhausted.
#[derive(Debug, PartialEq, Eq)]
pub enum Atom<DatumType, ErrorType> {
    Datum(DatumType),
    Error(ErrorType),
    Empty,
}

/// Whether a left parenthesis was immediately preceded by whitespace.
/// This disambiguates a function-like macro definition from an object
/// macro whose replacement begins with a left parenthesis.
#[derive(Clone, Copy, Debug, PartialEq, Eq, Structural)]
pub enum Separation {
    Whitespace,
    Adjacent,
}

/// Whether a header name was written `<...>` or `"..."`.
#[derive(Clone, Copy, Debug, PartialEq, Eq, Structural)]
pub enum HeaderKind {
    SystemPath,
    UserPath,
}

/// The closed enumeration of C punctuators, in the order of the C17 draft
/// (N2176).  The names capture how each token is most often used in C.
#[derive(Clone, Copy, Debug, PartialEq, Eq, Structural)]
pub enum Punctuator {
    /* [    */ ArrayIndexBegin,
    /* ]    */ ArrayIndexEnd,
    /* (    */ LeftParen(Separation),
    /* )    */ RightParen,
    /* {    */ BlockBegin,
    /* }    */ BlockEnd,
    /* .    */ Member,
    /* ->   */ DerefMember,
    /* ++   */ Increment,
    /* --   */ Decrement,
    /* &    */ AddressOf,
    /* *    */ Deference,
    /* +    */ Add,
    /* -    */ Substract,
    /* ~    */ BitwiseNot,
    /* !    */ LogicalNot,
    /* /    */ Divide,
    /* %    */ Modulus,
    /* <<   */ ShiftLeft,
    /* >>   */ ShiftRight,
    /* <    */ LessThan,
    /* >    */ GreaterThan,
    /* <=   */ LessThanOrEquals,
    /* >=   */ GreaterThanOrEquals,
    /* ==   */ Equals,
    /* !=   */ NotEquals,
    /* ^    */ BitwiseXor,
    /* |    */ BitwiseOr,
    /* &&   */ LogicalAnd,
    /* ||   */ LogicalOr,
    /* ?    */ TernaryCondition,
    /* :    */ TernarySeparator,
    /* ;    */ StatementEnd,
    /* ...  */ VariadicParameters,
    /* =    */ Assignment,
    /* *=   */ MultiplyAndAssign,
    /* /=   */ DivideAndAssign,
    /* %=   */ ModulusAndAssign,
    /* +=   */ AddAndAssign,
    /* -=   */ SubstractAndAssign,
    /* <<=  */ ShiftLeftAndAssign,
    /* >>=  */ ShiftRightAndAssign,
    /* &=   */ BitwiseAndAndAssign,
    /* ^=   */ BitwiseXorAndAssign,
    /* |=   */ BitwiseOrAndAssign,
    /* ,    */ ParameterSeparator,
    /* #    */ PreprocessingDirective,
    /* ##   */ PreprocessingConcat,
    /* <:   */ ArrayIndexBeginDigraph,
    /* :>   */ ArrayIndexEndDigraph,
    /* <%   */ BlockBeginDigraph,
    /* %>   */ BlockEndDigraph,
    /* %:   */ PreprocessingDirectiveDigraph,
    /* %:%: */ PreprocessingConcatDigraph,
}

/// A preprocessing token.  `Newline` is not a real C token, but directive
/// grammar and macro replacement are line-sensitive, and keeping newlines
/// lets the replaced output resemble the input's line structure.
#[derive(Clone, Debug, PartialEq, Eq)]
pub enum PreprocessingToken {
    HeaderName(HeaderKind, String),
    Identifier(String),
    PreprocessingNumber(String),
    CharacterConstant(char),
    StringLiteral(String),
    Punctuator(Punctuator),
    OtherCharacter(char),
    Newline,
}

/// The mathematical model of a preprocessing token: the same closed set of
/// variants, with every lexeme a sequence of characters.
#[verifier::ext_equal]
pub enum TokenModel {
    HeaderName(HeaderKind, Seq<char>),
    Identifier(Seq<char>),
    PreprocessingNumber(Seq<char>),
    CharacterConstant(char),
    StringLiteral(Seq<char>),
    Punctuator(Punctuator),
    OtherCharacter(char),
    Newline,
}

impl View for PreprocessingToken {
    type V = TokenModel;

    open spec fn view(&self) -> TokenModel {
        match self {
            PreprocessingToken::HeaderName(k, s) => TokenModel::HeaderName(*k, s@),
            PreprocessingToken::Identifier(s) => TokenModel::Identifier(s@),
            PreprocessingToken::PreprocessingNumber(s) => TokenModel::PreprocessingNumber(s@),
            PreprocessingToken::CharacterConstant(c) => TokenModel::CharacterConstant(*c),
            PreprocessingToken::StringLiteral(s) => TokenModel::StringLiteral(s@),
            PreprocessingToken::Punctuator(p) => TokenModel::Punctuator(*p),
            PreprocessingToken::OtherCharacter(c) => TokenModel::OtherCharacter(*c),
            PreprocessingToken::Newline => TokenModel::Newline,
        }
    }
}

/// The model of a whole token sequence.
pub open spec fn toks_view(s: Seq<PreprocessingToken>) -> Seq<TokenModel> {
    s.map_values(|t: PreprocessingToken| t@)
}

pub open spec fn is_lparen(t: TokenModel) -> bool {
    match t {
        TokenModel::Punctuator(Punctuator::LeftParen(_)) => true,
        _ => false,
    }
}

pub open spec fn is_rparen(t: TokenModel) -> bool {
    t == TokenModel::Punctuator(Punctuator::RightParen)
}

pub open spec fn is_comma(t: TokenModel) -> bool {
    t == TokenModel::Punctuator(Punctuator::ParameterSeparator)
}

pub open spec fn is_newline(t: TokenModel) -> bool {
    t == TokenModel::Newline
}

/// `#` in a replacement list, in either spelling.
pub open spec fn is_stringize_op(t: TokenModel) -> bool {
    t == TokenModel::Punctuator(Punctuator::PreprocessingDirective)
    || t == TokenModel::Punctuator(Punctuator::PreprocessingDirectiveDigraph)
}

/// `##` in a replacement list, in either spelling.
pub open spec fn is_paste_op(t: TokenModel) -> bool {
    t == TokenModel::Punctuator(Punctuator::PreprocessingConcat)
    || t == TokenModel::Punctuator(Punctuator::PreprocessingConcatDigraph)
}

/// An exact copy of a token.
pub(crate) fn clone_token(t: &PreprocessingToken) -> (r: PreprocessingToken)
    ensures
        r == *t,
{
    match t {
        PreprocessingToken::HeaderName(k, s) => PreprocessingToken::HeaderName(*k, s.clone()),
        PreprocessingToken::Identifier(s) => PreprocessingToken::Identifier(s.clone()),
        PreprocessingToken::PreprocessingNumber(s) => PreprocessingToken::PreprocessingNumber(
            s.clone(),
        ),
        PreprocessingToken::CharacterConstant(c) => PreprocessingToken::CharacterConstant(*c),
        PreprocessingToken::StringLiteral(s) => PreprocessingToken::StringLiteral(s.clone()),
        PreprocessingToken::Punctuator(p) => PreprocessingToken::Punctuator(*p),
        PreprocessingToken::OtherCharacter(c) => PreprocessingToken::OtherCharacter(*c),
        PreprocessingToken::Newline => PreprocessingToken::Newline,
    }
}

} // verus!
