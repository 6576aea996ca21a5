//! The token vocabulary of the lexer.
//!
//! [`Token`] is the executable value handed back to callers; text-carrying
//! variants hold their matched text in a [`TokenData`].  [`SpecToken`] is the
//! mathematical counterpart used by contracts: it carries the matched text as
//! a `Seq<char>`, so that the specification-level scanner can build one.

use vstd::prelude::*;

verus! {

/// The raw matched text of a variable-length token (identifier, number,
/// string literal, or comment).
#[derive(Debug, PartialEq, Eq)]
pub struct TokenData {
    pub source: String,
}

/// One classified lexical unit, as the executable scanner emits it.
#[derive(Debug, PartialEq, Eq)]
pub enum Token {
    KeywordLocal,
    KeywordIf,
    KeywordDo,
    KeywordThen,
    KeywordWhile,
    KeywordRepeat,
    KeywordUntil,
    KeywordEnd,
    KeywordElse,
    KeywordElseif,
    KeywordIn,
    KeywordBreak,
    KeywordContinue,
    KeywordReturn,
    KeywordAnd,
    KeywordOr,
    KeywordNot,
    KeywordFor,
    KeywordFunction,
    LiteralTrue,
    LiteralFalse,
    LiteralNil,
    LiteralNumber(TokenData),
    LiteralString(TokenData),
    Identifier(TokenData),
    Comment(TokenData),
    OperatorAssignment,
    OperatorEquality,
    OperatorGreater,
    OperatorGreaterOrEqual,
    OperatorLower,
    OperatorLowerOrEqual,
    OperatorAddition,
    OperatorAdditionAssignment,
    OperatorSubtraction,
    OperatorSubtractionAssignment,
    OperatorUnary,
    OperatorMultiplication,
    OperatorMultiplicationAssignment,
    OperatorDivision,
    OperatorDivisionAssignment,
    OperatorModulus,
    OperatorModulusAssignment,
    OperatorPower,
    OperatorPowerAssignment,
    OperatorLen,
    OpenedBracket,
    ClosedBracket,
    OpenedSquareBracket,
    ClosedSquareBracket,
    OpenedCurlyBracket,
    ClosedCurlyBracket,
    UnknownCharacter(char),
}

/// The mathematical form of a token: the same vocabulary as [`Token`], with
/// matched text held as a `Seq<char>`.
pub enum SpecToken {
    KeywordLocal,
    KeywordIf,
    KeywordDo,
    KeywordThen,
    KeywordWhile,
    KeywordRepeat,
    KeywordUntil,
    KeywordEnd,
    KeywordElse,
    KeywordElseif,
    KeywordIn,
    KeywordBreak,
    KeywordContinue,
    KeywordReturn,
    KeywordAnd,
    KeywordOr,
    KeywordNot,
    KeywordFor,
    KeywordFunction,
    LiteralTrue,
    LiteralFalse,
    LiteralNil,
    LiteralNumber(Seq<char>),
    LiteralString(Seq<char>),
    Identifier(Seq<char>),
    Comment(Seq<char>),
    OperatorAssignment,
    OperatorEquality,
    OperatorGreater,
    OperatorGreaterOrEqual,
    OperatorLower,
    OperatorLowerOrEqual,
    OperatorAddition,
    OperatorAdditionAssignment,
    OperatorSubtraction,
    OperatorSubtractionAssignment,
    OperatorUnary,
    OperatorMultiplication,
    OperatorMultiplicationAssignment,
    OperatorDivision,
    OperatorDivisionAssignment,
    OperatorModulus,
    OperatorModulusAssignment,
    OperatorPower,
    OperatorPowerAssignment,
    OperatorLen,
    OpenedBracket,
    ClosedBracket,
    OpenedSquareBracket,
    ClosedSquareBracket,
    OpenedCurlyBracket,
    ClosedCurlyBracket,
    UnknownCharacter(char),
}

impl View for TokenData {
    type V = Seq<char>;

    open spec fn view(&self) -> Seq<char> {
        self.source@
    }
}

impl View for Token {
    type V = SpecToken;

    open spec fn view(&self) -> SpecToken {
        match self {
            Token::KeywordLocal => SpecToken::KeywordLocal,
            Token::KeywordIf => SpecToken::KeywordIf,
            Token::KeywordDo => SpecToken::KeywordDo,
            Token::KeywordThen => SpecToken::KeywordThen,
            Token::KeywordWhile => SpecToken::KeywordWhile,
            Token::KeywordRepeat => SpecToken::KeywordRepeat,
            Token::KeywordUntil => SpecToken::KeywordUntil,
            Token::KeywordEnd => SpecToken::KeywordEnd,
            Token::KeywordElse => SpecToken::KeywordElse,
            Token::KeywordElseif => SpecToken::KeywordElseif,
            Token::KeywordIn => SpecToken::KeywordIn,
            Token::KeywordBreak => SpecToken::KeywordBreak,
            Token::KeywordContinue => SpecToken::KeywordContinue,
            Token::KeywordReturn => SpecToken::KeywordReturn,
            Token::KeywordAnd => SpecToken::KeywordAnd,
            Token::KeywordOr => SpecToken::KeywordOr,
            Token::KeywordNot => SpecToken::KeywordNot,
            Token::KeywordFor => SpecToken::KeywordFor,
            Token::KeywordFunction => SpecToken::KeywordFunction,
            Token::LiteralTrue => SpecToken::LiteralTrue,
            Token::LiteralFalse => SpecToken::LiteralFalse,
            Token::LiteralNil => SpecToken::LiteralNil,
            Token::LiteralNumber(d) => SpecToken::LiteralNumber(d@),
            Token::LiteralString(d) => SpecToken::LiteralString(d@),
            Token::Identifier(d) => SpecToken::Identifier(d@),
            Token::Comment(d) => SpecToken::Comment(d@),
            Token::OperatorAssignment => SpecToken::OperatorAssignment,
            Token::OperatorEquality => SpecToken::OperatorEquality,
            Token::OperatorGreater => SpecToken::OperatorGreater,
            Token::OperatorGreaterOrEqual => SpecToken::OperatorGreaterOrEqual,
            Token::OperatorLower => SpecToken::OperatorLower,
            Token::OperatorLowerOrEqual => SpecToken::OperatorLowerOrEqual,
            Token::OperatorAddition => SpecToken::OperatorAddition,
            Token::OperatorAdditionAssignment => SpecToken::OperatorAdditionAssignment,
            Token::OperatorSubtraction => SpecToken::OperatorSubtraction,
            Token::OperatorSubtractionAssignment => SpecToken::OperatorSubtractionAssignment,
            Token::OperatorUnary => SpecToken::OperatorUnary,
            Token::OperatorMultiplication => SpecToken::OperatorMultiplication,
            Token::OperatorMultiplicationAssignment => SpecToken::OperatorMultiplicationAssignment,
            Token::OperatorDivision => SpecToken::OperatorDivision,
            Token::OperatorDivisionAssignment => SpecToken::OperatorDivisionAssignment,
            Token::OperatorModulus => SpecToken::OperatorModulus,
            Token::OperatorModulusAssignment => SpecToken::OperatorModulusAssignment,
            Token::OperatorPower => SpecToken::OperatorPower,
            Token::OperatorPowerAssignment => SpecToken::OperatorPowerAssignment,
            Token::OperatorLen => SpecToken::OperatorLen,
            Token::OpenedBracket => SpecToken::OpenedBracket,
            Token::ClosedBracket => SpecToken::ClosedBracket,
            Token::OpenedSquareBracket => SpecToken::OpenedSquareBracket,
            Token::ClosedSquareBracket => SpecToken::ClosedSquareBracket,
            Token::OpenedCurlyBracket => SpecToken::OpenedCurlyBracket,
            Token::ClosedCurlyBracket => SpecToken::ClosedCurlyBracket,
            Token::UnknownCharacter(c) => SpecToken::UnknownCharacter(*c),
        }
    }
}

impl DeepView for Token {
    type V = SpecToken;

    open spec fn deep_view(&self) -> SpecToken {
        self.view()
    }
}

/// The views of a sequence of tokens, element by element.
pub open spec fn views_of(s: Seq<Token>) -> Seq<SpecToken> {
    Seq::new(s.len(), |i: int| s[i]@)
}

/// Appending a token to a sequence appends its view to the sequence's views.
pub proof fn lemma_views_of_push(s: Seq<Token>, t: Token)
    ensures
        views_of(s.push(t)) == views_of(s).push(t@),
{
    assert(views_of(s.push(t)) =~= views_of(s).push(t@));
}

/// A token vector's deep view is the views of its elements.
pub proof fn lemma_deep_view_is_views_of(v: &Vec<Token>)
    ensures
        v.deep_view() == views_of(v@),
{
    assert(v.deep_view() =~= views_of(v@));
}

} // verus!
