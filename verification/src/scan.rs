//! The mathematical scanner.
//!
//! [`scan`] maps an input character sequence to the token sequence that the
//! lexer must produce.  It works step by step: [`step_len`] gives the number
//! of characters the next scanning step consumes, and [`step_token`] the
//! token (if any) that the step emits; [`scan`] folds the steps over the
//! whole input.  The executable scanner's contract is stated against these
//! functions.

use vstd::prelude::*;

verus! {

use crate::token::SpecToken;

/// An ASCII decimal digit, `0` through `9`.
pub open spec fn is_digit(c: char) -> bool {
    '0' as u32 <= c as u32 && c as u32 <= '9' as u32
}

/// A character that may begin an identifier: an ASCII letter or `_`.
pub open spec fn is_ident_start(c: char) -> bool {
    ('a' as u32 <= c as u32 && c as u32 <= 'z' as u32) || ('A' as u32 <= c as u32 && c as u32
        <= 'Z' as u32) || c == '_'
}

/// A character that may continue an identifier: a letter, a digit, or `_`.
pub open spec fn is_ident_char(c: char) -> bool {
    is_ident_start(c) || is_digit(c)
}

/// Whitespace that the scanner consumes and discards.
pub open spec fn is_space(c: char) -> bool {
    c == ' ' || c == '\n' || c == '\r'
}

/// The length of the maximal leading run of identifier characters.
pub open spec fn ident_run_len(s: Seq<char>) -> nat
    decreases s.len(),
{
    if s.len() == 0 || !is_ident_char(s[0]) {
        0
    } else {
        1 + ident_run_len(s.skip(1))
    }
}

/// The length of the maximal leading run of ASCII digits.
pub open spec fn digit_run_len(s: Seq<char>) -> nat
    decreases s.len(),
{
    if s.len() == 0 || !is_digit(s[0]) {
        0
    } else {
        1 + digit_run_len(s.skip(1))
    }
}

/// The number of characters before the first occurrence of `delim`, or the
/// whole length when `delim` does not occur.
pub open spec fn till_len(s: Seq<char>, delim: char) -> nat
    decreases s.len(),
{
    if s.len() == 0 || s[0] == delim {
        0
    } else {
        1 + till_len(s.skip(1), delim)
    }
}

/// The number of characters delimited-text consumption removes from `s`: the
/// text before the delimiter, plus the delimiter itself when it occurs.
pub open spec fn till_consumed(s: Seq<char>, delim: char) -> nat {
    if till_len(s, delim) < s.len() {
        till_len(s, delim) + 1
    } else {
        till_len(s, delim)
    }
}

/// The reserved-word table: the token for `w` when `w` is a reserved word,
/// `None` otherwise.  Lookup is exact and case-sensitive.
pub open spec fn reserved_token(w: Seq<char>) -> Option<SpecToken> {
    if w == "local"@ {
        Some(SpecToken::KeywordLocal)
    } else if w == "if"@ {
        Some(SpecToken::KeywordIf)
    } else if w == "do"@ {
        Some(SpecToken::KeywordDo)
    } else if w == "then"@ {
        Some(SpecToken::KeywordThen)
    } else if w == "while"@ {
        Some(SpecToken::KeywordWhile)
    } else if w == "repeat"@ {
        Some(SpecToken::KeywordRepeat)
    } else if w == "until"@ {
        Some(SpecToken::KeywordUntil)
    } else if w == "end"@ {
        Some(SpecToken::KeywordEnd)
    } else if w == "else"@ {
        Some(SpecToken::KeywordElse)
    } else if w == "elseif"@ {
        Some(SpecToken::KeywordElseif)
    } else if w == "true"@ {
        Some(SpecToken::LiteralTrue)
    } else if w == "false"@ {
        Some(SpecToken::LiteralFalse)
    } else if w == "nil"@ {
        Some(SpecToken::LiteralNil)
    } else if w == "in"@ {
        Some(SpecToken::KeywordIn)
    } else if w == "break"@ {
        Some(SpecToken::KeywordBreak)
    } else if w == "continue"@ {
        Some(SpecToken::KeywordContinue)
    } else if w == "return"@ {
        Some(SpecToken::KeywordReturn)
    } else if w == "and"@ {
        Some(SpecToken::KeywordAnd)
    } else if w == "or"@ {
        Some(SpecToken::KeywordOr)
    } else if w == "not"@ {
        Some(SpecToken::KeywordNot)
    } else if w == "for"@ {
        Some(SpecToken::KeywordFor)
    } else if w == "function"@ {
        Some(SpecToken::KeywordFunction)
    } else {
        None
    }
}

/// The token an identifier/keyword run `w` yields: its reserved-word token
/// when `w` is in the table, else an identifier carrying `w` itself.
pub open spec fn ident_token(w: Seq<char>) -> SpecToken {
    match reserved_token(w) {
        Some(t) => t,
        None => SpecToken::Identifier(w),
    }
}

/// How many characters the next scanning step consumes from `s`.
/// Zero only when `s` is empty; otherwise between 1 and `s.len()`.
pub open spec fn step_len(s: Seq<char>) -> nat {
    if s.len() == 0 {
        0
    } else {
        let c = s[0];
        if is_digit(c) {
            digit_run_len(s)
        } else if c == '"' || c == '\'' {
            1 + till_consumed(s.skip(1), c)
        } else if is_ident_start(c) {
            ident_run_len(s)
        } else if c == '-' {
            if s.len() >= 2 && s[1] == '-' {
                2 + till_consumed(s.skip(2), '\n')
            } else if s.len() >= 2 && s[1] == '=' {
                2
            } else {
                1
            }
        } else if c == '=' || c == '>' || c == '<' || c == '+' || c == '/' || c == '*' || c == '%'
            || c == '^' {
            if s.len() >= 2 && s[1] == '=' {
                2
            } else {
                1
            }
        } else {
            1
        }
    }
}

/// The token the next scanning step emits from `s`: `None` when `s` is empty
/// or its first character is discarded whitespace, otherwise exactly one
/// token.
pub open spec fn step_token(s: Seq<char>) -> Option<SpecToken> {
    if s.len() == 0 {
        None
    } else {
        let c = s[0];
        if is_digit(c) {
            Some(SpecToken::LiteralNumber(s.take(digit_run_len(s) as int)))
        } else if c == '"' || c == '\'' {
            Some(SpecToken::LiteralString(s.skip(1).take(till_len(s.skip(1), c) as int)))
        } else if is_ident_start(c) {
            Some(ident_token(s.take(ident_run_len(s) as int)))
        } else if is_space(c) {
            None
        } else if c == '#' {
            Some(SpecToken::OperatorLen)
        } else if c == '(' {
            Some(SpecToken::OpenedBracket)
        } else if c == ')' {
            Some(SpecToken::ClosedBracket)
        } else if c == '[' {
            Some(SpecToken::OpenedSquareBracket)
        } else if c == ']' {
            Some(SpecToken::ClosedSquareBracket)
        } else if c == '{' {
            Some(SpecToken::OpenedCurlyBracket)
        } else if c == '}' {
            Some(SpecToken::ClosedCurlyBracket)
        } else if c == '-' {
            if s.len() >= 2 && s[1] == '-' {
                Some(SpecToken::Comment(s.skip(2).take(till_len(s.skip(2), '\n') as int)))
            } else if s.len() >= 2 && s[1] == '=' {
                Some(SpecToken::OperatorSubtractionAssignment)
            } else if s.len() >= 2 && s[1] != ' ' {
                Some(SpecToken::OperatorUnary)
            } else {
                Some(SpecToken::OperatorSubtraction)
            }
        } else if c == '=' {
            if s.len() >= 2 && s[1] == '=' {
                Some(SpecToken::OperatorEquality)
            } else {
                Some(SpecToken::OperatorAssignment)
            }
        } else if c == '>' {
            if s.len() >= 2 && s[1] == '=' {
                Some(SpecToken::OperatorGreaterOrEqual)
            } else {
                Some(SpecToken::OperatorGreater)
            }
        } else if c == '<' {
            if s.len() >= 2 && s[1] == '=' {
                Some(SpecToken::OperatorLowerOrEqual)
            } else {
                Some(SpecToken::OperatorLower)
            }
        } else if c == '+' {
            if s.len() >= 2 && s[1] == '=' {
                Some(SpecToken::OperatorAdditionAssignment)
            } else {
                Some(SpecToken::OperatorAddition)
            }
        } else if c == '/' {
            if s.len() >= 2 && s[1] == '=' {
                Some(SpecToken::OperatorDivisionAssignment)
            } else {
                Some(SpecToken::OperatorDivision)
            }
        } else if c == '*' {
            if s.len() >= 2 && s[1] == '=' {
                Some(SpecToken::OperatorMultiplicationAssignment)
            } else {
                Some(SpecToken::OperatorMultiplication)
            }
        } else if c == '%' {
            if s.len() >= 2 && s[1] == '=' {
                Some(SpecToken::OperatorModulusAssignment)
            } else {
                Some(SpecToken::OperatorModulus)
            }
        } else if c == '^' {
            if s.len() >= 2 && s[1] == '=' {
                Some(SpecToken::OperatorPowerAssignment)
            } else {
                Some(SpecToken::OperatorPower)
            }
        } else {
            Some(SpecToken::UnknownCharacter(c))
        }
    }
}

/// The complete token sequence for input `s`: the tokens of the successive
/// scanning steps, in left-to-right order.
pub open spec fn scan(s: Seq<char>) -> Seq<SpecToken>
    decreases s.len(),
    via scan_decreases
{
    if s.len() == 0 {
        Seq::empty()
    } else {
        (match step_token(s) {
            Some(t) => seq![t],
            None => Seq::empty(),
        }) + scan(s.skip(step_len(s) as int))
    }
}

#[via_fn]
proof fn scan_decreases(s: Seq<char>) {
    lemma_step_len_bounds(s);
}

/// A leading digit run never exceeds the input.
pub proof fn lemma_digit_run_len_le(s: Seq<char>)
    ensures
        digit_run_len(s) <= s.len(),
    decreases s.len(),
{
    if s.len() != 0 && is_digit(s[0]) {
        lemma_digit_run_len_le(s.skip(1));
    }
}

/// A leading identifier run never exceeds the input.
pub proof fn lemma_ident_run_len_le(s: Seq<char>)
    ensures
        ident_run_len(s) <= s.len(),
    decreases s.len(),
{
    if s.len() != 0 && is_ident_char(s[0]) {
        lemma_ident_run_len_le(s.skip(1));
    }
}

/// The run up to a delimiter never exceeds the input.
pub proof fn lemma_till_len_le(s: Seq<char>, delim: char)
    ensures
        till_len(s, delim) <= s.len(),
    decreases s.len(),
{
    if s.len() != 0 && s[0] != delim {
        lemma_till_len_le(s.skip(1), delim);
    }
}

/// Every scanning step on a non-empty input consumes at least one character
/// and at most the whole input.
pub proof fn lemma_step_len_bounds(s: Seq<char>)
    ensures
        s.len() > 0 ==> 1 <= step_len(s) <= s.len(),
{
    if s.len() > 0 {
        let c = s[0];
        if is_digit(c) {
            lemma_digit_run_len_le(s);
        } else if c == '"' || c == '\'' {
            lemma_till_len_le(s.skip(1), c);
        } else if is_ident_start(c) {
            lemma_ident_run_len_le(s);
        } else if c == '-' && s.len() >= 2 && s[1] == '-' {
            lemma_till_len_le(s.skip(2), '\n');
        }
    }
}

} // verus!
