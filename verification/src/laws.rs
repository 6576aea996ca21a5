//! Global guarantees of the scanner, stated and proved against the
//! mathematical scanner [`scan`].
//!
//! The scanner partitions its input into consecutive pieces, one per
//! scanning step ([`pieces`]); nothing is lost and nothing is invented:
//! the pieces concatenate back to the whole input, each piece is its step's
//! token text together with at most the delimiter characters around it, and
//! a step without a token consumes exactly one whitespace character.

use vstd::prelude::*;

verus! {

use crate::scan::digit_run_len;
use crate::scan::ident_run_len;
use crate::scan::ident_token;
use crate::scan::is_digit;
use crate::scan::is_ident_char;
use crate::scan::is_ident_start;
use crate::scan::is_space;
use crate::scan::lemma_step_len_bounds;
use crate::scan::lemma_till_len_le;
use crate::scan::reserved_token;
use crate::scan::scan;
use crate::scan::step_len;
use crate::scan::step_token;
use crate::scan::till_len;
use crate::token::SpecToken;

/// The input characters consumed by the successive scanning steps, piece by
/// piece, in scan order.
pub open spec fn pieces(s: Seq<char>) -> Seq<Seq<char>>
    decreases s.len(),
    via pieces_decreases
{
    if s.len() == 0 {
        Seq::empty()
    } else {
        seq![s.take(step_len(s) as int)] + pieces(s.skip(step_len(s) as int))
    }
}

#[via_fn]
proof fn pieces_decreases(s: Seq<char>) {
    lemma_step_len_bounds(s);
}

/// The scanner emits at most one token per input character: the output is
/// finite, with length bounded by the input's.
pub proof fn lemma_scan_token_count(s: Seq<char>)
    ensures
        scan(s).len() <= s.len(),
    decreases s.len(),
{
    if s.len() > 0 {
        lemma_step_len_bounds(s);
        lemma_scan_token_count(s.skip(step_len(s) as int));
    }
}

/// No character silently vanishes: the pieces consumed by the successive
/// scanning steps concatenate back to exactly the original input.
pub proof fn lemma_pieces_reconstruct_input(s: Seq<char>)
    ensures
        pieces(s).flatten() == s,
    decreases s.len(),
{
    if s.len() == 0 {
        assert(pieces(s).flatten() =~= s);
    } else {
        lemma_step_len_bounds(s);
        let n = step_len(s) as int;
        let p = s.take(n);
        let rest = pieces(s.skip(n));
        lemma_pieces_reconstruct_input(s.skip(n));
        assert(pieces(s).drop_first() =~= rest);
        assert(pieces(s).first() == p);
        assert(pieces(s).flatten() == p + rest.flatten());
        assert(p + s.skip(n) =~= s);
    }
}

/// The characters before the first occurrence of a delimiter differ from
/// it, and the character at that position (when the delimiter occurs at
/// all) is the delimiter itself.
pub proof fn lemma_till_len_found(s: Seq<char>, delim: char)
    ensures
        forall|i: int| 0 <= i < till_len(s, delim) ==> s[i] != delim,
        till_len(s, delim) < s.len() ==> s[till_len(s, delim) as int] == delim,
    decreases s.len(),
{
    if s.len() != 0 && s[0] != delim {
        lemma_till_len_found(s.skip(1), delim);
        lemma_till_len_le(s.skip(1), delim);
        assert(till_len(s, delim) == 1 + till_len(s.skip(1), delim));
        assert forall|i: int| 0 <= i < till_len(s, delim) implies s[i] != delim by {
            if i > 0 {
                assert(s.skip(1)[i - 1] != delim);
            }
        }
        if till_len(s, delim) < s.len() {
            assert(s[till_len(s, delim) as int] == s.skip(1)[till_len(s.skip(1), delim) as int]);
        }
    }
}

/// What a single scanning step's piece may look like, given the token the
/// step emits: the token's matched text, together with at most the
/// delimiter characters that enclose it (the quotes of a string, the `--`
/// and the newline of a comment, the spelling of an operator or keyword),
/// or one discarded whitespace character when no token is emitted.
pub open spec fn piece_shape_ok(t: Option<SpecToken>, p: Seq<char>) -> bool {
    match t {
        None => p.len() == 1 && is_space(p[0]),
        Some(SpecToken::LiteralNumber(w)) => p == w,
        Some(SpecToken::Identifier(w)) => p == w,
        Some(SpecToken::LiteralString(w)) => (p == seq!['"'] + w + seq!['"'] || p == seq!['\''] + w
            + seq!['\''] || p == seq!['"'] + w || p == seq!['\''] + w),
        Some(SpecToken::Comment(w)) => (p == seq!['-', '-'] + w + seq!['\n'] || p == seq!['-', '-']
            + w),
        Some(SpecToken::KeywordLocal) => p == "local"@,
        Some(SpecToken::KeywordIf) => p == "if"@,
        Some(SpecToken::KeywordDo) => p == "do"@,
        Some(SpecToken::KeywordThen) => p == "then"@,
        Some(SpecToken::KeywordWhile) => p == "while"@,
        Some(SpecToken::KeywordRepeat) => p == "repeat"@,
        Some(SpecToken::KeywordUntil) => p == "until"@,
        Some(SpecToken::KeywordEnd) => p == "end"@,
        Some(SpecToken::KeywordElse) => p == "else"@,
        Some(SpecToken::KeywordElseif) => p == "elseif"@,
        Some(SpecToken::KeywordIn) => p == "in"@,
        Some(SpecToken::KeywordBreak) => p == "break"@,
        Some(SpecToken::KeywordContinue) => p == "continue"@,
        Some(SpecToken::KeywordReturn) => p == "return"@,
        Some(SpecToken::KeywordAnd) => p == "and"@,
        Some(SpecToken::KeywordOr) => p == "or"@,
        Some(SpecToken::KeywordNot) => p == "not"@,
        Some(SpecToken::KeywordFor) => p == "for"@,
        Some(SpecToken::KeywordFunction) => p == "function"@,
        Some(SpecToken::LiteralTrue) => p == "true"@,
        Some(SpecToken::LiteralFalse) => p == "false"@,
        Some(SpecToken::LiteralNil) => p == "nil"@,
        Some(SpecToken::OperatorAssignment) => p == seq!['='],
        Some(SpecToken::OperatorEquality) => p == seq!['=', '='],
        Some(SpecToken::OperatorGreater) => p == seq!['>'],
        Some(SpecToken::OperatorGreaterOrEqual) => p == seq!['>', '='],
        Some(SpecToken::OperatorLower) => p == seq!['<'],
        Some(SpecToken::OperatorLowerOrEqual) => p == seq!['<', '='],
        Some(SpecToken::OperatorAddition) => p == seq!['+'],
        Some(SpecToken::OperatorAdditionAssignment) => p == seq!['+', '='],
        Some(SpecToken::OperatorSubtraction) => p == seq!['-'],
        Some(SpecToken::OperatorSubtractionAssignment) => p == seq!['-', '='],
        Some(SpecToken::OperatorUnary) => p == seq!['-'],
        Some(SpecToken::OperatorMultiplication) => p == seq!['*'],
        Some(SpecToken::OperatorMultiplicationAssignment) => p == seq!['*', '='],
        Some(SpecToken::OperatorDivision) => p == seq!['/'],
        Some(SpecToken::OperatorDivisionAssignment) => p == seq!['/', '='],
        Some(SpecToken::OperatorModulus) => p == seq!['%'],
        Some(SpecToken::OperatorModulusAssignment) => p == seq!['%', '='],
        Some(SpecToken::OperatorPower) => p == seq!['^'],
        Some(SpecToken::OperatorPowerAssignment) => p == seq!['^', '='],
        Some(SpecToken::OperatorLen) => p == seq!['#'],
        Some(SpecToken::OpenedBracket) => p == seq!['('],
        Some(SpecToken::ClosedBracket) => p == seq![')'],
        Some(SpecToken::OpenedSquareBracket) => p == seq!['['],
        Some(SpecToken::ClosedSquareBracket) => p == seq![']'],
        Some(SpecToken::OpenedCurlyBracket) => p == seq!['{'],
        Some(SpecToken::ClosedCurlyBracket) => p == seq!['}'],
        Some(SpecToken::UnknownCharacter(c)) => p == seq![c],
    }
}

/// Nothing is invented either: every scanning step's piece has the shape
/// that [`piece_shape_ok`] describes for the token the step emits.
#[verifier::rlimit(30)]
pub proof fn lemma_step_piece_shape(s: Seq<char>)
    requires
        s.len() > 0,
    ensures
        piece_shape_ok(step_token(s), s.take(step_len(s) as int)),
{
    lemma_step_len_bounds(s);
    let c = s[0];
    let p = s.take(step_len(s) as int);
    if is_digit(c) {
    } else if c == '"' || c == '\'' {
        let body = s.skip(1);
        let k = till_len(body, c) as int;
        lemma_till_len_le(body, c);
        lemma_till_len_found(body, c);
        let w = body.take(k);
        if k < body.len() {
            assert(body[k] == c);
            assert(p =~= seq![c] + w + seq![c]);
        } else {
            assert(p =~= seq![c] + w);
        }
    } else if is_ident_start(c) {
    } else if is_space(c) {
        assert(p =~= seq![c]);
    } else if c == '-' {
        if s.len() >= 2 && s[1] == '-' {
            let body = s.skip(2);
            let k = till_len(body, '\n') as int;
            lemma_till_len_le(body, '\n');
            lemma_till_len_found(body, '\n');
            let w = body.take(k);
            if k < body.len() {
                assert(body[k] == '\n');
                assert(p =~= seq!['-', '-'] + w + seq!['\n']);
            } else {
                assert(p =~= seq!['-', '-'] + w);
            }
        } else if s.len() >= 2 && s[1] == '=' {
            assert(p =~= seq!['-', '=']);
        } else {
            assert(p =~= seq!['-']);
        }
    } else if c == '=' || c == '>' || c == '<' || c == '+' || c == '/' || c == '*' || c == '%' || c
        == '^' {
        if s.len() >= 2 && s[1] == '=' {
            assert(p =~= seq![c, '=']);
        } else {
            assert(p =~= seq![c]);
        }
    } else {
        assert(p =~= seq![c]);
    }
}

/// A sequence made of identifier characters alone is one single identifier
/// run.
proof fn lemma_ident_run_len_all(w: Seq<char>)
    requires
        forall|i: int| 0 <= i < w.len() ==> is_ident_char(w[i]),
    ensures
        ident_run_len(w) == w.len(),
    decreases w.len(),
{
    if w.len() > 0 {
        assert(is_ident_char(w[0]));
        assert(forall|i: int| 0 <= i < w.skip(1).len() ==> w.skip(1)[i] == w[i + 1]);
        lemma_ident_run_len_all(w.skip(1));
    }
}

/// A sequence made of ASCII digits alone is one single digit run.
proof fn lemma_digit_run_len_all(w: Seq<char>)
    requires
        forall|i: int| 0 <= i < w.len() ==> is_digit(w[i]),
    ensures
        digit_run_len(w) == w.len(),
    decreases w.len(),
{
    if w.len() > 0 {
        assert(is_digit(w[0]));
        assert(forall|i: int| 0 <= i < w.skip(1).len() ==> w.skip(1)[i] == w[i + 1]);
        lemma_digit_run_len_all(w.skip(1));
    }
}

/// An entire input made of identifier characters, beginning with a letter
/// or `_`, scans to exactly one token: the one the identifier/keyword
/// classification assigns to the whole run.
proof fn lemma_whole_ident_scan(w: Seq<char>)
    requires
        w.len() > 0,
        is_ident_start(w[0]),
        forall|i: int| 0 <= i < w.len() ==> is_ident_char(w[i]),
    ensures
        scan(w) == seq![ident_token(w)],
{
    lemma_ident_run_len_all(w);
    assert(step_len(w) == w.len());
    assert(w.take(w.len() as int) =~= w);
    assert(step_token(w) == Some(ident_token(w)));
    assert(w.skip(w.len() as int) =~= Seq::<char>::empty());
    assert(scan(Seq::<char>::empty()) == Seq::<SpecToken>::empty());
    assert(scan(w) == seq![ident_token(w)] + Seq::<SpecToken>::empty());
    assert(seq![ident_token(w)] + Seq::<SpecToken>::empty() =~= seq![ident_token(w)]);
}

/// Every reserved word of the fixed table, given as the entire input,
/// yields exactly one token: the corresponding keyword or literal token,
/// never an identifier.
#[verifier::rlimit(50)]
pub proof fn lemma_reserved_word_single_token(w: Seq<char>)
    requires
        reserved_token(w) is Some,
    ensures
        scan(w) == seq![reserved_token(w).unwrap()],
        !(reserved_token(w).unwrap() is Identifier),
{
    reveal_strlit("local");
    reveal_strlit("if");
    reveal_strlit("do");
    reveal_strlit("then");
    reveal_strlit("while");
    reveal_strlit("repeat");
    reveal_strlit("until");
    reveal_strlit("end");
    reveal_strlit("else");
    reveal_strlit("elseif");
    reveal_strlit("true");
    reveal_strlit("false");
    reveal_strlit("nil");
    reveal_strlit("in");
    reveal_strlit("break");
    reveal_strlit("continue");
    reveal_strlit("return");
    reveal_strlit("and");
    reveal_strlit("or");
    reveal_strlit("not");
    reveal_strlit("for");
    reveal_strlit("function");
    assert(w.len() > 0);
    assert(is_ident_start(w[0]));
    assert(forall|i: int| 0 <= i < w.len() ==> is_ident_char(w[i]));
    lemma_whole_ident_scan(w);
}

/// Any maximal run of identifier characters that is not a reserved word,
/// given as the entire input, yields exactly one identifier token whose
/// text is the run itself.
pub proof fn lemma_identifier_run_single_token(w: Seq<char>)
    requires
        w.len() > 0,
        is_ident_start(w[0]),
        forall|i: int| 0 <= i < w.len() ==> is_ident_char(w[i]),
        reserved_token(w) is None,
    ensures
        scan(w) == seq![SpecToken::Identifier(w)],
{
    lemma_whole_ident_scan(w);
}

/// A run of ASCII digits, given as the entire input, yields exactly one
/// numeric-literal token whose text is the run verbatim.
pub proof fn lemma_digit_run_single_token(w: Seq<char>)
    requires
        w.len() > 0,
        forall|i: int| 0 <= i < w.len() ==> is_digit(w[i]),
    ensures
        scan(w) == seq![SpecToken::LiteralNumber(w)],
{
    lemma_digit_run_len_all(w);
    assert(step_len(w) == w.len());
    assert(w.take(w.len() as int) =~= w);
    assert(step_token(w) == Some(SpecToken::LiteralNumber(w)));
    assert(w.skip(w.len() as int) =~= Seq::<char>::empty());
    assert(scan(Seq::<char>::empty()) == Seq::<SpecToken>::empty());
    assert(scan(w) == seq![SpecToken::LiteralNumber(w)] + Seq::<SpecToken>::empty());
    assert(seq![SpecToken::LiteralNumber(w)] + Seq::<SpecToken>::empty() =~= seq![
        SpecToken::LiteralNumber(w),
    ]);
}

} // verus!
