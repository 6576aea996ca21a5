//! The executable scanner.
//!
//! A [`Lexer`] owns the input characters together with a cursor that marks
//! how far scanning has advanced; the characters at and after the cursor are
//! the remaining input.  [`Lexer::to_tokens`] consumes the lexer and returns
//! exactly the token sequence that the mathematical scanner [`crate::scan::scan`]
//! assigns to the remaining input.

use vstd::prelude::*;

verus! {

broadcast use vstd::seq_lib::group_seq_properties;

use crate::scan::digit_run_len;
use crate::scan::ident_run_len;
use crate::scan::ident_token;
use crate::scan::is_digit;
use crate::scan::is_ident_char;
use crate::scan::is_ident_start;
use crate::scan::scan;
use crate::scan::step_len;
use crate::scan::step_token;
use crate::scan::till_consumed;
use crate::scan::till_len;
use crate::token::SpecToken;
use crate::token::Token;
use crate::token::TokenData;
use crate::token::lemma_deep_view_is_views_of;
use crate::token::lemma_views_of_push;
use crate::token::views_of;

/// One scanning step that emits a token: appending that token to the output
/// built so far, and moving past the step's characters, preserves the claim
/// that output-so-far plus the scan of the rest is the scan of the whole.
proof fn lemma_step_emits(
    prefix: Seq<SpecToken>,
    t: SpecToken,
    rem: Seq<char>,
    rem2: Seq<char>,
    s0: Seq<char>,
)
    requires
        prefix + scan(rem) == scan(s0),
        rem.len() > 0,
        step_token(rem) == Some(t),
        rem2 == rem.skip(step_len(rem) as int),
    ensures
        prefix.push(t) + scan(rem2) == scan(s0),
{
    assert(scan(rem) == seq![t] + scan(rem2));
    assert(prefix.push(t) + scan(rem2) =~= prefix + (seq![t] + scan(rem2)));
}

/// One scanning step that discards its character (whitespace): moving past
/// it leaves the claim untouched.
proof fn lemma_step_discards(prefix: Seq<SpecToken>, rem: Seq<char>, rem2: Seq<char>, s0: Seq<char>)
    requires
        prefix + scan(rem) == scan(s0),
        rem.len() > 0,
        step_token(rem) is None,
        rem2 == rem.skip(step_len(rem) as int),
    ensures
        prefix + scan(rem2) == scan(s0),
{
    assert(scan(rem) == Seq::<SpecToken>::empty() + scan(rem2));
    assert(Seq::<SpecToken>::empty() + scan(rem2) =~= scan(rem2));
}

/// Relies on `String::push`: it appends the given character to the end of
/// the string.
#[verifier::external_body]
fn push_char(s: &mut String, c: char)
    ensures
        final(s)@ == old(s)@.push(c),
{
    s.push(c)
}

/// Whether `c` is an ASCII decimal digit.
fn is_digit_exec(c: char) -> (b: bool)
    ensures
        b == is_digit(c),
{
    '0' as u32 <= c as u32 && c as u32 <= '9' as u32
}

/// Whether `c` may begin an identifier: an ASCII letter or `_`.
fn is_ident_start_exec(c: char) -> (b: bool)
    ensures
        b == is_ident_start(c),
{
    ('a' as u32 <= c as u32 && c as u32 <= 'z' as u32) || ('A' as u32 <= c as u32 && c as u32
        <= 'Z' as u32) || c == '_'
}

/// Whether `c` may continue an identifier: ASCII letter, digit, or `_`.
fn is_ident_char_exec(c: char) -> (b: bool)
    ensures
        b == is_ident_char(c),
{
    ('a' as u32 <= c as u32 && c as u32 <= 'z' as u32) || ('A' as u32 <= c as u32 && c as u32
        <= 'Z' as u32) || c == '_' || is_digit_exec(c)
}

/// A single-pass scanner over a character stream with one-character
/// lookahead.  It is driven to completion once by [`Lexer::to_tokens`],
/// which consumes it.
pub struct Lexer {
    source: Vec<char>,
    pos: usize,
}

impl Lexer {
    /// The cursor never runs past the end of the input.
    pub closed spec fn wf(self) -> bool {
        self.pos <= self.source.len()
    }

    /// The input characters not yet consumed.
    pub closed spec fn remaining(self) -> Seq<char> {
        self.source@.skip(self.pos as int)
    }

    /// Builds a scanner whose remaining input is exactly `source`.
    pub fn new(source: Vec<char>) -> (lexer: Lexer)
        ensures
            lexer.wf(),
            lexer.remaining() == source@,
    {
        let lexer = Lexer { source, pos: 0 };
        proof {
            assert(lexer.remaining() =~= lexer.source@);
        }
        lexer
    }

    /// Greedily consumes the maximal leading run of ASCII digits and returns
    /// it verbatim.  When the next character is not a digit (or none
    /// remains), the run is empty and nothing is consumed.
    #[verifier::loop_isolation(false)]
    pub fn parse_number(&mut self) -> (r: String)
        requires
            old(self).wf(),
        ensures
            final(self).wf(),
            r@ == old(self).remaining().take(digit_run_len(old(self).remaining()) as int),
            final(self).remaining() == old(self).remaining().skip(
                digit_run_len(old(self).remaining()) as int,
            ),
    {
        let ghost rem0 = old(self).remaining();
        let mut parsed = String::new();
        loop
            invariant
                self.wf(),
                parsed@.len() <= rem0.len(),
                parsed@ == rem0.take(parsed@.len() as int),
                self.remaining() == rem0.skip(parsed@.len() as int),
                digit_run_len(rem0) == parsed@.len() + digit_run_len(self.remaining()),
            decreases self.remaining().len(),
        {
            if self.pos == self.source.len() {
                break;
            }
            let c = self.source[self.pos];
            proof {
                assert(self.remaining()[0] == c);
            }
            if !is_digit_exec(c) {
                break;
            }
            let ghost j = parsed@.len() as int;
            proof {
                assert(digit_run_len(rem0.skip(j)) == 1 + digit_run_len(rem0.skip(j).skip(1)));
                assert(rem0.skip(j).skip(1) =~= rem0.skip(j + 1));
            }
            push_char(&mut parsed, c);
            self.pos = self.pos + 1;
            proof {
                assert(parsed@ =~= rem0.take(j + 1));
                assert(self.remaining() =~= rem0.skip(j + 1));
            }
        }
        parsed
    }

    /// Consumes characters verbatim up to the first occurrence of
    /// `look_out`, returns the text before it, and discards the delimiter
    /// itself.  When the delimiter never occurs, the whole remaining input
    /// is returned.
    #[verifier::loop_isolation(false)]
    pub fn parse_till(&mut self, look_out: char) -> (r: String)
        requires
            old(self).wf(),
        ensures
            final(self).wf(),
            r@ == old(self).remaining().take(till_len(old(self).remaining(), look_out) as int),
            final(self).remaining() == old(self).remaining().skip(
                till_consumed(old(self).remaining(), look_out) as int,
            ),
    {
        let ghost rem0 = old(self).remaining();
        let mut parsed = String::new();
        loop
            invariant
                self.wf(),
                parsed@.len() <= rem0.len(),
                parsed@ == rem0.take(parsed@.len() as int),
                self.remaining() == rem0.skip(parsed@.len() as int),
                till_len(rem0, look_out) == parsed@.len() + till_len(self.remaining(), look_out),
            decreases self.remaining().len(),
        {
            if self.pos == self.source.len() {
                break;
            }
            let c = self.source[self.pos];
            proof {
                assert(self.remaining()[0] == c);
            }
            if c == look_out {
                let ghost j = parsed@.len() as int;
                self.pos = self.pos + 1;
                proof {
                    assert(till_len(rem0, look_out) == j);
                    assert(till_consumed(rem0, look_out) == j + 1);
                    assert(self.remaining() =~= rem0.skip(j + 1));
                }
                return parsed;
            }
            let ghost j = parsed@.len() as int;
            proof {
                assert(till_len(rem0.skip(j), look_out) == 1 + till_len(
                    rem0.skip(j).skip(1),
                    look_out,
                ));
                assert(rem0.skip(j).skip(1) =~= rem0.skip(j + 1));
            }
            push_char(&mut parsed, c);
            self.pos = self.pos + 1;
            proof {
                assert(parsed@ =~= rem0.take(j + 1));
                assert(self.remaining() =~= rem0.skip(j + 1));
            }
        }
        parsed
    }

    /// Greedily consumes the maximal leading run of identifier characters
    /// and classifies it: an exact match in the reserved-word table yields
    /// the corresponding keyword or literal token, any other run yields an
    /// identifier token carrying the run verbatim.
    #[verifier::loop_isolation(false)]
    pub fn parse_identifier(&mut self) -> (t: Token)
        requires
            old(self).wf(),
        ensures
            final(self).wf(),
            t@ == ident_token(
                old(self).remaining().take(ident_run_len(old(self).remaining()) as int),
            ),
            final(self).remaining() == old(self).remaining().skip(
                ident_run_len(old(self).remaining()) as int,
            ),
    {
        let ghost rem0 = old(self).remaining();
        let mut parsed = String::new();
        loop
            invariant
                self.wf(),
                parsed@.len() <= rem0.len(),
                parsed@ == rem0.take(parsed@.len() as int),
                self.remaining() == rem0.skip(parsed@.len() as int),
                ident_run_len(rem0) == parsed@.len() + ident_run_len(self.remaining()),
            decreases self.remaining().len(),
        {
            if self.pos == self.source.len() {
                break;
            }
            let c = self.source[self.pos];
            proof {
                assert(self.remaining()[0] == c);
            }
            if !is_ident_char_exec(c) {
                break;
            }
            let ghost j = parsed@.len() as int;
            proof {
                assert(ident_run_len(rem0.skip(j)) == 1 + ident_run_len(rem0.skip(j).skip(1)));
                assert(rem0.skip(j).skip(1) =~= rem0.skip(j + 1));
            }
            push_char(&mut parsed, c);
            self.pos = self.pos + 1;
            proof {
                assert(parsed@ =~= rem0.take(j + 1));
                assert(self.remaining() =~= rem0.skip(j + 1));
            }
        }
        if parsed == String::from_str("local") {
            Token::KeywordLocal
        } else if parsed == String::from_str("if") {
            Token::KeywordIf
        } else if parsed == String::from_str("do") {
            Token::KeywordDo
        } else if parsed == String::from_str("then") {
            Token::KeywordThen
        } else if parsed == String::from_str("while") {
            Token::KeywordWhile
        } else if parsed == String::from_str("repeat") {
            Token::KeywordRepeat
        } else if parsed == String::from_str("until") {
            Token::KeywordUntil
        } else if parsed == String::from_str("end") {
            Token::KeywordEnd
        } else if parsed == String::from_str("else") {
            Token::KeywordElse
        } else if parsed == String::from_str("elseif") {
            Token::KeywordElseif
        } else if parsed == String::from_str("true") {
            Token::LiteralTrue
        } else if parsed == String::from_str("false") {
            Token::LiteralFalse
        } else if parsed == String::from_str("nil") {
            Token::LiteralNil
        } else if parsed == String::from_str("in") {
            Token::KeywordIn
        } else if parsed == String::from_str("break") {
            Token::KeywordBreak
        } else if parsed == String::from_str("continue") {
            Token::KeywordContinue
        } else if parsed == String::from_str("return") {
            Token::KeywordReturn
        } else if parsed == String::from_str("and") {
            Token::KeywordAnd
        } else if parsed == String::from_str("or") {
            Token::KeywordOr
        } else if parsed == String::from_str("not") {
            Token::KeywordNot
        } else if parsed == String::from_str("for") {
            Token::KeywordFor
        } else if parsed == String::from_str("function") {
            Token::KeywordFunction
        } else {
            Token::Identifier(TokenData { source: parsed })
        }
    }

    /// Drives the scanner to completion: consumes the whole remaining input
    /// and returns the complete, ordered token sequence — exactly the one
    /// the mathematical scanner [`scan`] assigns to that input.  The
    /// operation is total: it never fails, whatever the input holds.
    #[verifier::loop_isolation(false)]
    pub fn to_tokens(self) -> (tokens: Vec<Token>)
        requires
            self.wf(),
        ensures
            tokens.deep_view() == scan(self.remaining()),
    {
        let ghost s0 = self.remaining();
        let mut lexer = self;
        let mut tokens: Vec<Token> = Vec::new();
        proof {
            assert(views_of(tokens@) + scan(lexer.remaining()) =~= scan(s0));
        }
        loop
            invariant
                lexer.wf(),
                views_of(tokens@) + scan(lexer.remaining()) == scan(s0),
            decreases lexer.remaining().len(),
        {
            if lexer.pos == lexer.source.len() {
                break;
            }
            let ghost rem = lexer.remaining();
            let ghost prefix = views_of(tokens@);
            proof {
                crate::scan::lemma_step_len_bounds(rem);
            }
            let c = lexer.source[lexer.pos];
            proof {
                assert(rem[0] == c);
            }
            if c == ' ' || c == '\n' || c == '\r' {
                lexer.pos = lexer.pos + 1;
                proof {
                    assert(lexer.remaining() =~= rem.skip(step_len(rem) as int));
                    lemma_step_discards(prefix, rem, lexer.remaining(), s0);
                }
                continue;
            }
            let tok: Token = if is_digit_exec(c) {
                let parsed = lexer.parse_number();
                Token::LiteralNumber(TokenData { source: parsed })
            } else if c == '"' || c == '\'' {
                lexer.pos = lexer.pos + 1;
                proof {
                    assert(lexer.remaining() =~= rem.skip(1));
                }
                let parsed = lexer.parse_till(c);
                proof {
                    assert(lexer.remaining() =~= rem.skip(step_len(rem) as int));
                }
                Token::LiteralString(TokenData { source: parsed })
            } else if is_ident_start_exec(c) {
                lexer.parse_identifier()
            } else if c == '#' {
                lexer.pos = lexer.pos + 1;
                Token::OperatorLen
            } else if c == '(' {
                lexer.pos = lexer.pos + 1;
                Token::OpenedBracket
            } else if c == ')' {
                lexer.pos = lexer.pos + 1;
                Token::ClosedBracket
            } else if c == '[' {
                lexer.pos = lexer.pos + 1;
                Token::OpenedSquareBracket
            } else if c == ']' {
                lexer.pos = lexer.pos + 1;
                Token::ClosedSquareBracket
            } else if c == '{' {
                lexer.pos = lexer.pos + 1;
                Token::OpenedCurlyBracket
            } else if c == '}' {
                lexer.pos = lexer.pos + 1;
                Token::ClosedCurlyBracket
            } else if c == '-' {
                lexer.pos = lexer.pos + 1;
                proof {
                    assert(lexer.remaining() =~= rem.skip(1));
                }
                if lexer.pos < lexer.source.len() {
                    let next = lexer.source[lexer.pos];
                    proof {
                        assert(rem.skip(1)[0] == next);
                        assert(rem[1] == next);
                    }
                    if next == '-' {
                        lexer.pos = lexer.pos + 1;
                        proof {
                            assert(lexer.remaining() =~= rem.skip(2));
                        }
                        let parsed = lexer.parse_till('\n');
                        proof {
                            assert(lexer.remaining() =~= rem.skip(step_len(rem) as int));
                        }
                        Token::Comment(TokenData { source: parsed })
                    } else if next == '=' {
                        lexer.pos = lexer.pos + 1;
                        proof {
                            assert(lexer.remaining() =~= rem.skip(2));
                        }
                        Token::OperatorSubtractionAssignment
                    } else if next != ' ' {
                        Token::OperatorUnary
                    } else {
                        Token::OperatorSubtraction
                    }
                } else {
                    Token::OperatorSubtraction
                }
            } else if c == '=' || c == '>' || c == '<' || c == '+' || c == '/' || c == '*' || c
                == '%' || c == '^' {
                lexer.pos = lexer.pos + 1;
                proof {
                    assert(lexer.remaining() =~= rem.skip(1));
                }
                let two: bool = if lexer.pos < lexer.source.len() {
                    let next = lexer.source[lexer.pos];
                    proof {
                        assert(rem.skip(1)[0] == next);
                        assert(rem[1] == next);
                    }
                    next == '='
                } else {
                    false
                };
                if two {
                    lexer.pos = lexer.pos + 1;
                    proof {
                        assert(lexer.remaining() =~= rem.skip(2));
                    }
                }
                if c == '=' {
                    if two {
                        Token::OperatorEquality
                    } else {
                        Token::OperatorAssignment
                    }
                } else if c == '>' {
                    if two {
                        Token::OperatorGreaterOrEqual
                    } else {
                        Token::OperatorGreater
                    }
                } else if c == '<' {
                    if two {
                        Token::OperatorLowerOrEqual
                    } else {
                        Token::OperatorLower
                    }
                } else if c == '+' {
                    if two {
                        Token::OperatorAdditionAssignment
                    } else {
                        Token::OperatorAddition
                    }
                } else if c == '/' {
                    if two {
                        Token::OperatorDivisionAssignment
                    } else {
                        Token::OperatorDivision
                    }
                } else if c == '*' {
                    if two {
                        Token::OperatorMultiplicationAssignment
                    } else {
                        Token::OperatorMultiplication
                    }
                } else if c == '%' {
                    if two {
                        Token::OperatorModulusAssignment
                    } else {
                        Token::OperatorModulus
                    }
                } else {
                    if two {
                        Token::OperatorPowerAssignment
                    } else {
                        Token::OperatorPower
                    }
                }
            } else {
                lexer.pos = lexer.pos + 1;
                Token::UnknownCharacter(c)
            };
            proof {
                assert(lexer.remaining() =~= rem.skip(step_len(rem) as int));
                assert(step_token(rem) == Some(tok@));
            }
            let ghost toks0 = tokens@;
            tokens.push(tok);
            proof {
                lemma_views_of_push(toks0, tok);
                lemma_step_emits(prefix, tok@, rem, lexer.remaining(), s0);
            }
        }
        proof {
            assert(lexer.remaining() =~= Seq::<char>::empty());
            assert(views_of(tokens@) =~= views_of(tokens@) + scan(lexer.remaining()));
            lemma_deep_view_is_views_of(&tokens);
        }
        tokens
    }
}

} // verus!
