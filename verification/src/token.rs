//! The lexer: turns a raw byte buffer into an ordered sequence of classified
//! tokens.
//!
//! A run of bytes not in {space, tab, semicolon, newline} accumulates into the
//! current word; any of those four bytes ends it. A non-empty word becomes one
//! token: a Number when its first byte is `#` or an ASCII digit, else a
//! Keyword. A newline additionally emits a distinct Newline token after any
//! pending word, since newlines terminate declarations. A word left pending at
//! the end of the buffer emits no token.

use vstd::prelude::*;

use crate::number::{get_number, word_value};
use crate::text::{bytes_to_string, chars_of};

verus! {

/// Classification of one lexical unit.
#[derive(Clone, Copy, PartialEq, Eq, Debug)]
pub enum TokenKind {
    Keyword,
    Number,
    Newline,
}

/// One classified lexical unit: its kind, its raw source text (each source
/// byte read as the character with that code), and, for Number tokens, its
/// signed integer value.
#[derive(Clone, PartialEq, Eq, Debug)]
pub struct Token {
    pub kind: TokenKind,
    pub text: String,
    pub value: i32,
}

/// The mathematical shape of a token: kind, text characters, numeric value.
pub struct TokenModel {
    pub kind: TokenKind,
    pub text: Seq<char>,
    pub value: i32,
}

impl View for Token {
    type V = TokenModel;

    open spec fn view(&self) -> TokenModel {
        TokenModel { kind: self.kind, text: self.text@, value: self.value }
    }
}

/// The view of a token sequence.
pub open spec fn tokens_view(ts: Seq<Token>) -> Seq<TokenModel> {
    ts.map_values(|t: Token| t@)
}

/// Whether a byte ends the current word: space, tab, newline or semicolon.
pub open spec fn is_separator(b: u8) -> bool {
    b == 32 || b == 9 || b == 10 || b == 59
}

/// Whether a word's bytes form a numeric literal: first byte `#` or a digit.
pub open spec fn is_number_word(w: Seq<u8>) -> bool {
    w.len() > 0 && (w[0] == 35 || (48 <= w[0] && w[0] <= 57))
}

/// The token a non-empty word becomes.
pub open spec fn word_token(w: Seq<u8>) -> TokenModel {
    if is_number_word(w) {
        TokenModel { kind: TokenKind::Number, text: chars_of(w), value: word_value(w) }
    } else {
        TokenModel { kind: TokenKind::Keyword, text: chars_of(w), value: 0 }
    }
}

/// The statement-terminator token a newline byte emits.
pub open spec fn newline_token() -> TokenModel {
    TokenModel { kind: TokenKind::Newline, text: "\n"@, value: 0 }
}

/// The tokens lexed from `input` at positions `i` onward, with `word` the
/// bytes of the word accumulated so far.
pub open spec fn lex_from(input: Seq<u8>, i: int, word: Seq<u8>) -> Seq<TokenModel>
    decreases input.len() - i,
{
    if i < 0 || i >= input.len() {
        Seq::empty()
    } else {
        let b = input[i];
        if is_separator(b) {
            let flushed: Seq<TokenModel> = if word.len() > 0 {
                seq![word_token(word)]
            } else {
                Seq::empty()
            };
            let nl: Seq<TokenModel> = if b == 10 {
                seq![newline_token()]
            } else {
                Seq::empty()
            };
            flushed + nl + lex_from(input, i + 1, Seq::empty())
        } else {
            lex_from(input, i + 1, word.push(b))
        }
    }
}

/// The tokens lexed from a whole byte buffer.
pub open spec fn lex(input: Seq<u8>) -> Seq<TokenModel> {
    lex_from(input, 0, Seq::empty())
}

/// Builds the token of a non-empty word.
fn make_word_token(word: Vec<u8>) -> (t: Token)
    requires
        word@.len() > 0,
    ensures
        t@ == word_token(word@),
{
    let text = bytes_to_string(&word);
    let b0 = word[0];
    if b0 == 35 || (48 <= b0 && b0 <= 57) {
        let value = get_number(word);
        Token { kind: TokenKind::Number, text, value }
    } else {
        Token { kind: TokenKind::Keyword, text, value: 0 }
    }
}

/// Lexes a raw byte buffer into its token sequence.
pub fn tokenize(input: &Vec<u8>) -> (r: Vec<Token>)
    ensures
        tokens_view(r@) == lex(input@),
{
    let mut tokens: Vec<Token> = Vec::new();
    let mut start: usize = 0;
    let mut i: usize = 0;
    proof {
        assert(input@.subrange(0, 0) =~= Seq::<u8>::empty());
        assert(tokens_view(tokens@) =~= Seq::<TokenModel>::empty());
        assert(lex(input@) =~= tokens_view(tokens@) + lex_from(input@, 0, input@.subrange(0, 0)));
    }
    while i < input.len()
        invariant
            0 <= start <= i <= input@.len(),
            lex(input@) == tokens_view(tokens@) + lex_from(
                input@,
                i as int,
                input@.subrange(start as int, i as int),
            ),
        decreases input@.len() - i,
    {
        let b = input[i];
        if b == 32 || b == 9 || b == 10 || b == 59 {
            let ghost pre_word = input@.subrange(start as int, i as int);
            let ghost pre_tokens = tokens@;
            let ghost flushed: Seq<TokenModel> = if pre_word.len() > 0 {
                seq![word_token(pre_word)]
            } else {
                Seq::empty()
            };
            let ghost nl: Seq<TokenModel> = if b == 10 {
                seq![newline_token()]
            } else {
                Seq::empty()
            };
            if i > start {
                let mut word: Vec<u8> = Vec::new();
                let mut j: usize = start;
                while j < i
                    invariant
                        start <= j <= i <= input@.len(),
                        word@ == input@.subrange(start as int, j as int),
                    decreases i - j,
                {
                    word.push(input[j]);
                    proof {
                        assert(word@ =~= input@.subrange(start as int, j + 1 as int));
                    }
                    j = j + 1;
                }
                let tok = make_word_token(word);
                tokens.push(tok);
            }
            if b == 10 {
                let tok = Token {
                    kind: TokenKind::Newline,
                    text: String::from_str("\n"),
                    value: 0,
                };
                tokens.push(tok);
            }
            start = i + 1;
            proof {
                assert(input@.subrange(start as int, start as int) =~= Seq::<u8>::empty());
                assert(tokens_view(tokens@) =~= tokens_view(pre_tokens) + flushed + nl);
                assert(lex_from(input@, i as int, pre_word) == flushed + nl + lex_from(
                    input@,
                    i + 1 as int,
                    Seq::empty(),
                ));
                assert(tokens_view(pre_tokens) + (flushed + nl + lex_from(
                    input@,
                    i + 1 as int,
                    Seq::empty(),
                )) =~= (tokens_view(pre_tokens) + flushed + nl) + lex_from(
                    input@,
                    i + 1 as int,
                    Seq::empty(),
                ));
            }
        } else {
            proof {
                assert(input@.subrange(start as int, i + 1 as int) =~= input@.subrange(
                    start as int,
                    i as int,
                ).push(b));
            }
        }
        i = i + 1;
    }
    tokens
}

} // verus!
