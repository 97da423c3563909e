//! Lexical tokens and the tokenizer of the language's concrete syntax.
//!
//! A token carries its kind, its text and its 1-based line and column.
//! Tokenizing never fails: a character that belongs to no token kind
//! becomes an `Unknown` token, which the lowering layer later rejects.

use vstd::prelude::*;
use vstd::std_specs::iter::IteratorSpec;

verus! {

/// The kind of a lexical token.
#[derive(Debug, Clone, Copy, PartialEq, Eq, Structural)]
pub enum TokKind {
    LBrace,
    RBrace,
    Semicolon,
    Equals,
    Plus,
    Minus,
    Star,
    Slash,
    LParen,
    RParen,
    Dot,
    Apostrophe,
    Ident,
    Integer,
    KwIf,
    Unknown,
    Eof,
}

/// One lexical token: kind, text, and 1-based source position.
#[derive(Debug, PartialEq)]
pub struct Token {
    pub kind: TokKind,
    pub text: String,
    pub line: usize,
    pub column: usize,
}

/// Ghost model of a token.
#[verifier::ext_equal]
pub struct TokenSpec {
    pub kind: TokKind,
    pub text: Seq<char>,
    pub line: int,
    pub column: int,
}

impl View for Token {
    type V = TokenSpec;

    open spec fn view(&self) -> TokenSpec {
        TokenSpec { kind: self.kind, text: self.text@, line: self.line as int, column: self.column as int }
    }
}

impl Clone for Token {
    /// A clone is structurally equal to the original.
    fn clone(&self) -> (res: Self)
        ensures
            res == *self,
    {
        Token {
            kind: self.kind,
            text: self.text.clone(),
            line: self.line,
            column: self.column,
        }
    }
}

/// Ghost model of a token sequence.
pub open spec fn tokens_view(ts: Seq<Token>) -> Seq<TokenSpec>
    decreases ts,
{
    if ts.len() == 0 {
        Seq::empty()
    } else {
        tokens_view(ts.drop_last()).push(ts.last()@)
    }
}

/// The model of a token sequence is elementwise.
pub broadcast proof fn lemma_tokens_view(ts: Seq<Token>)
    ensures
        (#[trigger] tokens_view(ts)).len() == ts.len(),
        forall|i: int| 0 <= i < ts.len() ==> tokens_view(ts)[i] == ts[i]@,
    decreases ts.len(),
{
    if ts.len() > 0 {
        lemma_tokens_view(ts.drop_last());
    }
}

/// Whether `c` is a decimal digit.
pub open spec fn lex_digit(c: char) -> bool {
    '0' as int <= c as int <= '9' as int
}

/// Whether `c` can start an identifier.
pub open spec fn ident_start(c: char) -> bool {
    ('a' as int <= c as int <= 'z' as int) || ('A' as int <= c as int <= 'Z' as int) || c == '_'
}

/// Whether `c` can continue an identifier.
pub open spec fn ident_cont(c: char) -> bool {
    ident_start(c) || lex_digit(c)
}

/// Whitespace other than a newline.
pub open spec fn plain_space(c: char) -> bool {
    c == ' ' || c == '\t' || c == '\r'
}

/// The kind of a single-character token.
pub open spec fn single_kind(c: char) -> TokKind {
    if c == '{' {
        TokKind::LBrace
    } else if c == '}' {
        TokKind::RBrace
    } else if c == ';' {
        TokKind::Semicolon
    } else if c == '=' {
        TokKind::Equals
    } else if c == '+' {
        TokKind::Plus
    } else if c == '-' {
        TokKind::Minus
    } else if c == '*' {
        TokKind::Star
    } else if c == '/' {
        TokKind::Slash
    } else if c == '(' {
        TokKind::LParen
    } else if c == ')' {
        TokKind::RParen
    } else if c == '.' {
        TokKind::Dot
    } else if c == '\'' {
        TokKind::Apostrophe
    } else {
        TokKind::Unknown
    }
}

/// The first position at or after `i` that no longer continues a run
/// of digits.
pub open spec fn digits_end(s: Seq<char>, i: int) -> int
    decreases s.len() - i,
{
    if i < 0 || i >= s.len() || !lex_digit(s[i]) {
        i
    } else {
        digits_end(s, i + 1)
    }
}

/// The first position at or after `i` that no longer continues an
/// identifier.
pub open spec fn ident_end(s: Seq<char>, i: int) -> int
    decreases s.len() - i,
{
    if i < 0 || i >= s.len() || !ident_cont(s[i]) {
        i
    } else {
        ident_end(s, i + 1)
    }
}

/// A digit run's end stays within the text.
pub proof fn lemma_digits_end_bounds(s: Seq<char>, i: int)
    requires
        0 <= i <= s.len(),
    ensures
        i <= digits_end(s, i) <= s.len(),
    decreases s.len() - i,
{
    if i < s.len() && lex_digit(s[i]) {
        lemma_digits_end_bounds(s, i + 1);
    }
}

/// An identifier run's end stays within the text.
pub proof fn lemma_ident_end_bounds(s: Seq<char>, i: int)
    requires
        0 <= i <= s.len(),
    ensures
        i <= ident_end(s, i) <= s.len(),
    decreases s.len() - i,
{
    if i < s.len() && ident_cont(s[i]) {
        lemma_ident_end_bounds(s, i + 1);
    }
}

/// The keyword text.
pub open spec fn if_text() -> Seq<char> {
    seq!['i', 'f']
}

/// The tokens of the text from position `i` on, with the position's
/// 1-based line and column, ending in one `Eof` token.
pub open spec fn spec_lex(s: Seq<char>, i: int, line: int, col: int) -> Seq<TokenSpec>
    decreases s.len() - i,
{
    if i < 0 || i >= s.len() {
        seq![TokenSpec { kind: TokKind::Eof, text: Seq::empty(), line, column: col }]
    } else {
        let c = s[i];
        if c == '\n' {
            spec_lex(s, i + 1, line + 1, 1)
        } else if plain_space(c) {
            spec_lex(s, i + 1, line, col + 1)
        } else if lex_digit(c) {
            let e = digits_end(s, i + 1);
            let j = if i + 1 <= e && e <= s.len() {
                e
            } else {
                i + 1
            };
            seq![
                TokenSpec { kind: TokKind::Integer, text: s.subrange(i, j), line, column: col },
            ] + spec_lex(s, j, line, col + (j - i))
        } else if ident_start(c) {
            let e = ident_end(s, i + 1);
            let j = if i + 1 <= e && e <= s.len() {
                e
            } else {
                i + 1
            };
            let txt = s.subrange(i, j);
            let kind = if txt == if_text() {
                TokKind::KwIf
            } else {
                TokKind::Ident
            };
            seq![TokenSpec { kind, text: txt, line, column: col }] + spec_lex(
                s,
                j,
                line,
                col + (j - i),
            )
        } else {
            seq![TokenSpec { kind: single_kind(c), text: seq![c], line, column: col }] + spec_lex(
                s,
                i + 1,
                line,
                col + 1,
            )
        }
    }
}

/// The characters of a string, in order.
pub fn str_chars(s: &str) -> (v: Vec<char>)
    ensures
        v@ == s@,
{
    let mut it = s.chars();
    let mut v: Vec<char> = Vec::new();
    loop
        invariant
            it.obeys_prophetic_iter_laws(),
            v@ + it.remaining() == s@,
        decreases s@.len() - v@.len(),
    {
        match it.next() {
            Option::Some(c) => {
                v.push(c);
                proof {
                    assert(v@ + it.remaining() =~= s@);
                }
            },
            Option::None => {
                proof {
                    assert(v@ =~= s@);
                }
                return v;
            },
        }
    }
}

/// Relies on `String: FromIterator<char>`: collecting characters
/// yields the string of exactly those characters, in order.
#[verifier::external_body]
fn chars_to_string(v: &Vec<char>) -> (r: String)
    ensures
        r@ == v@,
{
    v.iter().collect()
}

/// Tokenize the whole text: exactly the tokens of `spec_lex`, ending
/// in one `Eof` token.
#[verifier::loop_isolation(false)]
#[verifier::rlimit(60)]
pub fn lex(src: &Vec<char>) -> (toks: Vec<Token>)
    requires
        src@.len() < usize::MAX,
    ensures
        tokens_view(toks@) == spec_lex(src@, 0, 1, 1),
{
    let mut toks: Vec<Token> = Vec::new();
    let mut i: usize = 0;
    let mut line: usize = 1;
    let mut col: usize = 1;
    proof {
        assert(tokens_view(toks@) + spec_lex(src@, 0, 1, 1) =~= spec_lex(src@, 0, 1, 1));
    }
    while i < src.len()
        invariant
            i <= src@.len(),
            1 <= line <= i + 1,
            1 <= col <= i + 1,
            spec_lex(src@, 0, 1, 1) == tokens_view(toks@) + spec_lex(
                src@,
                i as int,
                line as int,
                col as int,
            ),
        decreases src@.len() - i,
    {
        let ghost toks_before = toks@;
        let ghost rest_before = spec_lex(src@, i as int, line as int, col as int);
        let c = src[i];
        if c == '\n' {
            i = i + 1;
            line = line + 1;
            col = 1;
        } else if c == ' ' || c == '\t' || c == '\r' {
            i = i + 1;
            col = col + 1;
        } else if c >= '0' && c <= '9' {
            let start = i;
            let mut tv: Vec<char> = Vec::new();
            tv.push(c);
            let mut j = i + 1;
            proof {
                assert(tv@ =~= src@.subrange(start as int, j as int));
            }
            while j < src.len() && src[j] >= '0' && src[j] <= '9'
                invariant
                    start + 1 <= j <= src@.len(),
                    tv@ == src@.subrange(start as int, j as int),
                    digits_end(src@, start + 1) == digits_end(src@, j as int),
                decreases src@.len() - j,
            {
                tv.push(src[j]);
                j = j + 1;
                proof {
                    assert(tv@ =~= src@.subrange(start as int, j as int));
                }
            }
            proof {
                assert(digits_end(src@, j as int) == j);
                lemma_digits_end_bounds(src@, start + 1);
            }
            let text = chars_to_string(&tv);
            let tok = Token { kind: TokKind::Integer, text, line, column: col };
            let ghost tok_spec = tok@;
            toks.push(tok);
            proof {
                assert(toks@.drop_last() =~= toks_before);
                assert(toks@.last()@ == tok_spec);
                assert(tokens_view(toks@) =~= tokens_view(toks_before).push(tok_spec));
                assert(rest_before == seq![tok_spec] + spec_lex(
                    src@,
                    j as int,
                    line as int,
                    col + (j - i) as int,
                ));
                assert(tokens_view(toks@) + spec_lex(
                    src@,
                    j as int,
                    line as int,
                    col + (j - i) as int,
                ) =~= tokens_view(toks_before) + rest_before);
            }
            col = col + (j - i);
            i = j;
        } else if (c >= 'a' && c <= 'z') || (c >= 'A' && c <= 'Z') || c == '_' {
            let start = i;
            let mut tv: Vec<char> = Vec::new();
            tv.push(c);
            let mut j = i + 1;
            proof {
                assert(tv@ =~= src@.subrange(start as int, j as int));
            }
            while j < src.len() && ((src[j] >= 'a' && src[j] <= 'z') || (src[j] >= 'A' && src[j]
                <= 'Z') || src[j] == '_' || (src[j] >= '0' && src[j] <= '9'))
                invariant
                    start + 1 <= j <= src@.len(),
                    tv@ == src@.subrange(start as int, j as int),
                    ident_end(src@, start + 1) == ident_end(src@, j as int),
                decreases src@.len() - j,
            {
                tv.push(src[j]);
                j = j + 1;
                proof {
                    assert(tv@ =~= src@.subrange(start as int, j as int));
                }
            }
            proof {
                assert(ident_end(src@, j as int) == j);
                lemma_ident_end_bounds(src@, start + 1);
            }
            let is_if = tv.len() == 2 && tv[0] == 'i' && tv[1] == 'f';
            proof {
                if is_if {
                    assert(tv@ =~= if_text());
                } else if tv@ == if_text() {
                    assert(tv@.len() == 2);
                    assert(tv@[0] == 'i' && tv@[1] == 'f');
                    assert(false);
                }
            }
            let kind = if is_if {
                TokKind::KwIf
            } else {
                TokKind::Ident
            };
            let text = chars_to_string(&tv);
            let tok = Token { kind, text, line, column: col };
            let ghost tok_spec = tok@;
            toks.push(tok);
            proof {
                assert(toks@.drop_last() =~= toks_before);
                assert(toks@.last()@ == tok_spec);
                assert(tokens_view(toks@) =~= tokens_view(toks_before).push(tok_spec));
                assert(rest_before == seq![tok_spec] + spec_lex(
                    src@,
                    j as int,
                    line as int,
                    col + (j - i) as int,
                ));
                assert(tokens_view(toks@) + spec_lex(
                    src@,
                    j as int,
                    line as int,
                    col + (j - i) as int,
                ) =~= tokens_view(toks_before) + rest_before);
            }
            col = col + (j - i);
            i = j;
        } else {
            let kind = if c == '{' {
                TokKind::LBrace
            } else if c == '}' {
                TokKind::RBrace
            } else if c == ';' {
                TokKind::Semicolon
            } else if c == '=' {
                TokKind::Equals
            } else if c == '+' {
                TokKind::Plus
            } else if c == '-' {
                TokKind::Minus
            } else if c == '*' {
                TokKind::Star
            } else if c == '/' {
                TokKind::Slash
            } else if c == '(' {
                TokKind::LParen
            } else if c == ')' {
                TokKind::RParen
            } else if c == '.' {
                TokKind::Dot
            } else if c == '\'' {
                TokKind::Apostrophe
            } else {
                TokKind::Unknown
            };
            let mut tv: Vec<char> = Vec::new();
            tv.push(c);
            proof {
                assert(tv@ =~= seq![c]);
            }
            let text = chars_to_string(&tv);
            let tok = Token { kind, text, line, column: col };
            let ghost tok_spec = tok@;
            toks.push(tok);
            proof {
                assert(toks@.drop_last() =~= toks_before);
                assert(toks@.last()@ == tok_spec);
                assert(tokens_view(toks@) =~= tokens_view(toks_before).push(tok_spec));
                assert(rest_before == seq![tok_spec] + spec_lex(
                    src@,
                    i + 1,
                    line as int,
                    col + 1,
                ));
                assert(tokens_view(toks@) + spec_lex(src@, i + 1, line as int, col + 1)
                    =~= tokens_view(toks_before) + rest_before);
            }
            i = i + 1;
            col = col + 1;
        }
    }
    let eof_tok = Token { kind: TokKind::Eof, text: String::new(), line, column: col };
    let ghost eof_spec = eof_tok@;
    let ghost toks_before = toks@;
    toks.push(eof_tok);
    proof {
        assert(toks@.drop_last() =~= toks_before);
        assert(toks@.last()@ == eof_spec);
        assert(tokens_view(toks@) =~= tokens_view(toks_before).push(eof_spec));
        assert(spec_lex(src@, i as int, line as int, col as int) =~= seq![eof_spec]);
        assert(tokens_view(toks@) =~= tokens_view(toks_before) + seq![eof_spec]);
    }
    toks
}

} // verus!
