use vstd::prelude::*;
use vstd::std_specs::iter::IteratorSpec;
use vstd::string::StrSliceExecFns;

use crate::token::{Tok, Token};

verus! {

/// A decimal digit.
pub open spec fn is_digit(c: char) -> bool {
    '0' <= c <= '9'
}

/// A character that continues a numeric literal once a digit has opened it.
pub open spec fn continues_literal(c: char) -> bool {
    is_digit(c) || c == '.'
}

/// How many characters from `i` on continue a numeric literal.
pub open spec fn literal_run(s: Seq<char>, i: int) -> nat
    decreases s.len() - i,
{
    if 0 <= i < s.len() && continues_literal(s[i]) {
        1 + literal_run(s, i + 1)
    } else {
        0
    }
}

/// A literal never runs past the end of the text.
pub proof fn lemma_literal_run_bound(s: Seq<char>, i: int)
    requires
        0 <= i,
    ensures
        i + literal_run(s, i) <= if i <= s.len() { s.len() as int } else { i },
    decreases s.len() - i,
{
    if 0 <= i < s.len() && continues_literal(s[i]) {
        lemma_literal_run_bound(s, i + 1);
    }
}

/// The token that starts at position `i` of `s`, with the position just past
/// it; `None` where `i` holds a character that opens no token. Past the end
/// of the text the token is `Eof`, and the position stays.
pub open spec fn scan(s: Seq<char>, i: int) -> Option<(Tok, int)> {
    if i >= s.len() {
        Some((Tok::Eof, i))
    } else {
        let c = s[i];
        if c == '+' {
            Some((Tok::Add, i + 1))
        } else if c == '-' {
            Some((Tok::Subtract, i + 1))
        } else if c == '*' {
            Some((Tok::Multiply, i + 1))
        } else if c == '/' {
            Some((Tok::Divide, i + 1))
        } else if c == '(' {
            Some((Tok::LParen, i + 1))
        } else if c == ')' {
            Some((Tok::RParen, i + 1))
        } else if c == '^' {
            Some((Tok::Pow, i + 1))
        } else if is_digit(c) {
            let j = i + 1 + literal_run(s, i + 1);
            Some((Tok::Number(s.subrange(i, j)), j))
        } else {
            None
        }
    }
}

/// The tokens that successive scans produce from position `i` on: up to and
/// including `Eof`, or up to (and without) the first character that opens
/// no token. A negative position has none.
pub open spec fn tokens_from(s: Seq<char>, i: int) -> Seq<Tok>
    decreases s.len() - i,
{
    if i < 0 {
        seq![]
    } else {
        match scan(s, i) {
            None => seq![],
            Some((t, j)) => if t is Eof {
                seq![t]
            } else {
                proof {
                    lemma_literal_run_bound(s, i + 1);
                }
                seq![t] + tokens_from(s, j)
            },
        }
    }
}

/// Produces the tokens of a text one at a time, on demand.
pub struct Lexer {
    text: String,
    chars: Vec<char>,
    pos: usize,
}

impl Lexer {
    /// The characters being scanned.
    pub closed spec fn input(&self) -> Seq<char> {
        self.chars@
    }

    /// How many characters have been consumed.
    pub closed spec fn position(&self) -> int {
        self.pos as int
    }

    /// The position lies within the text, and both copies of it agree.
    pub closed spec fn wf(&self) -> bool {
        &&& self.pos <= self.chars.len()
        &&& self.text@ == self.chars@
    }

    /// A lexer at the start of `input`.
    pub fn new(input: &str) -> (r: Lexer)
        ensures
            r.wf(),
            r.input() == input@,
            r.position() == 0,
    {
        broadcast use vstd::string::group_string_axioms;

        let mut chars: Vec<char> = Vec::new();
        let mut it = input.chars();
        loop
            invariant
                chars@ + it.remaining() == input@,
            ensures
                chars@ == input@,
            decreases input@.len() - chars@.len(),
        {
            match it.next() {
                Some(c) => {
                    chars.push(c);
                },
                None => {
                    assert(chars@ =~= input@);
                    break ;
                },
            }
        }
        Lexer { text: input.to_owned(), chars, pos: 0 }
    }

    /// Produces the token at the current position and moves past it; `None`
    /// where the character there opens no token, which is then skipped.
    pub fn next(&mut self) -> (r: Option<Token>)
        requires
            old(self).wf(),
        ensures
            final(self).wf(),
            final(self).input() == old(self).input(),
            match scan(old(self).input(), old(self).position()) {
                Some((t, j)) => r is Some && r->0@ == t && final(self).position() == j,
                None => r is None && final(self).position() == old(self).position() + 1,
            },
    {
        let n = self.chars.len();
        if self.pos >= n {
            return Some(Token::EOF);
        }
        let start = self.pos;
        let c = self.chars[start];
        self.pos = start + 1;
        if c == '+' {
            Some(Token::Add)
        } else if c == '-' {
            Some(Token::Subtract)
        } else if c == '*' {
            Some(Token::Multiply)
        } else if c == '/' {
            Some(Token::Divide)
        } else if c == '(' {
            Some(Token::LParen)
        } else if c == ')' {
            Some(Token::RParen)
        } else if c == '^' {
            Some(Token::Pow)
        } else if '0' <= c && c <= '9' {
            let ghost s = self.chars@;
            let mut j: usize = start + 1;
            while j < n && ('0' <= self.chars[j] && self.chars[j] <= '9' || self.chars[j] == '.')
                invariant
                    start < j <= n,
                    n == self.chars.len(),
                    s == self.chars@,
                    j + literal_run(s, j as int) == start + 1 + literal_run(s, start + 1),
                decreases n - j,
            {
                j = j + 1;
            }
            self.pos = j;
            let literal = self.text.as_str().substring_char(start, j).to_owned();
            Some(Token::Number(literal))
        } else {
            None
        }
    }
}

} // verus!
