use vstd::prelude::*;
use vstd::string::StrSliceExecFns;

use crate::multipeek::MultiPeek;
use crate::multipeek::multipeek;
use crate::rules;
use crate::token::ErrorModel;
use crate::token::Token;
use crate::token::TokenModel;
use crate::token::TokenizationError;
use crate::token::token_views;

verus! {

/// A single left-to-right pass over one source text.
///
/// The scanner owns a lookahead buffer of `(position, character)` pairs for
/// the characters not yet consumed, and a 0-based line counter that every
/// consumed newline advances — including newlines inside string literals and
/// line comments.  Positions count characters of the source, and every
/// lexeme borrows from the source text handed to [`Scanner::new`].
pub struct Scanner<'s> {
    src: &'s str,
    iter: MultiPeek<(usize, char)>,
    line: usize,
}

impl<'s> View for Scanner<'s> {
    type V = Seq<char>;

    /// The characters of the source text being scanned.
    closed spec fn view(&self) -> Seq<char> {
        self.src@
    }
}

impl<'s> Scanner<'s> {
    /// The position of the next character to consume: how many characters of
    /// the source have been consumed so far.
    pub closed spec fn pos(&self) -> int {
        self.src@.len() - self.iter.items().len()
    }

    /// The current value of the line counter.
    pub closed spec fn cur_line(&self) -> nat {
        self.line as nat
    }

    /// The peek cursor of the underlying lookahead buffer.
    pub closed spec fn peek_cursor(&self) -> nat {
        self.iter.peek_pos()
    }

    /// The lookahead buffer holds exactly the unconsumed suffix of the
    /// source, each character paired with its position.
    pub closed spec fn wf(&self) -> bool {
        &&& self.src@.len() <= usize::MAX
        &&& self.iter.items().len() <= self.src@.len()
        &&& forall|k: int|
            0 <= k < self.iter.items().len() ==> #[trigger] self.iter.items()[k] == (
            ((self.pos() + k) as usize),
            self.src@[self.pos() + k],
            )
    }

    /// A fresh scanner over `src`: nothing consumed, line counter at 0.
    pub fn new(src: &'s str) -> (r: Scanner<'s>)
        ensures
            r.wf(),
            r@ == src@,
            r.pos() == 0,
            r.cur_line() == 0,
            r.peek_cursor() == 0,
    {
        let n = src.unicode_len();
        let mut pairs: Vec<(usize, char)> = Vec::new();
        let mut i: usize = 0;
        while i < n
            invariant
                n == src@.len(),
                i <= n,
                pairs@.len() == i,
                forall|k: int| 0 <= k < i ==> #[trigger] pairs@[k] == ((k as usize), src@[k]),
            decreases n - i,
        {
            let c = src.get_char(i);
            pairs.push((i, c));
            i = i + 1;
        }
        Scanner { src, iter: multipeek(pairs), line: 0 }
    }

    /// Consumes the next `(position, character)` pair, if any, resetting the
    /// peek cursor.
    fn advance(&mut self) -> (r: Option<(usize, char)>)
        requires
            old(self).wf(),
        ensures
            final(self).wf(),
            final(self)@ == old(self)@,
            final(self).cur_line() == old(self).cur_line(),
            final(self).peek_cursor() == 0,
            ({
                let p = old(self).pos();
                let s = old(self)@;
                if p < s.len() {
                    &&& r == Some(((p as usize), s[p]))
                    &&& final(self).pos() == p + 1
                } else {
                    &&& r is None
                    &&& final(self).pos() == p
                }
            }),
    {
        let r = self.iter.next();
        proof {
            if old(self).iter.items().len() > 0 {
                assert forall|k: int| 0 <= k < self.iter.items().len() implies #[trigger] self
                    .iter
                    .items()[k] == (((self.pos() + k) as usize), self.src@[self.pos() + k]) by {
                    assert(self.iter.items()[k] == old(self).iter.items()[k + 1]);
                }
            }
        }
        r
    }

    /// Whether `c` is an ASCII decimal digit.
    pub fn is_digit(c: char) -> (r: bool)
        ensures
            r == rules::is_digit_char(c),
    {
        c >= '0' && c <= '9'
    }

    /// Peeks one character ahead; when it equals `expected`, consumes it and
    /// returns its position, else consumes nothing.  On a mismatch the peek
    /// cursor is left one past the front, so a further peek without an
    /// intervening consumption or reset would examine the character after
    /// the mismatching one; on exhausted input it stays at the front.
    pub fn next_if_char_is(&mut self, expected: char) -> (r: Option<usize>)
        requires
            old(self).wf(),
            old(self).peek_cursor() == 0,
        ensures
            final(self).wf(),
            final(self)@ == old(self)@,
            final(self).cur_line() == old(self).cur_line(),
            ({
                let p = old(self).pos();
                let s = old(self)@;
                if p < s.len() && s[p] == expected {
                    &&& r == Some(p as usize)
                    &&& final(self).pos() == p + 1
                    &&& final(self).peek_cursor() == 0
                } else {
                    &&& r is None
                    &&& final(self).pos() == p
                    &&& final(self).peek_cursor() == if p < s.len() {
                        1nat
                    } else {
                        0nat
                    }
                }
            }),
    {
        let index = match self.iter.peek() {
            Some(pair) => {
                let idx: usize = pair.0;
                let ch: char = pair.1;
                if expected == ch {
                    Some(idx)
                } else {
                    None
                }
            },
            _ => None,
        };
        if index.is_some() {
            self.advance();
        }
        index
    }

    /// Peeks one character ahead; when `f` accepts it, consumes it and
    /// returns its position, else consumes nothing.  On a rejection the peek
    /// cursor is left one past the front, so a further peek without an
    /// intervening consumption or reset would examine the character after
    /// the rejected one; on exhausted input `f` has nothing to judge and the
    /// cursor stays at the front.
    pub fn next_if_char_is_f<F: Fn(char) -> bool>(&mut self, f: F) -> (r: Option<usize>)
        requires
            old(self).wf(),
            old(self).peek_cursor() == 0,
            forall|c: char| #[trigger] f.requires((c,)),
        ensures
            final(self).wf(),
            final(self)@ == old(self)@,
            final(self).cur_line() == old(self).cur_line(),
            ({
                let p = old(self).pos();
                let s = old(self)@;
                match r {
                    Some(i) => {
                        &&& p < s.len()
                        &&& i == p
                        &&& f.ensures((s[p],), true)
                        &&& final(self).pos() == p + 1
                        &&& final(self).peek_cursor() == 0
                    },
                    None => {
                        &&& final(self).pos() == p
                        &&& (p < s.len() ==> f.ensures((s[p],), false))
                        &&& final(self).peek_cursor() == if p < s.len() {
                            1nat
                        } else {
                            0nat
                        }
                    },
                }
            }),
    {
        let index = match self.iter.peek() {
            Some(pair) => {
                let idx: usize = pair.0;
                let ch: char = pair.1;
                if f(ch) {
                    Some(idx)
                } else {
                    None
                }
            },
            _ => None,
        };
        if index.is_some() {
            self.advance();
        }
        index
    }

    /// Classifies the single token starting with the character `c` at
    /// position `start`, which the caller has just consumed.  Produces
    /// exactly the token [`rules::token_step`] describes, consuming exactly
    /// the characters of that token and advancing the line counter over any
    /// newline consumed along the way.
    #[verifier::loop_isolation(false)]
    pub fn scan_token(&mut self, start: usize, c: char) -> (r: Result<
        Token<'s>,
        TokenizationError,
    >)
        requires
            old(self).wf(),
            old(self).peek_cursor() == 0,
            start < old(self)@.len(),
            old(self).pos() == start + 1,
            c == old(self)@[start as int],
            !rules::is_blank(c),
            c != '\n',
            old(self).cur_line() + (old(self)@.len() - start) <= usize::MAX,
        ensures
            final(self).wf(),
            final(self)@ == old(self)@,
            ({
                let step = rules::token_step(old(self)@, start as int, old(self).cur_line());
                &&& final(self).pos() == step.end
                &&& final(self).cur_line() == step.line
                &&& match r {
                    Ok(t) => step.result == Ok::<TokenModel, ErrorModel>(t@),
                    Err(e) => step.result == Err::<TokenModel, ErrorModel>(e@),
                }
            }),
    {
        let ghost s = self@;
        let ghost line0 = self.cur_line();
        let src = self.src;
        if c == '(' {
            Ok(Token::LeftParen { line: self.line })
        } else if c == ')' {
            Ok(Token::RightParen { line: self.line })
        } else if c == '!' {
            if let Some(_) = self.next_if_char_is('=') {
                Ok(Token::BangEqual { line: self.line })
            } else {
                Ok(Token::Bang { line: self.line })
            }
        } else if c == '"' {
            proof {
                assert(s.subrange(start + 1, start + 1) =~= Seq::<char>::empty());
            }
            loop
                invariant
                    self.wf(),
                    self@ == s,
                    start + 1 <= self.pos() <= s.len(),
                    forall|j: int| start + 1 <= j < self.pos() ==> s[j] != '"',
                    self.cur_line() == line0 + rules::newline_count(
                        s.subrange(start + 1, self.pos()),
                    ),
                    self.cur_line() + (s.len() - self.pos()) <= usize::MAX,
                decreases s.len() - self.pos(),
            {
                let ghost p = self.pos();
                match self.advance() {
                    None => {
                        proof {
                            rules::lemma_find_from_is(s, start + 1, '"', s.len() as int);
                        }
                        return Err(TokenizationError::NoStringDelimiterFound);
                    },
                    Some(pair) => {
                        let current = pair.0;
                        let ch = pair.1;
                        proof {
                            rules::lemma_newline_count_extend(s, start + 1, p);
                        }
                        if ch == '\n' {
                            self.line = self.line + 1;
                        }
                        if ch == '"' {
                            proof {
                                rules::lemma_find_from_is(s, start + 1, '"', current as int);
                            }
                            let lexeme = src.substring_char(start + 1, current);
                            return Ok(Token::String { line: self.line, lexeme });
                        }
                    },
                }
            }
        } else if c == '/' {
            if let Some(_) = self.next_if_char_is('/') {
                let line_comment = self.line;
                loop
                    invariant
                        self.wf(),
                        self@ == s,
                        start + 2 <= self.pos() <= s.len(),
                        forall|j: int| start + 2 <= j < self.pos() ==> s[j] != '\n',
                        self.cur_line() == line0,
                    decreases s.len() - self.pos(),
                {
                    match self.advance() {
                        None => {
                            proof {
                                rules::lemma_find_from_is(s, start + 2, '\n', s.len() as int);
                            }
                            let n = src.unicode_len();
                            let lexeme = src.substring_char(start, n);
                            return Ok(Token::Comment { line: line_comment, lexeme });
                        },
                        Some(pair) => {
                            let index = pair.0;
                            let ch = pair.1;
                            if ch == '\n' {
                                self.line = self.line + 1;
                                proof {
                                    rules::lemma_find_from_is(s, start + 2, '\n', index as int);
                                }
                                let lexeme = src.substring_char(start, index + 1);
                                return Ok(Token::Comment { line: line_comment, lexeme });
                            }
                        },
                    }
                }
            } else {
                Ok(Token::Slash)
            }
        } else if Scanner::is_digit(c) {
            let mut last_index: usize = start;
            let mut done = false;
            while !done
                invariant
                    self.wf(),
                    self@ == s,
                    self.cur_line() == line0,
                    last_index + 1 == self.pos(),
                    start + 1 <= self.pos() <= s.len(),
                    forall|j: int| start + 1 <= j < self.pos() ==> rules::is_digit_char(s[j]),
                    !done ==> self.peek_cursor() == 0,
                    done ==> self.pos() == rules::digit_run_end(s, start + 1),
                decreases s.len() - self.pos() + if done {
                    0int
                } else {
                    1int
                },
            {
                match self.next_if_char_is_f(Scanner::is_digit) {
                    Some(i) => {
                        last_index = i;
                    },
                    None => {
                        proof {
                            rules::lemma_digit_run_end_is(s, start + 1, self.pos());
                        }
                        done = true;
                    },
                }
            }
            self.iter.reset_peek();
            if let Some(dot) = self.next_if_char_is('.') {
                last_index = dot;
                let mut done_frac = false;
                while !done_frac
                    invariant
                        self.wf(),
                        self@ == s,
                        self.cur_line() == line0,
                        last_index + 1 == self.pos(),
                        dot + 1 <= self.pos() <= s.len(),
                        forall|j: int| dot + 1 <= j < self.pos() ==> rules::is_digit_char(s[j]),
                        !done_frac ==> self.peek_cursor() == 0,
                        done_frac ==> self.pos() == rules::digit_run_end(s, dot + 1),
                    decreases s.len() - self.pos() + if done_frac {
                        0int
                    } else {
                        1int
                    },
                {
                    match self.next_if_char_is_f(Scanner::is_digit) {
                        Some(i) => {
                            last_index = i;
                        },
                        None => {
                            proof {
                                rules::lemma_digit_run_end_is(s, dot + 1, self.pos());
                            }
                            done_frac = true;
                        },
                    }
                }
            }
            let lexeme = src.substring_char(start, last_index + 1);
            Ok(Token::Number { line: self.line, lexeme })
        } else {
            Err(TokenizationError::UnrecognizedToken { line: self.line })
        }
    }

    /// Scans the whole remaining source, resetting the line counter to 0
    /// first.  Returns the token sequence that the lexical rules
    /// ([`rules::scan_from`]) assign to the unconsumed part of the source, or
    /// the error that aborted the scan.
    #[verifier::loop_isolation(false)]
    pub fn scan(&mut self) -> (r: Result<Vec<Token<'s>>, TokenizationError>)
        requires
            old(self).wf(),
        ensures
            final(self).wf(),
            final(self)@ == old(self)@,
            ({
                let res = rules::scan_from(old(self)@, old(self).pos(), 0);
                match r {
                    Ok(tokens) => res == Ok::<Seq<TokenModel>, ErrorModel>(token_views(tokens@)),
                    Err(e) => res == Err::<Seq<TokenModel>, ErrorModel>(e@),
                }
            }),
    {
        self.line = 0;
        let mut tokens: Vec<Token<'s>> = Vec::new();
        let ghost s = self@;
        let ghost pos0 = self.pos();
        proof {
            match rules::scan_from(s, pos0, 0) {
                Ok(rest) => {
                    assert(token_views(tokens@) + rest =~= rest);
                },
                Err(_) => {},
            }
        }
        let mut done = false;
        while !done
            invariant
                self.wf(),
                self@ == s,
                self.cur_line() + (s.len() - self.pos()) <= usize::MAX,
                rules::scan_from(s, pos0, 0) == (match rules::scan_from(
                    s,
                    self.pos(),
                    self.cur_line(),
                ) {
                    Ok(rest) => Ok::<Seq<TokenModel>, ErrorModel>(token_views(tokens@) + rest),
                    Err(e) => Err::<Seq<TokenModel>, ErrorModel>(e),
                }),
                done ==> self.pos() == s.len(),
            decreases s.len() - self.pos() + if done {
                0int
            } else {
                1int
            },
        {
            let ghost p = self.pos();
            let ghost l = self.cur_line();
            match self.advance() {
                None => {
                    done = true;
                },
                Some(pair) => {
                    let index = pair.0;
                    let ch = pair.1;
                    if ch == ' ' || ch == '\r' || ch == '\t' {
                        // skipped silently
                    } else if ch == '\n' {
                        self.line = self.line + 1;
                    } else {
                        match self.scan_token(index, ch) {
                            Ok(t) => {
                                let ghost toks_old = tokens@;
                                tokens.push(t);
                                proof {
                                    rules::lemma_token_step_bounds(s, p, l);
                                    let step = rules::token_step(s, p, l);
                                    assert(token_views(tokens@) =~= token_views(toks_old) + seq![
                                        t@,
                                    ]);
                                    match rules::scan_from(s, step.end, step.line) {
                                        Ok(rest) => {
                                            assert(token_views(toks_old) + (seq![t@] + rest)
                                                =~= token_views(tokens@) + rest);
                                        },
                                        Err(_) => {},
                                    }
                                }
                            },
                            Err(e) => {
                                return Err(e);
                            },
                        }
                    }
                },
            }
        }
        proof {
            assert(rules::scan_from(s, self.pos(), self.cur_line()) == Ok::<
                Seq<TokenModel>,
                ErrorModel,
            >(Seq::<TokenModel>::empty()));
            assert(token_views(tokens@) + Seq::<TokenModel>::empty() =~= token_views(tokens@));
        }
        Ok(tokens)
    }
}

} // verus!
