//! The scanner: a maximal-munch lexer that consumes a source buffer and
//! produces a finite, one-pass sequence of token-or-lexical-error values.
//!
//! The scanner holds the source as a sequence of characters, a cursor over
//! the unconsumed remainder, and a 1-based line counter. Each call of
//! [`Scanner::next`] is proved to take exactly the step that the
//! mathematical model [`model::spec_next`] describes.

pub mod error;
pub mod model;

use vstd::prelude::*;
use vstd::string::StrSliceExecFns;

use crate::scanner::error::Error;
use crate::scanner::model::{count_lines, spec_next, SpecLexError};
use crate::token::{push_char, SpecToken, Token, TokenKind};

verus! {

/// The view of one scanner outcome.
pub open spec fn out_view(r: Option<Result<Token, Error>>) -> Option<
    Result<SpecToken, SpecLexError>,
> {
    match r {
        Option::None => Option::None,
        Option::Some(Result::Ok(t)) => Option::Some(Result::Ok(t@)),
        Option::Some(Result::Err(e)) => Option::Some(Result::Err(e@)),
    }
}

/// The scanner over one source buffer. A scanner is a single-pass,
/// non-restartable producer: constructing a new one is the only way to
/// re-scan.
pub struct Scanner {
    /// The source text, one entry per character.
    source: Vec<char>,
    /// Index of the next unconsumed character.
    pos: usize,
    /// 1-based line number reached.
    line: usize,
}

impl Scanner {
    /// The characters of the source buffer.
    pub closed spec fn src(&self) -> Seq<char> {
        self.source@
    }

    /// The cursor: how many characters have been consumed.
    pub closed spec fn position(&self) -> nat {
        self.pos as nat
    }

    /// The 1-based line number reached.
    pub closed spec fn line_number(&self) -> nat {
        self.line as nat
    }

    /// The scanner's internal invariant: the cursor lies within the
    /// source, and the 1-based line counter never exceeds 1 plus the
    /// number of newlines already consumed (so it stays representable).
    pub closed spec fn wf(&self) -> bool {
        &&& self.pos <= self.source.len()
        &&& self.source.len() < usize::MAX
        &&& 1 <= self.line
        &&& self.line as nat <= 1 + count_lines(self.source@, 0, self.pos as nat)
    }

    /// Builds a scanner over `source`, at its start, on line 1.
    ///
    /// The length bound is a machine limit: the line counter must stay
    /// representable even when every character is a newline.
    pub fn new(source: &str) -> (sc: Scanner)
        requires
            source@.len() < usize::MAX,
        ensures
            sc.wf(),
            sc.src() == source@,
            sc.position() == 0,
            sc.line_number() == 1,
    {
        let n = source.unicode_len();
        let mut chars: Vec<char> = Vec::new();
        let mut i: usize = 0;
        while i < n
            invariant
                i <= n,
                n == source@.len(),
                chars@ == source@.subrange(0, i as int),
            decreases n - i,
        {
            let c = source.get_char(i);
            chars.push(c);
            proof {
                assert(chars@ =~= source@.subrange(0, i + 1));
            }
            i = i + 1;
        }
        proof {
            assert(chars@ =~= source@);
        }
        Scanner { source: chars, pos: 0, line: 1 }
    }

    /// A token of the given kind with no lexeme, at the current line and
    /// cursor.
    fn just(&self, kind: TokenKind) -> (t: Token)
        ensures
            t@ == (SpecToken {
                kind: kind@,
                lexeme: Option::None,
                line: self.line as nat,
                offset: self.pos as nat,
            }),
    {
        Token::new(kind, Option::None, self.line, self.pos)
    }

    /// A token of the given kind carrying `lexeme`, at the current line,
    /// starting at `offset`.
    fn with_lexeme(&self, kind: TokenKind, lexeme: String, offset: usize) -> (t: Token)
        ensures
            t@ == (SpecToken {
                kind: kind@,
                lexeme: Option::Some(lexeme@),
                line: self.line as nat,
                offset: offset as nat,
            }),
    {
        Token::new(kind, Option::Some(lexeme), self.line, offset)
    }

    /// Emits a one-character token of the given kind and consumes it.
    fn single(&mut self, kind: TokenKind) -> (t: Token)
        requires
            old(self).wf(),
            old(self).position() < old(self).src().len(),
            old(self).src()[old(self).position() as int] != '\n',
        ensures
            final(self).wf(),
            final(self).src() == old(self).src(),
            final(self).position() == old(self).position() + 1,
            final(self).line_number() == old(self).line_number(),
            t@ == (SpecToken {
                kind: kind@,
                lexeme: Option::None,
                line: old(self).line_number(),
                offset: old(self).position(),
            }),
    {
        let t = self.just(kind);
        proof {
            crate::scanner::model::lemma_count_lines_split(
                self.source@,
                0,
                self.pos as nat,
                (self.pos + 1) as nat,
            );
            crate::scanner::model::lemma_count_lines_one(self.source@, self.pos as nat);
        }
        self.pos = self.pos + 1;
        t
    }

    /// Emits a two-character token of the given kind and consumes both
    /// characters.
    fn double(&mut self, kind: TokenKind) -> (t: Token)
        requires
            old(self).wf(),
            old(self).position() + 1 < old(self).src().len(),
            old(self).src()[old(self).position() as int] != '\n',
            old(self).src()[old(self).position() + 1 as int] != '\n',
        ensures
            final(self).wf(),
            final(self).src() == old(self).src(),
            final(self).position() == old(self).position() + 2,
            final(self).line_number() == old(self).line_number(),
            t@ == (SpecToken {
                kind: kind@,
                lexeme: Option::None,
                line: old(self).line_number(),
                offset: old(self).position(),
            }),
    {
        let t = self.just(kind);
        proof {
            crate::scanner::model::lemma_count_lines_split(
                self.source@,
                0,
                self.pos as nat,
                (self.pos + 1) as nat,
            );
            crate::scanner::model::lemma_count_lines_split(
                self.source@,
                0,
                (self.pos + 1) as nat,
                (self.pos + 2) as nat,
            );
            crate::scanner::model::lemma_count_lines_one(self.source@, self.pos as nat);
            crate::scanner::model::lemma_count_lines_one(self.source@, (self.pos + 1) as nat);
        }
        self.pos = self.pos + 2;
        t
    }

    /// Consumes one whitespace character, counting a newline.
    fn whitespace(&mut self, c: char)
        requires
            old(self).wf(),
            old(self).position() < old(self).src().len(),
            old(self).src()[old(self).position() as int] == c,
            crate::scanner::model::is_space(c),
        ensures
            final(self).wf(),
            final(self).src() == old(self).src(),
            final(self).position() == old(self).position() + 1,
            final(self).line_number() == old(self).line_number() + (if c == '\n' {
                1nat
            } else {
                0nat
            }),
    {
        proof {
            crate::scanner::model::lemma_count_lines_split(
                self.source@,
                0,
                self.pos as nat,
                (self.pos + 1) as nat,
            );
            crate::scanner::model::lemma_count_lines_le(self.source@, 0, self.pos as nat);
            crate::scanner::model::lemma_count_lines_one(self.source@, self.pos as nat);
        }
        if c == '\n' {
            self.line = self.line + 1;
        }
        self.pos = self.pos + 1;
    }

    /// The source characters `self.source[i..j]` as an owned string.
    fn span_string(&self, i: usize, j: usize) -> (r: String)
        requires
            i <= j <= self.src().len(),
        ensures
            r@ == self.src().subrange(i as int, j as int),
    {
        let mut r = String::new();
        let mut k = i;
        while k < j
            invariant
                i <= k <= j <= self.source@.len(),
                r@ == self.source@.subrange(i as int, k as int),
            decreases j - k,
        {
            push_char(&mut r, self.source[k]);
            proof {
                assert(r@ =~= self.source@.subrange(i as int, k + 1));
            }
            k = k + 1;
        }
        r
    }

    /// Whether the source characters `self.source[i..j]` spell exactly the
    /// string `lit`.
    fn span_is(&self, i: usize, j: usize, lit: &str) -> (r: bool)
        requires
            i <= j <= self.src().len(),
        ensures
            r == (self.src().subrange(i as int, j as int) == lit@),
    {
        let n = lit.unicode_len();
        if j - i != n {
            proof {
                assert(self.src().subrange(i as int, j as int).len() == j - i);
            }
            return false;
        }
        let mut k: usize = 0;
        while k < n
            invariant
                k <= n,
                n == lit@.len(),
                i + n == j,
                j <= self.source@.len(),
                forall|m: int| 0 <= m < k ==> self.source@[i + m] == lit@[m],
            decreases n - k,
        {
            if self.source[i + k] != lit.get_char(k) {
                proof {
                    assert(self.src().subrange(i as int, j as int)[k as int] != lit@[k as int]);
                }
                return false;
            }
            k = k + 1;
        }
        proof {
            assert(self.src().subrange(i as int, j as int) =~= lit@);
        }
        true
    }

    /// Swallows a line comment: consumes through the next newline
    /// (inclusive, counting it) or through the end of input.
    fn line_comment(&mut self)
        requires
            old(self).wf(),
            old(self).position() + 1 < old(self).src().len(),
            old(self).src()[old(self).position() as int] == '/',
            old(self).src()[old(self).position() + 1 as int] == '/',
        ensures
            final(self).wf(),
            final(self).src() == old(self).src(),
            match crate::scanner::model::find_char(old(self).src(), old(self).position(), '\n') {
                Option::Some(nl) => final(self).position() == nl + 1 && final(self).line_number()
                    == old(self).line_number() + 1,
                Option::None => final(self).position() == old(self).src().len()
                    && final(self).line_number() == old(self).line_number(),
            },
    {
        let ghost s = self.source@;
        let ghost p0 = self.pos as nat;
        let mut p = self.pos;
        while p < self.source.len() && self.source[p] != '\n'
            invariant
                p0 <= p <= s.len(),
                s == self.source@,
                forall|k: int| p0 <= k < p ==> s[k] != '\n',
            decreases s.len() - p,
        {
            p = p + 1;
        }
        proof {
            crate::scanner::model::lemma_find_char(s, p0, '\n');
            crate::scanner::model::lemma_count_lines_le(s, 0, p0);
            crate::scanner::model::lemma_count_lines_split(s, 0, p0, p as nat);
            crate::scanner::model::lemma_count_lines_zero(s, p0, p as nat);
        }
        if p < self.source.len() {
            proof {
                crate::scanner::model::lemma_count_lines_split(s, 0, p as nat, (p + 1) as nat);
                crate::scanner::model::lemma_count_lines_one(s, p as nat);
            }
            self.line = self.line + 1;
            self.pos = p + 1;
        } else {
            self.pos = p;
        }
    }

    /// Swallows a block comment through the matching `*/`, counting
    /// embedded newlines. Without a terminator it fails with
    /// `MissingBlockCommentTerminator` naming the opening `/*` and its
    /// line, and discards the remaining input.
    fn block_comment(&mut self) -> (r: Result<(), Error>)
        requires
            old(self).wf(),
            old(self).position() + 1 < old(self).src().len(),
            old(self).src()[old(self).position() as int] == '/',
            old(self).src()[old(self).position() + 1 as int] == '*',
        ensures
            final(self).wf(),
            final(self).src() == old(self).src(),
            match crate::scanner::model::find_block_end(old(self).src(), old(self).position() + 2) {
                Option::Some(star) => r is Ok && final(self).position() == star + 2
                    && final(self).line_number() == old(self).line_number() + count_lines(
                    old(self).src(),
                    old(self).position() + 2,
                    star,
                ),
                Option::None => (match r {
                    Result::Err(e) => e@ == (SpecLexError::MissingBlockCommentTerminator {
                        line: old(self).line_number(),
                        offset: old(self).position(),
                    }),
                    Result::Ok(_) => false,
                }) && final(self).position() == old(self).src().len() && final(self).line_number()
                    == old(self).line_number(),
            },
    {
        let ghost s = self.source@;
        let ghost p0 = self.pos as nat;
        let line0 = self.line;
        let off = self.pos;
        let mut p = self.pos + 2;
        proof {
            crate::scanner::model::lemma_count_lines_le(s, 0, p0);
        }
        while !(p + 1 < self.source.len() && self.source[p] == '*' && self.source[p + 1] == '/')
            && p < self.source.len()
            invariant
                p0 + 2 <= p <= s.len(),
                s == self.source@,
                s.len() < usize::MAX,
                forall|k: int|
                    p0 + 2 <= k < p ==> !((#[trigger] s[k]) == '*' && k + 1 < s.len() && s[k + 1]
                        == '/'),
                line0 == old(self).line_number(),
                line0 as nat <= 1 + count_lines(s, 0, p0),
                self.line as nat == line0 + count_lines(s, p0 + 2, p as nat),
                self.pos == old(self).pos,
                self.source == old(self).source,
            decreases s.len() - p,
        {
            proof {
                crate::scanner::model::lemma_count_lines_split(s, 0, p0, p0 + 2);
                crate::scanner::model::lemma_count_lines_split(s, 0, p0 + 2, p as nat);
                crate::scanner::model::lemma_count_lines_le(s, 0, p as nat);
                crate::scanner::model::lemma_count_lines_split(s, p0 + 2, p as nat, (p + 1) as nat);
                crate::scanner::model::lemma_count_lines_one(s, p as nat);
            }
            if self.source[p] == '\n' {
                self.line = self.line + 1;
            }
            p = p + 1;
        }
        proof {
            crate::scanner::model::lemma_find_block_end(s, p0 + 2);
        }
        if p < self.source.len() {
            proof {
                crate::scanner::model::lemma_count_lines_split(s, 0, p0 + 2, p as nat);
                crate::scanner::model::lemma_count_lines_split(s, 0, p as nat, (p + 2) as nat);
                crate::scanner::model::lemma_count_lines_le(s, p as nat, (p + 2) as nat);
                crate::scanner::model::lemma_count_lines_split(s, 0, p0, p0 + 2);
            }
            self.pos = p + 2;
            Result::Ok(())
        } else {
            self.pos = self.source.len();
            self.line = line0;
            proof {
                crate::scanner::model::lemma_count_lines_split(s, 0, p0, s.len());
            }
            Result::Err(Error::MissingBlockCommentTerminator { line: line0, offset: off })
        }
    }

    /// Lexes a string literal: the cursor stands on the opening quote.
    /// Embedded newlines count toward the line number; the token carries
    /// the content without quotes as payload and the quoted text as
    /// lexeme. Without a closing quote it fails with `UnterminatedString`
    /// naming the opening quote and its line, and discards the remaining
    /// input.
    fn string(&mut self) -> (r: Result<Token, Error>)
        requires
            old(self).wf(),
            old(self).position() < old(self).src().len(),
            old(self).src()[old(self).position() as int] == '"',
        ensures
            final(self).wf(),
            final(self).src() == old(self).src(),
            ({
                let sp = crate::scanner::model::spec_string(
                    old(self).src(),
                    old(self).position(),
                    old(self).line_number(),
                );
                &&& (match r {
                    Result::Ok(t) => sp.out == Option::Some(Result::<SpecToken, SpecLexError>::Ok(t@)),
                    Result::Err(e) => sp.out == Option::Some(
                        Result::<SpecToken, SpecLexError>::Err(e@),
                    ),
                })
                &&& final(self).position() == sp.pos
                &&& final(self).line_number() == sp.line
            }),
    {
        let ghost s = self.source@;
        let ghost p0 = self.pos as nat;
        let line0 = self.line;
        let off = self.pos;
        let mut p = self.pos + 1;
        proof {
            crate::scanner::model::lemma_count_lines_le(s, 0, p0);
        }
        while p < self.source.len() && self.source[p] != '"'
            invariant
                p0 + 1 <= p <= s.len(),
                s == self.source@,
                s.len() < usize::MAX,
                forall|k: int| p0 + 1 <= k < p ==> s[k] != '"',
                line0 == old(self).line_number(),
                line0 as nat <= 1 + count_lines(s, 0, p0),
                self.line as nat == line0 + count_lines(s, p0 + 1, p as nat),
                self.pos == old(self).pos,
                self.source == old(self).source,
            decreases s.len() - p,
        {
            proof {
                crate::scanner::model::lemma_count_lines_split(s, 0, p0, p0 + 1);
                crate::scanner::model::lemma_count_lines_split(s, 0, p0 + 1, p as nat);
                crate::scanner::model::lemma_count_lines_le(s, 0, p as nat);
                crate::scanner::model::lemma_count_lines_split(s, p0 + 1, p as nat, (p + 1) as nat);
                crate::scanner::model::lemma_count_lines_one(s, p as nat);
            }
            if self.source[p] == '\n' {
                self.line = self.line + 1;
            }
            p = p + 1;
        }
        proof {
            crate::scanner::model::lemma_find_char(s, p0 + 1, '"');
        }
        if p < self.source.len() {
            let content = self.span_string(off + 1, p);
            let lexeme = self.span_string(off, p + 1);
            let t = self.with_lexeme(TokenKind::Str(content), lexeme, off);
            proof {
                crate::scanner::model::lemma_count_lines_split(s, 0, p0 + 1, p as nat);
                crate::scanner::model::lemma_count_lines_split(s, 0, p0, p0 + 1);
                crate::scanner::model::lemma_count_lines_split(s, 0, p as nat, (p + 1) as nat);
                crate::scanner::model::lemma_count_lines_le(s, p as nat, (p + 1) as nat);
            }
            self.pos = p + 1;
            Result::Ok(t)
        } else {
            self.pos = self.source.len();
            self.line = line0;
            proof {
                crate::scanner::model::lemma_count_lines_split(s, 0, p0, s.len());
            }
            Result::Err(Error::UnterminatedString { line: line0, offset: off })
        }
    }

    /// Lexes a number literal: the cursor stands on a digit. The token
    /// covers the longest digit run, extended over a dot only when at
    /// least one digit follows it; a trailing dot is left for the next
    /// step.
    fn number(&mut self) -> (t: Token)
        requires
            old(self).wf(),
            old(self).position() < old(self).src().len(),
            crate::scanner::model::is_digit(old(self).src()[old(self).position() as int]),
        ensures
            final(self).wf(),
            final(self).src() == old(self).src(),
            ({
                let sp = crate::scanner::model::spec_number(
                    old(self).src(),
                    old(self).position(),
                    old(self).line_number(),
                );
                &&& sp.out == Option::Some(Result::<SpecToken, SpecLexError>::Ok(t@))
                &&& final(self).position() == sp.pos
                &&& final(self).line_number() == sp.line
            }),
    {
        let ghost s = self.source@;
        let ghost p0 = self.pos as nat;
        let off = self.pos;
        let mut p = self.pos;
        while p < self.source.len() && digit_char(self.source[p])
            invariant
                p0 <= p <= s.len(),
                s == self.source@,
                forall|k: int| p0 <= k < p ==> crate::scanner::model::is_digit(s[k]),
                self == old(self),
            decreases s.len() - p,
        {
            p = p + 1;
        }
        proof {
            crate::scanner::model::lemma_digits_end(s, p0);
            assert(p as nat == crate::scanner::model::digits_end(s, p0));
        }
        let mut end = p;
        if p < self.source.len() && self.source[p] == '.' && p + 1 < self.source.len()
            && digit_char(self.source[p + 1]) {
            let mut q = p + 1;
            while q < self.source.len() && digit_char(self.source[q])
                invariant
                    p + 1 <= q <= s.len(),
                    s == self.source@,
                    forall|k: int| p + 1 <= k < q ==> crate::scanner::model::is_digit(s[k]),
                    self == old(self),
                decreases s.len() - q,
            {
                q = q + 1;
            }
            proof {
                crate::scanner::model::lemma_digits_end(s, (p + 1) as nat);
                assert(q as nat == crate::scanner::model::digits_end(s, (p + 1) as nat));
            }
            end = q;
        }
        let text = self.span_string(off, end);
        let payload = text.clone();
        let t = self.with_lexeme(TokenKind::Number(payload), text, off);
        proof {
            crate::scanner::model::lemma_count_lines_split(s, 0, p0, end as nat);
        }
        self.pos = end;
        t
    }

    /// Lexes an identifier or keyword: the cursor stands on a letter or
    /// underscore. The longest identifier run is matched against the
    /// sixteen reserved words; a match yields that keyword kind, anything
    /// else an `Identifier` carrying its text.
    fn identifier(&mut self) -> (t: Token)
        requires
            old(self).wf(),
            old(self).position() < old(self).src().len(),
            crate::scanner::model::is_ident_start(old(self).src()[old(self).position() as int]),
        ensures
            final(self).wf(),
            final(self).src() == old(self).src(),
            ({
                let sp = crate::scanner::model::spec_identifier(
                    old(self).src(),
                    old(self).position(),
                    old(self).line_number(),
                );
                &&& sp.out == Option::Some(Result::<SpecToken, SpecLexError>::Ok(t@))
                &&& final(self).position() == sp.pos
                &&& final(self).line_number() == sp.line
            }),
    {
        let ghost s = self.source@;
        let ghost p0 = self.pos as nat;
        let off = self.pos;
        let mut p = self.pos;
        while p < self.source.len() && ident_char(self.source[p])
            invariant
                p0 <= p <= s.len(),
                s == self.source@,
                forall|k: int| p0 <= k < p ==> crate::scanner::model::is_ident_char(s[k]),
                self == old(self),
            decreases s.len() - p,
        {
            p = p + 1;
        }
        proof {
            crate::scanner::model::lemma_ident_end(s, p0);
            assert(p as nat == crate::scanner::model::ident_end(s, p0));
        }
        let t = if self.span_is(off, p, "and") {
            self.just(TokenKind::And)
        } else if self.span_is(off, p, "class") {
            self.just(TokenKind::Class)
        } else if self.span_is(off, p, "else") {
            self.just(TokenKind::Else)
        } else if self.span_is(off, p, "false") {
            self.just(TokenKind::False)
        } else if self.span_is(off, p, "for") {
            self.just(TokenKind::For)
        } else if self.span_is(off, p, "fun") {
            self.just(TokenKind::Fun)
        } else if self.span_is(off, p, "if") {
            self.just(TokenKind::If)
        } else if self.span_is(off, p, "nil") {
            self.just(TokenKind::Nil)
        } else if self.span_is(off, p, "or") {
            self.just(TokenKind::Or)
        } else if self.span_is(off, p, "print") {
            self.just(TokenKind::Print)
        } else if self.span_is(off, p, "return") {
            self.just(TokenKind::Return)
        } else if self.span_is(off, p, "super") {
            self.just(TokenKind::Super)
        } else if self.span_is(off, p, "this") {
            self.just(TokenKind::This)
        } else if self.span_is(off, p, "true") {
            self.just(TokenKind::True)
        } else if self.span_is(off, p, "var") {
            self.just(TokenKind::Var)
        } else if self.span_is(off, p, "while") {
            self.just(TokenKind::While)
        } else {
            let text = self.span_string(off, p);
            self.with_lexeme(TokenKind::Identifier, text, off)
        };
        proof {
            crate::scanner::model::lemma_count_lines_split(s, 0, p0, p as nat);
        }
        self.pos = p;
        t
    }

    /// One scanner step: `None` at clean end of input, otherwise the next
    /// token or lexical error. Whitespace and comments are consumed
    /// silently; the step taken is exactly the one the model
    /// [`spec_next`] describes for the scanner's state before the call.
    #[verifier::loop_isolation(false)]
    pub fn next(&mut self) -> (r: Option<Result<Token, Error>>)
        requires
            old(self).wf(),
        ensures
            final(self).wf(),
            final(self).src() == old(self).src(),
            ({
                let sp = spec_next(old(self).src(), old(self).position(), old(self).line_number());
                &&& out_view(r) == sp.out
                &&& final(self).position() == sp.pos
                &&& final(self).line_number() == sp.line
            }),
    {
        let ghost s = old(self).src();
        let ghost target = spec_next(s, old(self).position(), old(self).line_number());
        loop
            invariant
                self.wf(),
                self.src() == s,
                spec_next(s, self.position(), self.line_number()) == target,
            decreases s.len() - self.position(),
        {
            if self.pos >= self.source.len() {
                return Option::None;
            }
            let c = self.source[self.pos];
            if c == '(' {
                return Option::Some(Result::Ok(self.single(TokenKind::LeftParen)));
            } else if c == ')' {
                return Option::Some(Result::Ok(self.single(TokenKind::RightParen)));
            } else if c == '{' {
                return Option::Some(Result::Ok(self.single(TokenKind::LeftBrace)));
            } else if c == '}' {
                return Option::Some(Result::Ok(self.single(TokenKind::RightBrace)));
            } else if c == ',' {
                return Option::Some(Result::Ok(self.single(TokenKind::Comma)));
            } else if c == '.' {
                return Option::Some(Result::Ok(self.single(TokenKind::Dot)));
            } else if c == '-' {
                return Option::Some(Result::Ok(self.single(TokenKind::Minus)));
            } else if c == '+' {
                return Option::Some(Result::Ok(self.single(TokenKind::Plus)));
            } else if c == ';' {
                return Option::Some(Result::Ok(self.single(TokenKind::SemiColon)));
            } else if c == '*' {
                return Option::Some(Result::Ok(self.single(TokenKind::Star)));
            } else if c == ':' {
                return Option::Some(Result::Ok(self.single(TokenKind::Colon)));
            } else if c == '?' {
                return Option::Some(Result::Ok(self.single(TokenKind::Question)));
            } else if c == '!' {
                if self.pos + 1 < self.source.len() && self.source[self.pos + 1] == '=' {
                    return Option::Some(Result::Ok(self.double(TokenKind::BangEqual)));
                } else {
                    return Option::Some(Result::Ok(self.single(TokenKind::Bang)));
                }
            } else if c == '=' {
                if self.pos + 1 < self.source.len() && self.source[self.pos + 1] == '=' {
                    return Option::Some(Result::Ok(self.double(TokenKind::EqualEqual)));
                } else {
                    return Option::Some(Result::Ok(self.single(TokenKind::Equal)));
                }
            } else if c == '<' {
                if self.pos + 1 < self.source.len() && self.source[self.pos + 1] == '=' {
                    return Option::Some(Result::Ok(self.double(TokenKind::LessEqual)));
                } else {
                    return Option::Some(Result::Ok(self.single(TokenKind::Less)));
                }
            } else if c == '>' {
                if self.pos + 1 < self.source.len() && self.source[self.pos + 1] == '=' {
                    return Option::Some(Result::Ok(self.double(TokenKind::GreaterEqual)));
                } else {
                    return Option::Some(Result::Ok(self.single(TokenKind::Greater)));
                }
            } else if c == '"' {
                match self.string() {
                    Result::Ok(t) => {
                        return Option::Some(Result::Ok(t));
                    },
                    Result::Err(e) => {
                        return Option::Some(Result::Err(e));
                    },
                }
            } else if c == '/' {
                if self.pos + 1 < self.source.len() && self.source[self.pos + 1] == '/' {
                    proof {
                        crate::scanner::model::lemma_find_char(s, self.position(), '\n');
                    }
                    self.line_comment();
                } else if self.pos + 1 < self.source.len() && self.source[self.pos + 1] == '*' {
                    proof {
                        crate::scanner::model::lemma_find_block_end(s, self.position() + 2);
                    }
                    match self.block_comment() {
                        Result::Ok(_u) => {
                        },
                        Result::Err(e) => {
                            return Option::Some(Result::Err(e));
                        },
                    }
                } else {
                    return Option::Some(Result::Ok(self.single(TokenKind::Slash)));
                }
            } else if digit_char(c) {
                return Option::Some(Result::Ok(self.number()));
            } else if space_char(c) {
                self.whitespace(c);
            } else if ident_start_char(c) {
                return Option::Some(Result::Ok(self.identifier()));
            } else {
                let line = self.line;
                let off = self.pos;
                proof {
                    crate::scanner::model::lemma_count_lines_split(
                        s,
                        0,
                        self.pos as nat,
                        (self.pos + 1) as nat,
                    );
                }
                self.pos = self.pos + 1;
                return Option::Some(
                    Result::Err(Error::InvalidCharacter { character: c, line, offset: off }),
                );
            }
        }
    }
}

/// The view of a whole scanner output sequence.
pub open spec fn outs_view(v: Seq<Result<Token, Error>>) -> Seq<Result<SpecToken, SpecLexError>> {
    v.map_values(
        |r: Result<Token, Error>|
            match r {
                Result::Ok(t) => Result::<SpecToken, SpecLexError>::Ok(t@),
                Result::Err(e) => Result::<SpecToken, SpecLexError>::Err(e@),
            },
    )
}

/// Scans a whole source buffer in one pass and returns every token and
/// lexical error in order: exactly the sequence that the model
/// [`crate::scanner::model::spec_tokens`] gives from the start of the
/// buffer on line 1.
#[verifier::loop_isolation(false)]
pub fn scan(source: &str) -> (v: Vec<Result<Token, Error>>)
    requires
        source@.len() < usize::MAX,
    ensures
        outs_view(v@) == crate::scanner::model::spec_tokens(source@, 0, 1),
{
    let mut sc = Scanner::new(source);
    let mut v: Vec<Result<Token, Error>> = Vec::new();
    loop
        invariant
            sc.wf(),
            sc.src() == source@,
            crate::scanner::model::spec_tokens(source@, 0, 1) == outs_view(v@)
                + crate::scanner::model::spec_tokens(
                source@,
                sc.position(),
                sc.line_number(),
            ),
        decreases source@.len() - sc.position(),
    {
        proof {
            crate::scanner::model::lemma_spec_next_shape(
                source@,
                sc.position(),
                sc.line_number(),
            );
        }
        let ghost pos0 = sc.position();
        let ghost line0 = sc.line_number();
        let ghost v0 = v@;
        match sc.next() {
            Option::None => {
                proof {
                    assert(outs_view(v@) + crate::scanner::model::spec_tokens(
                        source@,
                        pos0,
                        line0,
                    ) =~= outs_view(v@));
                }
                return v;
            },
            Option::Some(x) => {
                v.push(x);
                proof {
                    let step = spec_next(source@, pos0, line0);
                    let o = step.out->Some_0;
                    assert(outs_view(v@) =~= outs_view(v0).push(o));
                    assert(outs_view(v0) + crate::scanner::model::spec_tokens(source@, pos0, line0)
                        =~= outs_view(v@) + crate::scanner::model::spec_tokens(
                        source@,
                        step.pos,
                        step.line,
                    ));
                }
            },
        }
    }
}

/// Whether `c` is an ASCII decimal digit.
fn digit_char(c: char) -> (r: bool)
    ensures
        r == crate::scanner::model::is_digit(c),
{
    let u = c as u32;
    48 <= u && u <= 57
}

/// Whether `c` may start an identifier.
fn ident_start_char(c: char) -> (r: bool)
    ensures
        r == crate::scanner::model::is_ident_start(c),
{
    let u = c as u32;
    (97 <= u && u <= 122) || (65 <= u && u <= 90) || u == 95
}

/// Whether `c` may continue an identifier.
fn ident_char(c: char) -> (r: bool)
    ensures
        r == crate::scanner::model::is_ident_char(c),
{
    ident_start_char(c) || digit_char(c)
}

/// Whether `c` has the Unicode white-space property.
fn space_char(c: char) -> (r: bool)
    ensures
        r == crate::scanner::model::is_space(c),
{
    let u = c as u32;
    u == 32 || (9 <= u && u <= 13) || u == 0x85 || u == 0xa0 || u == 0x1680 || (0x2000 <= u && u
        <= 0x200a) || u == 0x2028 || u == 0x2029 || u == 0x202f || u == 0x205f || u == 0x3000
}

} // verus!
