//! The mathematical model of the scanner: one spec-level step function,
//! [`spec_next`], that says exactly which token-or-error the scanner
//! produces next from a given position and line, and where scanning
//! resumes. The executable scanner is proved to follow this model step by
//! step.

use vstd::prelude::*;

use crate::token::{SpecToken, SpecTokenKind};

verus! {

/// The mathematical value of a lexical error.
pub enum SpecLexError {
    InvalidCharacter { character: char, line: nat, offset: nat },
    UnterminatedString { line: nat, offset: nat },
    MissingBlockCommentTerminator { line: nat, offset: nat },
}

/// The outcome of one scanner step: what is produced (nothing at end of
/// input, else a token or a lexical error), and the position and line at
/// which the next step starts.
pub struct SpecScan {
    pub out: Option<Result<SpecToken, SpecLexError>>,
    pub pos: nat,
    pub line: nat,
}

/// Whether `c` is an ASCII decimal digit.
pub open spec fn is_digit(c: char) -> bool {
    '0' <= c && c <= '9'
}

/// Whether `c` may start an identifier: an ASCII letter or an underscore.
pub open spec fn is_ident_start(c: char) -> bool {
    ('a' <= c && c <= 'z') || ('A' <= c && c <= 'Z') || c == '_'
}

/// Whether `c` may continue an identifier.
pub open spec fn is_ident_char(c: char) -> bool {
    is_ident_start(c) || is_digit(c)
}

/// Whether `c` has the Unicode white-space property.
pub open spec fn is_space(c: char) -> bool {
    ||| c == ' '
    ||| ('\u{09}' <= c && c <= '\u{0d}')
    ||| c == '\u{85}'
    ||| c == '\u{a0}'
    ||| c == '\u{1680}'
    ||| ('\u{2000}' <= c && c <= '\u{200a}')
    ||| c == '\u{2028}'
    ||| c == '\u{2029}'
    ||| c == '\u{202f}'
    ||| c == '\u{205f}'
    ||| c == '\u{3000}'
}

/// The end of the run of identifier characters that starts at `i`: the
/// first index at or after `i` holding no identifier character, or the end
/// of input.
pub open spec fn ident_end(s: Seq<char>, i: nat) -> nat
    recommends
        i <= s.len(),
    decreases s.len() - i,
{
    if i >= s.len() {
        i
    } else if is_ident_char(s[i as int]) {
        ident_end(s, i + 1)
    } else {
        i
    }
}

/// The end of the run of ASCII digits that starts at `i`.
pub open spec fn digits_end(s: Seq<char>, i: nat) -> nat
    recommends
        i <= s.len(),
    decreases s.len() - i,
{
    if i >= s.len() {
        i
    } else if is_digit(s[i as int]) {
        digits_end(s, i + 1)
    } else {
        i
    }
}

/// The first index at or after `i` holding the character `c`, if any.
pub open spec fn find_char(s: Seq<char>, i: nat, c: char) -> Option<nat>
    recommends
        i <= s.len(),
    decreases s.len() - i,
{
    if i >= s.len() {
        Option::None
    } else if s[i as int] == c {
        Option::Some(i)
    } else {
        find_char(s, i + 1, c)
    }
}

/// The first index `j` at or after `i` where the two characters `*/` stand,
/// if any; the index returned is that of the `*`.
pub open spec fn find_block_end(s: Seq<char>, i: nat) -> Option<nat>
    recommends
        i <= s.len(),
    decreases s.len() - i,
{
    if i >= s.len() {
        Option::None
    } else if s[i as int] == '*' && i + 1 < s.len() && s[i + 1 as int] == '/' {
        Option::Some(i)
    } else {
        find_block_end(s, i + 1)
    }
}

/// The number of newline characters in `s[i..j]`.
pub open spec fn count_lines(s: Seq<char>, i: nat, j: nat) -> nat
    recommends
        i <= j <= s.len(),
    decreases j - i,
{
    if i >= j {
        0
    } else {
        (if s[i as int] == '\n' {
            1nat
        } else {
            0nat
        }) + count_lines(s, i + 1, j)
    }
}

/// Where [`find_char`] finds an index, that index lies between `i` and the
/// end of input, holds `c`, and nothing before it from `i` does; where it
/// finds none, `c` does not occur at or after `i`.
pub proof fn lemma_find_char(s: Seq<char>, i: nat, c: char)
    requires
        i <= s.len(),
    ensures
        match find_char(s, i, c) {
            Option::Some(j) => i <= j < s.len() && s[j as int] == c && (forall|k: int|
                i <= k < j ==> s[k] != c),
            Option::None => forall|k: int| i <= k < s.len() ==> s[k] != c,
        },
    decreases s.len() - i,
{
    if i < s.len() && s[i as int] != c {
        lemma_find_char(s, i + 1, c);
    }
}

/// Where [`find_block_end`] finds an index `j`, the characters `*/` stand
/// at `j` and nowhere earlier from `i`; where it finds none, they stand
/// nowhere at or after `i`.
pub proof fn lemma_find_block_end(s: Seq<char>, i: nat)
    requires
        i <= s.len(),
    ensures
        match find_block_end(s, i) {
            Option::Some(j) => i <= j && j + 1 < s.len() && s[j as int] == '*' && s[j + 1 as int] == '/'
                && (forall|k: int|
                i <= k < j ==> !((#[trigger] s[k]) == '*' && k + 1 < s.len() && s[k + 1] == '/')),
            Option::None => forall|k: int|
                i <= k < s.len() ==> !((#[trigger] s[k]) == '*' && k + 1 < s.len() && s[k + 1]
                    == '/'),
        },
    decreases s.len() - i,
{
    if i < s.len() && !(s[i as int] == '*' && i + 1 < s.len() && s[i + 1 as int] == '/') {
        lemma_find_block_end(s, i + 1);
    }
}

/// The run ends [`ident_end`] and [`digits_end`] lie between `i` and the
/// end of input; every character of the run satisfies the class, and the
/// character at the end (if any) does not.
pub proof fn lemma_ident_end(s: Seq<char>, i: nat)
    requires
        i <= s.len(),
    ensures
        i <= ident_end(s, i) <= s.len(),
        forall|k: int| i <= k < ident_end(s, i) ==> is_ident_char(s[k]),
        ident_end(s, i) < s.len() ==> !is_ident_char(s[ident_end(s, i) as int]),
    decreases s.len() - i,
{
    if i < s.len() && is_ident_char(s[i as int]) {
        lemma_ident_end(s, i + 1);
    }
}

/// The digit-run analogue of [`lemma_ident_end`].
pub proof fn lemma_digits_end(s: Seq<char>, i: nat)
    requires
        i <= s.len(),
    ensures
        i <= digits_end(s, i) <= s.len(),
        forall|k: int| i <= k < digits_end(s, i) ==> is_digit(s[k]),
        digits_end(s, i) < s.len() ==> !is_digit(s[digits_end(s, i) as int]),
    decreases s.len() - i,
{
    if i < s.len() && is_digit(s[i as int]) {
        lemma_digits_end(s, i + 1);
    }
}

/// A range holds no more newlines than characters.
pub proof fn lemma_count_lines_le(s: Seq<char>, i: nat, j: nat)
    requires
        i <= j <= s.len(),
    ensures
        count_lines(s, i, j) <= j - i,
    decreases j - i,
{
    if i < j {
        lemma_count_lines_le(s, i + 1, j);
    }
}

/// A range without newline characters counts zero newlines.
pub proof fn lemma_count_lines_zero(s: Seq<char>, i: nat, j: nat)
    requires
        i <= j <= s.len(),
        forall|k: int| i <= k < j ==> s[k] != '\n',
    ensures
        count_lines(s, i, j) == 0,
    decreases j - i,
{
    if i < j {
        lemma_count_lines_zero(s, i + 1, j);
    }
}

/// The newline count of a one-character range.
pub proof fn lemma_count_lines_one(s: Seq<char>, i: nat)
    requires
        i < s.len(),
    ensures
        count_lines(s, i, i + 1) == (if s[i as int] == '\n' {
            1nat
        } else {
            0nat
        }),
{
    assert(count_lines(s, i + 1, i + 1) == 0);
}

/// Newline counting splits at any midpoint.
pub proof fn lemma_count_lines_split(s: Seq<char>, i: nat, m: nat, j: nat)
    requires
        i <= m <= j <= s.len(),
    ensures
        count_lines(s, i, j) == count_lines(s, i, m) + count_lines(s, m, j),
    decreases m - i,
{
    if i < m {
        lemma_count_lines_split(s, i + 1, m, j);
    }
}

/// The keyword kind of an identifier-shaped character sequence: one of the
/// sixteen reserved words maps to its own kind, everything else to `None`.
pub open spec fn keyword_kind(s: Seq<char>) -> Option<SpecTokenKind> {
    if s == "and"@ {
        Option::Some(SpecTokenKind::And)
    } else if s == "class"@ {
        Option::Some(SpecTokenKind::Class)
    } else if s == "else"@ {
        Option::Some(SpecTokenKind::Else)
    } else if s == "false"@ {
        Option::Some(SpecTokenKind::False)
    } else if s == "for"@ {
        Option::Some(SpecTokenKind::For)
    } else if s == "fun"@ {
        Option::Some(SpecTokenKind::Fun)
    } else if s == "if"@ {
        Option::Some(SpecTokenKind::If)
    } else if s == "nil"@ {
        Option::Some(SpecTokenKind::Nil)
    } else if s == "or"@ {
        Option::Some(SpecTokenKind::Or)
    } else if s == "print"@ {
        Option::Some(SpecTokenKind::Print)
    } else if s == "return"@ {
        Option::Some(SpecTokenKind::Return)
    } else if s == "super"@ {
        Option::Some(SpecTokenKind::Super)
    } else if s == "this"@ {
        Option::Some(SpecTokenKind::This)
    } else if s == "true"@ {
        Option::Some(SpecTokenKind::True)
    } else if s == "var"@ {
        Option::Some(SpecTokenKind::Var)
    } else if s == "while"@ {
        Option::Some(SpecTokenKind::While)
    } else {
        Option::None
    }
}

/// A step that produces the token `kind` with no lexeme at `pos`, consuming
/// `width` characters.
pub open spec fn punct_step(kind: SpecTokenKind, pos: nat, line: nat, width: nat) -> SpecScan {
    SpecScan {
        out: Option::Some(Result::Ok(SpecToken {
            kind,
            lexeme: Option::None,
            line,
            offset: pos,
        })),
        pos: pos + width,
        line,
    }
}

/// The scanner step for a string literal: `s[pos]` is the opening quote.
/// The literal runs to the next quote, newlines inside it counting toward
/// the line number; the token carries the content without quotes as its
/// payload and the quoted text as its lexeme, and is located on the line
/// where the literal ends. Without a closing quote the step fails with
/// `UnterminatedString` naming the opening quote, and the rest of the
/// input is discarded.
pub open spec fn spec_string(s: Seq<char>, pos: nat, line: nat) -> SpecScan
    recommends
        pos < s.len(),
        s[pos as int] == '"',
{
    match find_char(s, pos + 1, '"') {
        Option::Some(q) => SpecScan {
            out: Option::Some(Result::Ok(SpecToken {
                kind: SpecTokenKind::Str(s.subrange(pos + 1 as int, q as int)),
                lexeme: Option::Some(s.subrange(pos as int, q + 1 as int)),
                line: line + count_lines(s, pos + 1, q),
                offset: pos,
            })),
            pos: q + 1,
            line: line + count_lines(s, pos + 1, q),
        },
        Option::None => SpecScan {
            out: Option::Some(Result::Err(SpecLexError::UnterminatedString { line, offset: pos })),
            pos: s.len(),
            line,
        },
    }
}

/// The scanner step for a number literal: `s[pos]` is a digit. The token
/// covers the longest digit run, extended over a dot only when at least
/// one digit follows the dot; a trailing dot is left for the next step.
pub open spec fn spec_number(s: Seq<char>, pos: nat, line: nat) -> SpecScan
    recommends
        pos < s.len(),
        is_digit(s[pos as int]),
{
    let de = digits_end(s, pos);
    let end = if de < s.len() && s[de as int] == '.' && digits_end(s, de + 1) > de + 1 {
        digits_end(s, de + 1)
    } else {
        de
    };
    SpecScan {
        out: Option::Some(Result::Ok(SpecToken {
            kind: SpecTokenKind::Number(s.subrange(pos as int, end as int)),
            lexeme: Option::Some(s.subrange(pos as int, end as int)),
            line,
            offset: pos,
        })),
        pos: end,
        line,
    }
}

/// The scanner step for an identifier or keyword: `s[pos]` is a letter or
/// underscore. The token covers the longest identifier run; if its text is
/// one of the sixteen reserved words it gets that keyword kind and no
/// lexeme, otherwise it is an `Identifier` carrying its text.
pub open spec fn spec_identifier(s: Seq<char>, pos: nat, line: nat) -> SpecScan
    recommends
        pos < s.len(),
        is_ident_start(s[pos as int]),
{
    let end = ident_end(s, pos);
    let text = s.subrange(pos as int, end as int);
    match keyword_kind(text) {
        Option::Some(kind) => SpecScan {
            out: Option::Some(Result::Ok(SpecToken {
                kind,
                lexeme: Option::None,
                line,
                offset: pos,
            })),
            pos: end,
            line,
        },
        Option::None => SpecScan {
            out: Option::Some(Result::Ok(SpecToken {
                kind: SpecTokenKind::Identifier,
                lexeme: Option::Some(text),
                line,
                offset: pos,
            })),
            pos: end,
            line,
        },
    }
}

/// One full scanner step from position `pos` on line `line`: whitespace
/// and comments are consumed silently, then the first match wins, with the
/// longest match inside each rule and two-character operators beating
/// their one-character prefixes. `out` is `None` exactly at clean end of
/// input; an unterminated string or block comment discards the remaining
/// input; an invalid character is reported and skipped, so scanning may
/// continue on the next step.
pub open spec fn spec_next(s: Seq<char>, pos: nat, line: nat) -> SpecScan
    recommends
        pos <= s.len(),
    decreases s.len() - pos,
    via spec_next_decreases
{
    if pos >= s.len() {
        SpecScan { out: Option::None, pos, line }
    } else {
        let c = s[pos as int];
        if c == '(' {
            punct_step(SpecTokenKind::LeftParen, pos, line, 1)
        } else if c == ')' {
            punct_step(SpecTokenKind::RightParen, pos, line, 1)
        } else if c == '{' {
            punct_step(SpecTokenKind::LeftBrace, pos, line, 1)
        } else if c == '}' {
            punct_step(SpecTokenKind::RightBrace, pos, line, 1)
        } else if c == ',' {
            punct_step(SpecTokenKind::Comma, pos, line, 1)
        } else if c == '.' {
            punct_step(SpecTokenKind::Dot, pos, line, 1)
        } else if c == '-' {
            punct_step(SpecTokenKind::Minus, pos, line, 1)
        } else if c == '+' {
            punct_step(SpecTokenKind::Plus, pos, line, 1)
        } else if c == ';' {
            punct_step(SpecTokenKind::SemiColon, pos, line, 1)
        } else if c == '*' {
            punct_step(SpecTokenKind::Star, pos, line, 1)
        } else if c == ':' {
            punct_step(SpecTokenKind::Colon, pos, line, 1)
        } else if c == '?' {
            punct_step(SpecTokenKind::Question, pos, line, 1)
        } else if c == '!' {
            if pos + 1 < s.len() && s[pos + 1 as int] == '=' {
                punct_step(SpecTokenKind::BangEqual, pos, line, 2)
            } else {
                punct_step(SpecTokenKind::Bang, pos, line, 1)
            }
        } else if c == '=' {
            if pos + 1 < s.len() && s[pos + 1 as int] == '=' {
                punct_step(SpecTokenKind::EqualEqual, pos, line, 2)
            } else {
                punct_step(SpecTokenKind::Equal, pos, line, 1)
            }
        } else if c == '<' {
            if pos + 1 < s.len() && s[pos + 1 as int] == '=' {
                punct_step(SpecTokenKind::LessEqual, pos, line, 2)
            } else {
                punct_step(SpecTokenKind::Less, pos, line, 1)
            }
        } else if c == '>' {
            if pos + 1 < s.len() && s[pos + 1 as int] == '=' {
                punct_step(SpecTokenKind::GreaterEqual, pos, line, 2)
            } else {
                punct_step(SpecTokenKind::Greater, pos, line, 1)
            }
        } else if c == '"' {
            spec_string(s, pos, line)
        } else if c == '/' {
            if pos + 1 < s.len() && s[pos + 1 as int] == '/' {
                // A line comment runs through the next newline (counted) or
                // to the end of input, and yields no token.
                match find_char(s, pos, '\n') {
                    Option::Some(nl) => spec_next(s, nl + 1, line + 1),
                    Option::None => SpecScan { out: Option::None, pos: s.len(), line },
                }
            } else if pos + 1 < s.len() && s[pos + 1 as int] == '*' {
                // A block comment runs through the matching `*/`, counting
                // embedded newlines; without a terminator the step fails and
                // the rest of the input is discarded.
                match find_block_end(s, pos + 2) {
                    Option::Some(star) => spec_next(
                        s,
                        star + 2,
                        line + count_lines(s, pos + 2, star),
                    ),
                    Option::None => SpecScan {
                        out: Option::Some(Result::Err(
                            SpecLexError::MissingBlockCommentTerminator { line, offset: pos },
                        )),
                        pos: s.len(),
                        line,
                    },
                }
            } else {
                punct_step(SpecTokenKind::Slash, pos, line, 1)
            }
        } else if is_digit(c) {
            spec_number(s, pos, line)
        } else if is_space(c) {
            spec_next(s, pos + 1, if c == '\n' {
                line + 1
            } else {
                line
            })
        } else if is_ident_start(c) {
            spec_identifier(s, pos, line)
        } else {
            SpecScan {
                out: Option::Some(Result::Err(SpecLexError::InvalidCharacter {
                    character: c,
                    line,
                    offset: pos,
                })),
                pos: pos + 1,
                line,
            }
        }
    }
}

/// Termination of [`spec_next`]: the comment branches resume past the
/// found newline or terminator, both of which lie at or after the current
/// position.
#[via_fn]
proof fn spec_next_decreases(s: Seq<char>, pos: nat, line: nat) {
    if pos < s.len() {
        lemma_find_char(s, pos, '\n');
        if pos + 1 < s.len() {
            lemma_find_block_end(s, pos + 2);
        }
    }
}

/// The shape of one scanner step: the cursor never moves backwards or past
/// the end; a produced token or error consumes at least one character; and
/// nothing is produced only at the end of input (where the step leaves the
/// cursor there).
pub proof fn lemma_spec_next_shape(s: Seq<char>, pos: nat, line: nat)
    requires
        pos <= s.len(),
    ensures
        ({
            let r = spec_next(s, pos, line);
            &&& pos <= r.pos <= s.len()
            &&& (r.out is Some ==> r.pos > pos)
            &&& (r.out is None ==> r.pos == s.len())
        }),
    decreases s.len() - pos,
{
    if pos < s.len() {
        let c = s[pos as int];
        lemma_find_char(s, pos + 1, '"');
        lemma_ident_end(s, pos);
        lemma_digits_end(s, pos);
        let de = digits_end(s, pos);
        if de + 1 <= s.len() {
            lemma_digits_end(s, de + 1);
        }
        if c == '/' {
            lemma_find_char(s, pos, '\n');
            match find_char(s, pos, '\n') {
                Option::Some(nl) => {
                    lemma_spec_next_shape(s, nl + 1, line + 1);
                },
                Option::None => {
                },
            }
            if pos + 1 < s.len() && s[pos + 1 as int] == '*' {
                lemma_find_block_end(s, pos + 2);
                match find_block_end(s, pos + 2) {
                    Option::Some(star) => {
                        lemma_spec_next_shape(s, star + 2, line + count_lines(s, pos + 2, star));
                    },
                    Option::None => {
                    },
                }
            }
        }
        if is_space(c) {
            lemma_spec_next_shape(
                s,
                pos + 1,
                if c == '\n' {
                    line + 1
                } else {
                    line
                },
            );
        }
    }
}

/// The whole output of the scanner from a given state: the finite sequence
/// of token-or-error values that repeated steps produce until the step
/// with nothing in it.
pub open spec fn spec_tokens(s: Seq<char>, pos: nat, line: nat) -> Seq<
    Result<SpecToken, SpecLexError>,
>
    recommends
        pos <= s.len(),
    decreases s.len() - pos,
    via spec_tokens_decreases
{
    let step = spec_next(s, pos, line);
    match step.out {
        Option::None => Seq::empty(),
        Option::Some(o) => seq![o] + spec_tokens(s, step.pos, step.line),
    }
}

/// Termination of [`spec_tokens`]: every produced value consumes input.
#[via_fn]
proof fn spec_tokens_decreases(s: Seq<char>, pos: nat, line: nat) {
    if pos <= s.len() {
        lemma_spec_next_shape(s, pos, line);
    }
}

/// Whether the input from `pos` on consists only of whitespace, line
/// comments, and terminated block comments.
pub open spec fn blank_from(s: Seq<char>, pos: nat) -> bool
    recommends
        pos <= s.len(),
    decreases s.len() - pos,
    via blank_from_decreases
{
    if pos >= s.len() {
        true
    } else if is_space(s[pos as int]) {
        blank_from(s, pos + 1)
    } else if s[pos as int] == '/' && pos + 1 < s.len() && s[pos + 1 as int] == '/' {
        match find_char(s, pos, '\n') {
            Option::Some(nl) => blank_from(s, nl + 1),
            Option::None => true,
        }
    } else if s[pos as int] == '/' && pos + 1 < s.len() && s[pos + 1 as int] == '*' {
        match find_block_end(s, pos + 2) {
            Option::Some(star) => blank_from(s, star + 2),
            Option::None => false,
        }
    } else {
        false
    }
}

/// Termination of [`blank_from`]: as for the scanner step itself.
#[via_fn]
proof fn blank_from_decreases(s: Seq<char>, pos: nat) {
    if pos < s.len() {
        lemma_find_char(s, pos, '\n');
        if pos + 1 < s.len() {
            lemma_find_block_end(s, pos + 2);
        }
    }
}

/// Input composed only of whitespace and comments yields zero tokens and
/// zero errors from the scanner, whatever line it starts on.
pub proof fn lemma_blank_source_scans_empty(s: Seq<char>, pos: nat, line: nat)
    requires
        pos <= s.len(),
        blank_from(s, pos),
    ensures
        spec_next(s, pos, line).out is None,
        spec_tokens(s, pos, line) == Seq::<Result<SpecToken, SpecLexError>>::empty(),
    decreases s.len() - pos,
{
    if pos < s.len() {
        let c = s[pos as int];
        if is_space(c) {
            lemma_blank_source_scans_empty(
                s,
                pos + 1,
                if c == '\n' {
                    line + 1
                } else {
                    line
                },
            );
        } else if c == '/' && pos + 1 < s.len() && s[pos + 1 as int] == '/' {
            lemma_find_char(s, pos, '\n');
            match find_char(s, pos, '\n') {
                Option::Some(nl) => {
                    lemma_blank_source_scans_empty(s, nl + 1, line + 1);
                },
                Option::None => {
                },
            }
        } else {
            lemma_find_block_end(s, pos + 2);
            match find_block_end(s, pos + 2) {
                Option::Some(star) => {
                    lemma_blank_source_scans_empty(
                        s,
                        star + 2,
                        line + count_lines(s, pos + 2, star),
                    );
                },
                Option::None => {
                },
            }
        }
    }
}

/// Every maximal identifier-shaped run lexes to exactly one token and is
/// consumed whole (maximal munch): where its text is one of the sixteen
/// reserved words, the token is that keyword kind and never `Identifier`;
/// any other identifier-shaped text yields an `Identifier` carrying
/// exactly the run. Scanning resumes right after the run, on the same
/// line.
pub proof fn lemma_identifier_classification(s: Seq<char>, pos: nat, end: nat, line: nat)
    requires
        pos < end <= s.len(),
        is_ident_start(s[pos as int]),
        forall|k: int| pos <= k < end ==> is_ident_char(s[k]),
        end < s.len() ==> !is_ident_char(s[end as int]),
    ensures
        ({
            let r = spec_next(s, pos, line);
            let text = s.subrange(pos as int, end as int);
            &&& r.pos == end
            &&& r.line == line
            &&& match keyword_kind(text) {
                Option::Some(kind) => r.out == Option::Some(
                    Result::<SpecToken, SpecLexError>::Ok(
                        SpecToken { kind, lexeme: Option::None, line, offset: pos },
                    ),
                ),
                Option::None => r.out == Option::Some(
                    Result::<SpecToken, SpecLexError>::Ok(
                        SpecToken {
                            kind: SpecTokenKind::Identifier,
                            lexeme: Option::Some(text),
                            line,
                            offset: pos,
                        },
                    ),
                ),
            }
        }),
{
    lemma_ident_end(s, pos);
    assert(ident_end(s, pos) == end) by {
        let de = ident_end(s, pos);
        if de < end {
            assert(is_ident_char(s[de as int]));
        }
        if end < de {
            assert(is_ident_char(s[end as int]));
        }
    }
}

/// Each of the sixteen reserved words is classified as its own keyword
/// kind, and an identifier-shaped text equal to none of them is classified
/// as no keyword.
pub proof fn lemma_keyword_table()
    ensures
        keyword_kind("and"@) == Option::Some(SpecTokenKind::And),
        keyword_kind("class"@) == Option::Some(SpecTokenKind::Class),
        keyword_kind("else"@) == Option::Some(SpecTokenKind::Else),
        keyword_kind("false"@) == Option::Some(SpecTokenKind::False),
        keyword_kind("for"@) == Option::Some(SpecTokenKind::For),
        keyword_kind("fun"@) == Option::Some(SpecTokenKind::Fun),
        keyword_kind("if"@) == Option::Some(SpecTokenKind::If),
        keyword_kind("nil"@) == Option::Some(SpecTokenKind::Nil),
        keyword_kind("or"@) == Option::Some(SpecTokenKind::Or),
        keyword_kind("print"@) == Option::Some(SpecTokenKind::Print),
        keyword_kind("return"@) == Option::Some(SpecTokenKind::Return),
        keyword_kind("super"@) == Option::Some(SpecTokenKind::Super),
        keyword_kind("this"@) == Option::Some(SpecTokenKind::This),
        keyword_kind("true"@) == Option::Some(SpecTokenKind::True),
        keyword_kind("var"@) == Option::Some(SpecTokenKind::Var),
        keyword_kind("while"@) == Option::Some(SpecTokenKind::While),
{
    reveal_strlit("and");
    reveal_strlit("class");
    reveal_strlit("else");
    reveal_strlit("false");
    reveal_strlit("for");
    reveal_strlit("fun");
    reveal_strlit("if");
    reveal_strlit("nil");
    reveal_strlit("or");
    reveal_strlit("print");
    reveal_strlit("return");
    reveal_strlit("super");
    reveal_strlit("this");
    reveal_strlit("true");
    reveal_strlit("var");
    reveal_strlit("while");
    // Words of equal length are told apart by a character; the first one
    // does it everywhere but for `for`/`fun` and `this`/`true`.
    assert("and"@[0] == 'a' && "for"@[0] == 'f' && "fun"@[0] == 'f' && "nil"@[0] == 'n' && "var"@[0]
        == 'v');
    assert("for"@[1] == 'o' && "fun"@[1] == 'u');
    assert("class"@[0] == 'c' && "false"@[0] == 'f' && "print"@[0] == 'p' && "super"@[0] == 's'
        && "while"@[0] == 'w');
    assert("else"@[0] == 'e' && "this"@[0] == 't' && "true"@[0] == 't');
    assert("this"@[1] == 'h' && "true"@[1] == 'r');
    assert("if"@[0] == 'i' && "or"@[0] == 'o');
}

} // verus!
