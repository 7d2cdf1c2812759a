//! The diagnostics mapper: turns a lexical or structural parse error plus
//! the original source buffer into a message and labeled spans, each span
//! a byte offset and byte length relative to the buffer. It renders and
//! prints nothing; that is the driving collaborator's responsibility.

use vstd::prelude::*;
use vstd::string::StrSliceExecFns;
use vstd::utf8::{char_is_scalar, encode_scalar, encode_utf8};

use crate::parser::model::SpecParseError;
use crate::scanner::model::SpecLexError;

verus! {

/// A labeled source span: a byte offset and byte length relative to the
/// source buffer, and the label's text.
pub struct Label {
    pub offset: usize,
    pub len: usize,
    pub text: String,
}

/// A diagnostic: a message and one or more labeled spans.
pub struct Diagnostic {
    pub message: String,
    pub labels: Vec<Label>,
}

/// The byte offset at which the character with index `i` starts: the
/// length of the UTF-8 encoding of everything before it.
pub open spec fn spec_byte_offset(s: Seq<char>, i: int) -> int {
    encode_utf8(s.take(i)).len() as int
}

/// Appending one character appends exactly its scalar encoding.
pub proof fn lemma_encode_push(s: Seq<char>, c: char)
    ensures
        encode_utf8(s.push(c)) == encode_utf8(s) + encode_scalar(c as u32),
    decreases s.len(),
{
    if s.len() == 0 {
        assert(s.push(c)[0] == c);
        assert(s.push(c).drop_first() =~= Seq::<char>::empty());
        assert(encode_utf8(Seq::<char>::empty()) =~= Seq::<u8>::empty());
        assert(s =~= Seq::<char>::empty());
        assert(encode_utf8(s.push(c)) == encode_scalar(c as u32) + encode_utf8(
            s.push(c).drop_first(),
        ));
        assert(encode_utf8(s.push(c)) =~= encode_utf8(s) + encode_scalar(c as u32));
    } else {
        assert(s.push(c)[0] == s[0]);
        assert(s.push(c).drop_first() =~= s.drop_first().push(c));
        lemma_encode_push(s.drop_first(), c);
        assert(encode_utf8(s.push(c)) =~= encode_utf8(s) + encode_scalar(c as u32));
    }
}

/// The UTF-8 encoding splits at any character index.
pub proof fn lemma_encode_split(s: Seq<char>, i: int)
    requires
        0 <= i <= s.len(),
    ensures
        encode_utf8(s) == encode_utf8(s.take(i)) + encode_utf8(s.skip(i)),
    decreases i,
{
    if i == 0 {
        assert(s.take(0) =~= Seq::<char>::empty());
        assert(s.skip(0) =~= s);
        assert(encode_utf8(s) =~= encode_utf8(s.take(0)) + encode_utf8(s.skip(0)));
    } else {
        assert(s.take(i)[0] == s[0]);
        assert(s.take(i).drop_first() =~= s.drop_first().take(i - 1));
        assert(s.skip(i) =~= s.drop_first().skip(i - 1));
        lemma_encode_split(s.drop_first(), i - 1);
        assert(encode_utf8(s) =~= encode_utf8(s.take(i)) + encode_utf8(s.skip(i)));
    }
}

/// The byte width of one character's UTF-8 encoding.
fn utf8_len(c: char) -> (r: usize)
    ensures
        r == encode_scalar(c as u32).len(),
{
    proof {
        char_is_scalar(c);
    }
    let u = c as u32;
    if u < 0x80 {
        1
    } else if u < 0x800 {
        2
    } else if u < 0x10000 {
        3
    } else {
        4
    }
}

/// The byte offset at which the character with index `i` of `source`
/// starts, as [`spec_byte_offset`] states it.
pub fn byte_offset(source: &str, i: usize) -> (r: usize)
    requires
        i <= source@.len(),
        encode_utf8(source@).len() <= usize::MAX,
    ensures
        r == spec_byte_offset(source@, i as int),
{
    let ghost s = source@;
    let mut acc: usize = 0;
    let mut k: usize = 0;
    proof {
        assert(s.take(0) =~= Seq::<char>::empty());
    }
    while k < i
        invariant
            k <= i <= s.len(),
            s == source@,
            encode_utf8(s).len() <= usize::MAX,
            acc == encode_utf8(s.take(k as int)).len(),
        decreases i - k,
    {
        proof {
            lemma_encode_split(s, k + 1 as int);
            assert(s.take(k + 1 as int) =~= s.take(k as int).push(s[k as int]));
            lemma_encode_push(s.take(k as int), s[k as int]);
        }
        let c = source.get_char(k);
        acc = acc + utf8_len(c);
        k = k + 1;
    }
    acc
}

/// The character offset at which a lexical error's construct starts.
pub open spec fn lex_error_offset(e: SpecLexError) -> nat {
    match e {
        SpecLexError::InvalidCharacter { offset, .. } => offset,
        SpecLexError::UnterminatedString { offset, .. } => offset,
        SpecLexError::MissingBlockCommentTerminator { offset, .. } => offset,
    }
}

/// Maps a lexical error to its message and single labeled span: the
/// offending character, the opening quote, or the opening `/*`, each as a
/// byte offset and byte length into `source`.
pub fn lex_error_diagnostic(error: &crate::scanner::error::Error, source: &str) -> (d: Diagnostic)
    requires
        lex_error_offset(error@) < source@.len(),
        encode_utf8(source@).len() <= usize::MAX,
    ensures
        d.labels@.len() == 1,
        d.labels@[0].offset == spec_byte_offset(source@, lex_error_offset(error@) as int),
        match error@ {
            SpecLexError::InvalidCharacter { character, .. } => d.message@ == "invalid character"@
                && d.labels@[0].text@ == "this character here"@ && d.labels@[0].len
                == encode_scalar(character as u32).len(),
            SpecLexError::UnterminatedString { .. } => d.message@ == "unterminated string literal"@
                && d.labels@[0].text@ == "string literal starts here"@ && d.labels@[0].len == 1,
            SpecLexError::MissingBlockCommentTerminator { .. } => d.message@
                == "unterminated block comment"@ && d.labels@[0].text@
                == "block comment starts here"@ && d.labels@[0].len == 2,
        },
{
    let mut labels: Vec<Label> = Vec::new();
    match error {
        crate::scanner::error::Error::InvalidCharacter { character, line: _, offset } => {
            let len = utf8_len(*character);
            labels.push(
                Label {
                    offset: byte_offset(source, *offset),
                    len,
                    text: "this character here".to_owned(),
                },
            );
            Diagnostic { message: "invalid character".to_owned(), labels }
        },
        crate::scanner::error::Error::UnterminatedString { line: _, offset } => {
            labels.push(
                Label {
                    offset: byte_offset(source, *offset),
                    len: 1,
                    text: "string literal starts here".to_owned(),
                },
            );
            Diagnostic { message: "unterminated string literal".to_owned(), labels }
        },
        crate::scanner::error::Error::MissingBlockCommentTerminator { line: _, offset } => {
            labels.push(
                Label {
                    offset: byte_offset(source, *offset),
                    len: 2,
                    text: "block comment starts here".to_owned(),
                },
            );
            Diagnostic { message: "unterminated block comment".to_owned(), labels }
        },
    }
}

/// The character offset of the token that a structural parse error is
/// anchored to: the opening parenthesis for the grouping errors, the `?`
/// for a missing then branch or else operator, and the `:` for a missing
/// else branch.
pub open spec fn parse_error_offset(e: SpecParseError) -> nat {
    match e {
        SpecParseError::GroupingNotClosed { left_paren, .. } => left_paren.offset,
        SpecParseError::GroupingMissingExpression { left_paren } => left_paren.offset,
        SpecParseError::TernaryMissingThenBranch { then_operator, .. } => then_operator.offset,
        SpecParseError::TernaryMissingElseOperator { then_operator, .. } => then_operator.offset,
        SpecParseError::TernaryMissingElseBranch { else_operator, .. } => else_operator.offset,
    }
}

/// Maps a structural parse error to its message and single labeled span:
/// the anchoring one-character token, as a byte offset and byte length
/// into `source`.
pub fn parse_error_diagnostic(error: &crate::parser::error::Error, source: &str) -> (d: Diagnostic)
    requires
        parse_error_offset(error@) < source@.len(),
        encode_utf8(source@).len() <= usize::MAX,
    ensures
        d.labels@.len() == 1,
        d.labels@[0].offset == spec_byte_offset(source@, parse_error_offset(error@) as int),
        d.labels@[0].len == 1,
        match error@ {
            SpecParseError::GroupingNotClosed { .. } => d.message@
                == "Expected ')' after expression"@ && d.labels@[0].text@
                == "grouping starts here"@,
            SpecParseError::GroupingMissingExpression { .. } => d.message@
                == "Expected expression after '('"@ && d.labels@[0].text@
                == "grouping starts here"@,
            SpecParseError::TernaryMissingThenBranch { .. } => d.message@
                == "Expected expression '?'"@ && d.labels@[0].text@ == "ternary starts here"@,
            SpecParseError::TernaryMissingElseOperator { .. } => d.message@
                == "Expected ':' after expression"@ && d.labels@[0].text@
                == "ternary starts here"@,
            SpecParseError::TernaryMissingElseBranch { .. } => d.message@
                == "Expected expression after ':'"@ && d.labels@[0].text@
                == "else branch starts here"@,
        },
{
    let mut labels: Vec<Label> = Vec::new();
    match error {
        crate::parser::error::Error::GroupingNotClosed { left_paren, expr: _ } => {
            labels.push(
                Label {
                    offset: byte_offset(source, left_paren.offset),
                    len: 1,
                    text: "grouping starts here".to_owned(),
                },
            );
            Diagnostic { message: "Expected ')' after expression".to_owned(), labels }
        },
        crate::parser::error::Error::GroupingMissingExpression { left_paren } => {
            labels.push(
                Label {
                    offset: byte_offset(source, left_paren.offset),
                    len: 1,
                    text: "grouping starts here".to_owned(),
                },
            );
            Diagnostic { message: "Expected expression after '('".to_owned(), labels }
        },
        crate::parser::error::Error::TernaryMissingThenBranch { question: _, then_operator } => {
            labels.push(
                Label {
                    offset: byte_offset(source, then_operator.offset),
                    len: 1,
                    text: "ternary starts here".to_owned(),
                },
            );
            Diagnostic { message: "Expected expression '?'".to_owned(), labels }
        },
        crate::parser::error::Error::TernaryMissingElseOperator {
            question: _,
            then_operator,
            then_branch: _,
        } => {
            labels.push(
                Label {
                    offset: byte_offset(source, then_operator.offset),
                    len: 1,
                    text: "ternary starts here".to_owned(),
                },
            );
            Diagnostic { message: "Expected ':' after expression".to_owned(), labels }
        },
        crate::parser::error::Error::TernaryMissingElseBranch {
            question: _,
            then_operator: _,
            then_branch: _,
            else_operator,
        } => {
            labels.push(
                Label {
                    offset: byte_offset(source, else_operator.offset),
                    len: 1,
                    text: "else branch starts here".to_owned(),
                },
            );
            Diagnostic { message: "Expected expression after ':'".to_owned(), labels }
        },
    }
}

} // verus!
