//! The token model: the closed vocabulary of lexical categories and the
//! carrier type holding a category, an optional source lexeme, and a
//! 1-based line number.

use vstd::prelude::*;
use vstd::string::StringExecFns;

verus! {

/// The lexical category of a token.
///
/// Literal kinds carry their payload: a string literal carries its content
/// (without the enclosing quotes), a number literal carries the exact
/// decimal text that was matched in the source.
#[derive(Debug, Clone, PartialEq)]
pub enum TokenKind {
    // Single-character tokens
    Colon,
    Comma,
    Dot,
    LeftBrace,
    LeftParen,
    Minus,
    Plus,
    Question,
    RightBrace,
    RightParen,
    SemiColon,
    Slash,
    Star,
    // One or two character tokens
    Bang,
    BangEqual,
    Equal,
    EqualEqual,
    Greater,
    GreaterEqual,
    Less,
    LessEqual,
    // Literals
    Identifier,
    Str(String),
    Number(String),
    // Keywords
    And,
    Class,
    Else,
    False,
    Fun,
    For,
    If,
    Nil,
    Or,
    Print,
    Return,
    Super,
    This,
    True,
    Var,
    While,
}

/// The mathematical value of a [`TokenKind`]: the same tags, with string
/// payloads abstracted to character sequences.
pub enum SpecTokenKind {
    Colon,
    Comma,
    Dot,
    LeftBrace,
    LeftParen,
    Minus,
    Plus,
    Question,
    RightBrace,
    RightParen,
    SemiColon,
    Slash,
    Star,
    Bang,
    BangEqual,
    Equal,
    EqualEqual,
    Greater,
    GreaterEqual,
    Less,
    LessEqual,
    Identifier,
    Str(Seq<char>),
    Number(Seq<char>),
    And,
    Class,
    Else,
    False,
    Fun,
    For,
    If,
    Nil,
    Or,
    Print,
    Return,
    Super,
    This,
    True,
    Var,
    While,
}

impl View for TokenKind {
    type V = SpecTokenKind;

    open spec fn view(&self) -> SpecTokenKind {
        match self {
            TokenKind::Colon => SpecTokenKind::Colon,
            TokenKind::Comma => SpecTokenKind::Comma,
            TokenKind::Dot => SpecTokenKind::Dot,
            TokenKind::LeftBrace => SpecTokenKind::LeftBrace,
            TokenKind::LeftParen => SpecTokenKind::LeftParen,
            TokenKind::Minus => SpecTokenKind::Minus,
            TokenKind::Plus => SpecTokenKind::Plus,
            TokenKind::Question => SpecTokenKind::Question,
            TokenKind::RightBrace => SpecTokenKind::RightBrace,
            TokenKind::RightParen => SpecTokenKind::RightParen,
            TokenKind::SemiColon => SpecTokenKind::SemiColon,
            TokenKind::Slash => SpecTokenKind::Slash,
            TokenKind::Star => SpecTokenKind::Star,
            TokenKind::Bang => SpecTokenKind::Bang,
            TokenKind::BangEqual => SpecTokenKind::BangEqual,
            TokenKind::Equal => SpecTokenKind::Equal,
            TokenKind::EqualEqual => SpecTokenKind::EqualEqual,
            TokenKind::Greater => SpecTokenKind::Greater,
            TokenKind::GreaterEqual => SpecTokenKind::GreaterEqual,
            TokenKind::Less => SpecTokenKind::Less,
            TokenKind::LessEqual => SpecTokenKind::LessEqual,
            TokenKind::Identifier => SpecTokenKind::Identifier,
            TokenKind::Str(s) => SpecTokenKind::Str(s@),
            TokenKind::Number(s) => SpecTokenKind::Number(s@),
            TokenKind::And => SpecTokenKind::And,
            TokenKind::Class => SpecTokenKind::Class,
            TokenKind::Else => SpecTokenKind::Else,
            TokenKind::False => SpecTokenKind::False,
            TokenKind::Fun => SpecTokenKind::Fun,
            TokenKind::For => SpecTokenKind::For,
            TokenKind::If => SpecTokenKind::If,
            TokenKind::Nil => SpecTokenKind::Nil,
            TokenKind::Or => SpecTokenKind::Or,
            TokenKind::Print => SpecTokenKind::Print,
            TokenKind::Return => SpecTokenKind::Return,
            TokenKind::Super => SpecTokenKind::Super,
            TokenKind::This => SpecTokenKind::This,
            TokenKind::True => SpecTokenKind::True,
            TokenKind::Var => SpecTokenKind::Var,
            TokenKind::While => SpecTokenKind::While,
        }
    }
}

/// A token: a lexical category, the matched source lexeme where one is
/// kept, the 1-based line it was found on, and the character offset of its
/// first character in the source buffer.
///
/// `lexeme` is `None` for tokens whose text is determined by the category
/// alone (punctuation, operators and keywords), `Some` otherwise.
#[derive(Debug, Clone, PartialEq)]
pub struct Token {
    pub kind: TokenKind,
    pub lexeme: Option<String>,
    pub line: usize,
    pub offset: usize,
}

/// The mathematical value of a [`Token`].
pub struct SpecToken {
    pub kind: SpecTokenKind,
    pub lexeme: Option<Seq<char>>,
    pub line: nat,
    pub offset: nat,
}

impl View for Token {
    type V = SpecToken;

    open spec fn view(&self) -> SpecToken {
        SpecToken {
            kind: self.kind@,
            lexeme: match self.lexeme {
                Option::Some(s) => Option::Some(s@),
                Option::None => Option::None,
            },
            line: self.line as nat,
            offset: self.offset as nat,
        }
    }
}

/// Relies on String::push: appends the single character `c` at the end of
/// the string.
#[verifier::external_body]
pub(crate) fn push_char(s: &mut String, c: char)
    ensures
        final(s)@ == old(s)@.push(c),
{
    s.push(c);
}

/// The lower-case hexadecimal digit character for `n`.
pub open spec fn hex_digit(n: nat) -> char
    recommends
        n < 16,
{
    if n < 10 {
        ((48 + n) as u8) as char
    } else {
        ((87 + n) as u8) as char
    }
}

/// The lower-case hexadecimal representation of `n`, most significant
/// digit first, with no leading zeros.
pub open spec fn hex_rep(n: nat) -> Seq<char>
    decreases n,
{
    if n < 16 {
        seq![hex_digit(n)]
    } else {
        hex_rep(n / 16).push(hex_digit(n % 16))
    }
}

/// Renders `n` in lower-case hexadecimal, as [`hex_rep`] states it.
fn hex_string(n: u32) -> (r: String)
    ensures
        r@ == hex_rep(n as nat),
    decreases n,
{
    if n < 16 {
        let mut r = String::new();
        let d = if n < 10 {
            (48 + n as u8) as char
        } else {
            (87 + n as u8) as char
        };
        push_char(&mut r, d);
        proof {
            assert(r@ =~= hex_rep(n as nat));
        }
        r
    } else {
        let mut r = hex_string(n / 16);
        let m = n % 16;
        let d = if m < 10 {
            (48 + m as u8) as char
        } else {
            (87 + m as u8) as char
        };
        push_char(&mut r, d);
        r
    }
}

/// The debug escape of one character inside a quoted string: quote and
/// backslash escaped, named escapes for newline, carriage return, tab and
/// nul, a `\u{..}` escape for the remaining control characters, and every
/// other character itself.
pub open spec fn escape_char(c: char) -> Seq<char> {
    if c == '"' {
        "\\\""@
    } else if c == '\\' {
        "\\\\"@
    } else if c == '\n' {
        "\\n"@
    } else if c == '\r' {
        "\\r"@
    } else if c == '\t' {
        "\\t"@
    } else if c == '\0' {
        "\\0"@
    } else if (c as u32) < 0x20 || (0x7f <= (c as u32) && (c as u32) <= 0x9f) {
        "\\u{"@ + hex_rep((c as u32) as nat) + "}"@
    } else {
        seq![c]
    }
}

/// The debug escape of a whole character sequence: each character escaped
/// as [`escape_char`] says, in order.
pub open spec fn escape_text(s: Seq<char>) -> Seq<char>
    decreases s.len(),
{
    if s.len() == 0 {
        Seq::<char>::empty()
    } else {
        escape_char(s[0]) + escape_text(s.drop_first())
    }
}

/// Escaping one more character appends exactly its escape.
proof fn lemma_escape_push(s: Seq<char>, c: char)
    ensures
        escape_text(s.push(c)) == escape_text(s) + escape_char(c),
    decreases s.len(),
{
    if s.len() == 0 {
        assert(s.push(c)[0] == c);
        assert(s.push(c).drop_first() =~= Seq::<char>::empty());
        assert(s =~= Seq::<char>::empty());
        assert(escape_text(s.push(c)) =~= escape_text(s) + escape_char(c));
    } else {
        assert(s.push(c)[0] == s[0]);
        assert(s.push(c).drop_first() =~= s.drop_first().push(c));
        lemma_escape_push(s.drop_first(), c);
        assert(escape_text(s.push(c)) =~= escape_text(s) + escape_char(c));
    }
}

/// Appends the escape of `c`, as [`escape_char`] states it.
fn push_escaped(r: &mut String, c: char)
    ensures
        final(r)@ == old(r)@ + escape_char(c),
{
    let u = c as u32;
    if c == '"' {
        r.append("\\\"");
    } else if c == '\\' {
        r.append("\\\\");
    } else if c == '\n' {
        r.append("\\n");
    } else if c == '\r' {
        r.append("\\r");
    } else if c == '\t' {
        r.append("\\t");
    } else if c == '\0' {
        r.append("\\0");
    } else if u < 0x20 || (0x7f <= u && u <= 0x9f) {
        r.append("\\u{");
        let digits = hex_string(u);
        r.append(digits.as_str());
        r.append("}");
        proof {
            assert(r@ =~= old(r)@ + escape_char(c));
        }
    } else {
        push_char(r, c);
        proof {
            assert(r@ =~= old(r)@ + escape_char(c));
        }
    }
}

/// Escapes a whole string, as [`escape_text`] states it.
fn escape_string(s: &str) -> (r: String)
    ensures
        r@ == escape_text(s@),
{
    let n = s.unicode_len();
    let mut r = String::new();
    let mut i: usize = 0;
    proof {
        assert(s@.take(0) =~= Seq::<char>::empty());
    }
    while i < n
        invariant
            i <= n,
            n == s@.len(),
            r@ == escape_text(s@.take(i as int)),
        decreases n - i,
    {
        proof {
            lemma_escape_push(s@.take(i as int), s@[i as int]);
            assert(s@.take(i + 1 as int) =~= s@.take(i as int).push(s@[i as int]));
        }
        let c = s.get_char(i);
        push_escaped(&mut r, c);
        i = i + 1;
    }
    proof {
        assert(s@.take(n as int) =~= s@);
    }
    r
}

/// The canonical text of a token kind: the operator or punctuation
/// characters, the keyword word, a literal's payload (a string literal
/// debug-quoted, with its content escaped as [`escape_text`] says), and
/// the placeholder word for an identifier tag.
pub open spec fn kind_text(k: SpecTokenKind) -> Seq<char> {
    match k {
        SpecTokenKind::And => "&&"@,
        SpecTokenKind::Bang => "!"@,
        SpecTokenKind::BangEqual => "!="@,
        SpecTokenKind::Class => "class"@,
        SpecTokenKind::Colon => ":"@,
        SpecTokenKind::Comma => ","@,
        SpecTokenKind::Dot => "."@,
        SpecTokenKind::Else => "else"@,
        SpecTokenKind::Equal => "="@,
        SpecTokenKind::EqualEqual => "=="@,
        SpecTokenKind::False => "false"@,
        SpecTokenKind::For => "for"@,
        SpecTokenKind::Fun => "fun"@,
        SpecTokenKind::Greater => ">"@,
        SpecTokenKind::GreaterEqual => ">="@,
        SpecTokenKind::Identifier => "IDENT"@,
        SpecTokenKind::Number(s) => s,
        SpecTokenKind::If => "if"@,
        SpecTokenKind::LeftBrace => "{"@,
        SpecTokenKind::LeftParen => "("@,
        SpecTokenKind::Less => "<"@,
        SpecTokenKind::LessEqual => "<="@,
        SpecTokenKind::Minus => "-"@,
        SpecTokenKind::Nil => "nil"@,
        SpecTokenKind::Or => "or"@,
        SpecTokenKind::Plus => "+"@,
        SpecTokenKind::Print => "print"@,
        SpecTokenKind::Question => "?"@,
        SpecTokenKind::Return => "return"@,
        SpecTokenKind::RightBrace => "}"@,
        SpecTokenKind::RightParen => ")"@,
        SpecTokenKind::SemiColon => ";"@,
        SpecTokenKind::Slash => "/"@,
        SpecTokenKind::Star => "*"@,
        SpecTokenKind::Str(s) => "\""@ + escape_text(s) + "\""@,
        SpecTokenKind::Super => "super"@,
        SpecTokenKind::This => "this"@,
        SpecTokenKind::True => "true"@,
        SpecTokenKind::Var => "var"@,
        SpecTokenKind::While => "while"@,
    }
}

impl TokenKind {
    /// The canonical text of this kind, as [`kind_text`] states it.
    pub fn text(&self) -> (r: String)
        ensures
            r@ == kind_text(self@),
    {
        match self {
            TokenKind::And => "&&".to_owned(),
            TokenKind::Bang => "!".to_owned(),
            TokenKind::BangEqual => "!=".to_owned(),
            TokenKind::Class => "class".to_owned(),
            TokenKind::Colon => ":".to_owned(),
            TokenKind::Comma => ",".to_owned(),
            TokenKind::Dot => ".".to_owned(),
            TokenKind::Else => "else".to_owned(),
            TokenKind::Equal => "=".to_owned(),
            TokenKind::EqualEqual => "==".to_owned(),
            TokenKind::False => "false".to_owned(),
            TokenKind::For => "for".to_owned(),
            TokenKind::Fun => "fun".to_owned(),
            TokenKind::Greater => ">".to_owned(),
            TokenKind::GreaterEqual => ">=".to_owned(),
            TokenKind::Identifier => "IDENT".to_owned(),
            TokenKind::Number(s) => s.clone(),
            TokenKind::If => "if".to_owned(),
            TokenKind::LeftBrace => "{".to_owned(),
            TokenKind::LeftParen => "(".to_owned(),
            TokenKind::Less => "<".to_owned(),
            TokenKind::LessEqual => "<=".to_owned(),
            TokenKind::Minus => "-".to_owned(),
            TokenKind::Nil => "nil".to_owned(),
            TokenKind::Or => "or".to_owned(),
            TokenKind::Plus => "+".to_owned(),
            TokenKind::Print => "print".to_owned(),
            TokenKind::Question => "?".to_owned(),
            TokenKind::Return => "return".to_owned(),
            TokenKind::RightBrace => "}".to_owned(),
            TokenKind::RightParen => ")".to_owned(),
            TokenKind::SemiColon => ";".to_owned(),
            TokenKind::Slash => "/".to_owned(),
            TokenKind::Star => "*".to_owned(),
            TokenKind::Str(s) => {
                let mut r = "\"".to_owned();
                let escaped = escape_string(s.as_str());
                r.append(escaped.as_str());
                r.append("\"");
                proof {
                    assert(r@ =~= kind_text(self@));
                }
                r
            },
            TokenKind::Super => "super".to_owned(),
            TokenKind::This => "this".to_owned(),
            TokenKind::True => "true".to_owned(),
            TokenKind::Var => "var".to_owned(),
            TokenKind::While => "while".to_owned(),
        }
    }

    /// A copy of this kind with the same mathematical value.
    pub fn duplicate(&self) -> (k: TokenKind)
        ensures
            k@ == self@,
    {
        match self {
            TokenKind::Colon => TokenKind::Colon,
            TokenKind::Comma => TokenKind::Comma,
            TokenKind::Dot => TokenKind::Dot,
            TokenKind::LeftBrace => TokenKind::LeftBrace,
            TokenKind::LeftParen => TokenKind::LeftParen,
            TokenKind::Minus => TokenKind::Minus,
            TokenKind::Plus => TokenKind::Plus,
            TokenKind::Question => TokenKind::Question,
            TokenKind::RightBrace => TokenKind::RightBrace,
            TokenKind::RightParen => TokenKind::RightParen,
            TokenKind::SemiColon => TokenKind::SemiColon,
            TokenKind::Slash => TokenKind::Slash,
            TokenKind::Star => TokenKind::Star,
            TokenKind::Bang => TokenKind::Bang,
            TokenKind::BangEqual => TokenKind::BangEqual,
            TokenKind::Equal => TokenKind::Equal,
            TokenKind::EqualEqual => TokenKind::EqualEqual,
            TokenKind::Greater => TokenKind::Greater,
            TokenKind::GreaterEqual => TokenKind::GreaterEqual,
            TokenKind::Less => TokenKind::Less,
            TokenKind::LessEqual => TokenKind::LessEqual,
            TokenKind::Identifier => TokenKind::Identifier,
            TokenKind::Str(s) => TokenKind::Str(s.clone()),
            TokenKind::Number(s) => TokenKind::Number(s.clone()),
            TokenKind::And => TokenKind::And,
            TokenKind::Class => TokenKind::Class,
            TokenKind::Else => TokenKind::Else,
            TokenKind::False => TokenKind::False,
            TokenKind::Fun => TokenKind::Fun,
            TokenKind::For => TokenKind::For,
            TokenKind::If => TokenKind::If,
            TokenKind::Nil => TokenKind::Nil,
            TokenKind::Or => TokenKind::Or,
            TokenKind::Print => TokenKind::Print,
            TokenKind::Return => TokenKind::Return,
            TokenKind::Super => TokenKind::Super,
            TokenKind::This => TokenKind::This,
            TokenKind::True => TokenKind::True,
            TokenKind::Var => TokenKind::Var,
            TokenKind::While => TokenKind::While,
        }
    }
}

/// The display text of a token: an identifier shows its lexeme, every
/// other token the canonical text of its kind.
pub open spec fn token_text(t: SpecToken) -> Seq<char> {
    if t.kind == SpecTokenKind::Identifier && t.lexeme is Some {
        t.lexeme->Some_0
    } else {
        kind_text(t.kind)
    }
}

impl Token {
    /// The display text of this token, as [`token_text`] states it.
    pub fn text(&self) -> (r: String)
        ensures
            r@ == token_text(self@),
    {
        match (&self.kind, &self.lexeme) {
            (TokenKind::Identifier, Option::Some(lex)) => lex.clone(),
            _ => self.kind.text(),
        }
    }

    /// A copy of this token with the same mathematical value.
    pub fn duplicate(&self) -> (t: Token)
        ensures
            t@ == self@,
    {
        Token {
            kind: self.kind.duplicate(),
            lexeme: match &self.lexeme {
                Option::Some(s) => Option::Some(s.clone()),
                Option::None => Option::None,
            },
            line: self.line,
            offset: self.offset,
        }
    }
}

impl Token {
    /// Builds a token from its parts.
    pub fn new(kind: TokenKind, lexeme: Option<String>, line: usize, offset: usize) -> (t: Token)
        ensures
            t@ == (SpecToken {
                kind: kind@,
                lexeme: match lexeme {
                    Option::Some(s) => Option::Some(s@),
                    Option::None => Option::None,
                },
                line: line as nat,
                offset: offset as nat,
            }),
    {
        Token { kind, lexeme, line, offset }
    }
}

} // verus!
