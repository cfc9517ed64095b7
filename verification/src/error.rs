//! Error types for the Inklang compiler.

use vstd::prelude::*;

verus! {

/// A position in a source text; `line` and `column` count from 1.
#[derive(Clone, Copy, Debug, PartialEq, Eq, Structural)]
pub struct Span {
    pub line: usize,
    pub column: usize,
}

/// Result type for parser operations.
pub type Result<T> = std::result::Result<T, Error>;

/// Parse error types.
#[derive(Debug, Clone)]
pub enum Error {
    /// Unexpected token encountered.
    UnexpectedToken(String),
    /// Expected a specific token type but found something else.
    ExpectedToken { expected: String, found: String },
    /// Unterminated string literal.
    UnterminatedString,
    /// General parse error with a message.
    Parse(String),
    /// Lexer error.
    Lexer(String),
    /// Compilation error.
    Compile(String),
}

impl Error {
    /// The text that describes the error to a user.
    pub open spec fn spec_message(&self) -> Seq<char> {
        match self {
            Error::UnexpectedToken(token) => "Unexpected token: "@ + token@,
            Error::ExpectedToken { expected, found } => "Expected "@ + expected@ + " but found "@
                + found@,
            Error::UnterminatedString => "Unterminated string"@,
            Error::Parse(msg) => "Parse error: "@ + msg@,
            Error::Lexer(msg) => "Lexer error: "@ + msg@,
            Error::Compile(msg) => "Compilation error: "@ + msg@,
        }
    }

    /// Each message is its variant's fixed wording with the whole of the
    /// error's text in it: after the prefix comes the entire payload, and for
    /// an expected/found pair the expected text sits right after
    /// `Expected ` and the found text ends the message.
    pub proof fn lemma_message_carries_payload(&self)
        ensures
            match self {
                Error::UnexpectedToken(token) => {
                    &&& self.spec_message().len() == 18 + token@.len()
                    &&& self.spec_message().take(18) == "Unexpected token: "@
                    &&& self.spec_message().skip(18) == token@
                },
                Error::ExpectedToken { expected, found } => {
                    let m = self.spec_message();
                    &&& m.len() == 9 + expected@.len() + 11 + found@.len()
                    &&& m.take(9) == "Expected "@
                    &&& m.subrange(9, 9 + expected@.len() as int) == expected@
                    &&& m.subrange(9 + expected@.len() as int, 20 + expected@.len() as int) == " but found "@
                    &&& m.skip(20 + expected@.len() as int) == found@
                },
                Error::UnterminatedString => self.spec_message() == "Unterminated string"@
                    && self.spec_message().len() == 19,
                Error::Parse(msg) => {
                    &&& self.spec_message().len() == 13 + msg@.len()
                    &&& self.spec_message().take(13) == "Parse error: "@
                    &&& self.spec_message().skip(13) == msg@
                },
                Error::Lexer(msg) => {
                    &&& self.spec_message().len() == 13 + msg@.len()
                    &&& self.spec_message().take(13) == "Lexer error: "@
                    &&& self.spec_message().skip(13) == msg@
                },
                Error::Compile(msg) => {
                    &&& self.spec_message().len() == 19 + msg@.len()
                    &&& self.spec_message().take(19) == "Compilation error: "@
                    &&& self.spec_message().skip(19) == msg@
                },
            },
    {
        reveal_strlit("Unexpected token: ");
        reveal_strlit("Expected ");
        reveal_strlit(" but found ");
        reveal_strlit("Unterminated string");
        reveal_strlit("Parse error: ");
        reveal_strlit("Lexer error: ");
        reveal_strlit("Compilation error: ");
        match self {
            Error::UnexpectedToken(token) => {
                let m = self.spec_message();
                assert(m.take(18) =~= "Unexpected token: "@);
                assert(m.skip(18) =~= token@);
            },
            Error::ExpectedToken { expected, found } => {
                let m = self.spec_message();
                let e = expected@.len() as int;
                assert(m.take(9) =~= "Expected "@);
                assert(m.subrange(9, 9 + e) =~= expected@);
                assert(m.subrange(9 + e, 20 + e) =~= " but found "@);
                assert(m.skip(20 + e) =~= found@);
            },
            Error::UnterminatedString => {},
            Error::Parse(msg) => {
                let m = self.spec_message();
                assert(m.take(13) =~= "Parse error: "@);
                assert(m.skip(13) =~= msg@);
            },
            Error::Lexer(msg) => {
                let m = self.spec_message();
                assert(m.take(13) =~= "Lexer error: "@);
                assert(m.skip(13) =~= msg@);
            },
            Error::Compile(msg) => {
                let m = self.spec_message();
                assert(m.take(19) =~= "Compilation error: "@);
                assert(m.skip(19) =~= msg@);
            },
        }
    }

    /// Renders the error as text, as its `Display` form reads.
    pub fn message(&self) -> (text: String)
        ensures
            text@ == self.spec_message(),
    {
        match self {
            Error::UnexpectedToken(token) => {
                let mut text = String::from_str("Unexpected token: ");
                text.append(token.as_str());
                text
            },
            Error::ExpectedToken { expected, found } => {
                let mut text = String::from_str("Expected ");
                text.append(expected.as_str());
                text.append(" but found ");
                text.append(found.as_str());
                text
            },
            Error::UnterminatedString => String::from_str("Unterminated string"),
            Error::Parse(msg) => {
                let mut text = String::from_str("Parse error: ");
                text.append(msg.as_str());
                text
            },
            Error::Lexer(msg) => {
                let mut text = String::from_str("Lexer error: ");
                text.append(msg.as_str());
                text
            },
            Error::Compile(msg) => {
                let mut text = String::from_str("Compilation error: ");
                text.append(msg.as_str());
                text
            },
        }
    }
}

} // verus!
