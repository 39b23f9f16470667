//! Tools for a line-oriented notation of Carnatic compositions: a parser
//! that turns a text into a document, a syllabifier that cuts a lyric token
//! into as many units as its melodic token has notes, and a validator that
//! lists what is wrong with a document. A renderer, a typesetter and what
//! an editor asks of a document stand beside them.

pub mod editor;
pub mod formatter;
pub mod parser;
pub mod pdf;
pub mod sahitya_parser;
pub mod text;
pub mod translit;
pub mod types;
pub mod units;
pub mod validator;
pub mod wasm_types;
pub mod yaml;

pub use parser::parse;
pub use types::{
    Comment, CommentType, Location, Metadata, ParseError, ParseErrorKind, ParseResult, Phrase,
    Position, Range, Section, Severity, Token, ValidationIssue, VnaDocument,
};
pub use validator::validate;
