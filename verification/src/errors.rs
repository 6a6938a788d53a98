//! The closed error taxonomy: a kind plus a message, kept as bytes.
use vstd::prelude::*;

verus! {

use crate::text::lit;

#[derive(Debug)]
pub enum AppError {
    ConfigError(Vec<u8>),
    FileError(Vec<u8>),
    ParseError(Vec<u8>),
    IoError(Vec<u8>),
    ValidationError(Vec<u8>),
}

impl AppError {
    /// The message carried by the error.
    pub open spec fn message_spec(&self) -> Seq<u8> {
        match self {
            AppError::ConfigError(m) => m@,
            AppError::FileError(m) => m@,
            AppError::ParseError(m) => m@,
            AppError::IoError(m) => m@,
            AppError::ValidationError(m) => m@,
        }
    }

    /// The taxonomy label that precedes the message when displayed.
    pub open spec fn label_spec(&self) -> Seq<u8> {
        match self {
            AppError::ConfigError(_) => lit("Configuration Error: "),
            AppError::FileError(_) => lit("File Error: "),
            AppError::ParseError(_) => lit("Parse Error: "),
            AppError::IoError(_) => lit("I/O Error: "),
            AppError::ValidationError(_) => lit("Validation Error: "),
        }
    }

    pub open spec fn render_spec(&self) -> Seq<u8> {
        self.label_spec() + self.message_spec()
    }

    /// The taxonomy-prefixed display form, e.g. `Validation Error: ...`.
    pub fn render(&self) -> (r: Vec<u8>)
        ensures
            r@ == self.render_spec(),
    {
        let mut out: Vec<u8> = Vec::new();
        match self {
            AppError::ConfigError(m) => {
                crate::text::push_lit(&mut out, "Configuration Error: ");
                crate::text::push_bytes(&mut out, m.as_slice());
            },
            AppError::FileError(m) => {
                crate::text::push_lit(&mut out, "File Error: ");
                crate::text::push_bytes(&mut out, m.as_slice());
            },
            AppError::ParseError(m) => {
                crate::text::push_lit(&mut out, "Parse Error: ");
                crate::text::push_bytes(&mut out, m.as_slice());
            },
            AppError::IoError(m) => {
                crate::text::push_lit(&mut out, "I/O Error: ");
                crate::text::push_bytes(&mut out, m.as_slice());
            },
            AppError::ValidationError(m) => {
                crate::text::push_lit(&mut out, "Validation Error: ");
                crate::text::push_bytes(&mut out, m.as_slice());
            },
        }
        out
    }

    /// The message bytes, for callers that match on the kind themselves.
    pub fn message(&self) -> (r: &Vec<u8>)
        ensures
            r@ == self.message_spec(),
    {
        match self {
            AppError::ConfigError(m) => m,
            AppError::FileError(m) => m,
            AppError::ParseError(m) => m,
            AppError::IoError(m) => m,
            AppError::ValidationError(m) => m,
        }
    }
}

} // verus!
