//! Classified resolution failures and the help they carry.

use crate::help::{Help, HelpView};
use vstd::prelude::*;
use vstd::string::*;

verus! {

/// Why a resolution failed.
#[derive(Debug, Clone, PartialEq)]
pub enum ErrorKind {
    /// A required argument was not among the tokens.
    MissingRequired { name: String },
    /// An argument was found, but its value does not convert, or (`value`
    /// is `None`) an option was found with no value after it.
    InvalidValue { name: String, value: Option<String> },
    /// Tokens were left over when all arguments had been declared: their
    /// texts and, one for one, their positions among the tokens.
    UnexpectedExtra { tokens: Vec<String>, positions: Vec<usize> },
}

/// A resolution failure together with the help document that was active
/// when it arose.
#[derive(Debug, Clone, PartialEq)]
pub struct CliError<'c> {
    pub kind: ErrorKind,
    pub help: Option<Help<'c>>,
}

/// View of an optional owned text.
pub open spec fn owned_view(t: Option<String>) -> Option<Seq<char>> {
    match t {
        Some(s) => Some(s@),
        None => None,
    }
}

/// The views of a list of owned texts.
pub open spec fn owned_views(t: Seq<String>) -> Seq<Seq<char>> {
    Seq::new(t.len(), |i: int| t[i]@)
}

/// The one-line diagnostic of a failure.
pub open spec fn message_text(kind: ErrorKind) -> Seq<char> {
    match kind {
        ErrorKind::MissingRequired { name } => "missing required argument '"@ + name@ + "'"@,
        ErrorKind::InvalidValue { name, value: Some(v) } => "invalid value '"@ + v@
            + "' for argument '"@ + name@ + "'"@,
        ErrorKind::InvalidValue { name, value: None } => "missing value for option '"@ + name@
            + "'"@,
        ErrorKind::UnexpectedExtra { tokens, positions } => if tokens@.len() > 0 {
            "unexpected argument '"@ + tokens@[0]@ + "'"@
        } else {
            "unexpected argument"@
        },
    }
}

/// The part of a help document that is shown beside a diagnostic: the usage
/// excerpt, or the whole quick-reference text where there is no excerpt.
pub open spec fn help_excerpt(help: Option<HelpView>) -> Option<Seq<char>> {
    match help {
        Some(h) => match h.usage {
            Some(u) => Some(u),
            None => Some(h.quick_text),
        },
        None => None,
    }
}

/// A diagnostic with the help excerpt, if there is one, after an empty line.
pub open spec fn rendered(message: Seq<char>, excerpt: Option<Seq<char>>) -> Seq<char> {
    match excerpt {
        Some(x) => message + "\n\n"@ + x,
        None => message,
    }
}

impl ErrorKind {
    /// Whether this reports the argument `name` as missing.
    pub open spec fn is_missing_required(self, name: Seq<char>) -> bool {
        self matches ErrorKind::MissingRequired { name: n } && n@ == name
    }

    /// Whether this reports `value` as no value for the argument `name`.
    pub open spec fn is_invalid_value(self, name: Seq<char>, value: Option<Seq<char>>) -> bool {
        self matches ErrorKind::InvalidValue { name: n, value: v } && n@ == name && owned_view(v)
            == value
    }

    /// Whether this reports the tokens `tokens` at `positions` as left over.
    pub open spec fn is_unexpected_extra(
        self,
        tokens: Seq<Seq<char>>,
        positions: Seq<usize>,
    ) -> bool {
        self matches ErrorKind::UnexpectedExtra { tokens: t, positions: p } && owned_views(t@)
            == tokens && p@ == positions
    }

    /// The one-line diagnostic of this failure.
    pub fn message(&self) -> (r: String)
        ensures
            r@ == message_text(*self),
    {
        match self {
            ErrorKind::MissingRequired { name } => {
                String::from_str("missing required argument '").concat(name.as_str()).concat("'")
            },
            ErrorKind::InvalidValue { name, value: Some(v) } => {
                String::from_str("invalid value '").concat(v.as_str()).concat(
                    "' for argument '",
                ).concat(name.as_str()).concat("'")
            },
            ErrorKind::InvalidValue { name, value: None } => {
                String::from_str("missing value for option '").concat(name.as_str()).concat("'")
            },
            ErrorKind::UnexpectedExtra { tokens, positions } => {
                if tokens.len() > 0 {
                    String::from_str("unexpected argument '").concat(tokens[0].as_str()).concat(
                        "'",
                    )
                } else {
                    String::from_str("unexpected argument")
                }
            },
        }
    }
}

impl<'c> CliError<'c> {
    /// The argument `name` is missing.
    pub fn missing_required(name: &str, help: Option<Help<'c>>) -> (e: Self)
        ensures
            e.kind.is_missing_required(name@),
            e.help == help,
    {
        CliError { kind: ErrorKind::MissingRequired { name: name.to_owned() }, help }
    }

    /// The text `value` is no value for the argument `name`.
    pub fn invalid_value(name: &str, value: &str, help: Option<Help<'c>>) -> (e: Self)
        ensures
            e.kind.is_invalid_value(name@, Some(value@)),
            e.help == help,
    {
        CliError {
            kind: ErrorKind::InvalidValue { name: name.to_owned(), value: Some(value.to_owned()) },
            help,
        }
    }

    /// The option `name` stands without a value.
    pub fn no_value(name: &str, help: Option<Help<'c>>) -> (e: Self)
        ensures
            e.kind.is_invalid_value(name@, None),
            e.help == help,
    {
        CliError { kind: ErrorKind::InvalidValue { name: name.to_owned(), value: None }, help }
    }

    /// The tokens `tokens`, which stand at `positions`, are left over.
    pub fn unexpected_extra(
        tokens: Vec<String>,
        positions: Vec<usize>,
        help: Option<Help<'c>>,
    ) -> (e: Self)
        ensures
            e.kind.is_unexpected_extra(owned_views(tokens@), positions@),
            e.help == help,
    {
        CliError { kind: ErrorKind::UnexpectedExtra { tokens, positions }, help }
    }

    /// What is shown to the user: the diagnostic and, where a help document
    /// is attached, its usage excerpt or else its quick-reference text.
    pub fn render(&self) -> (r: String)
        ensures
            r@ == rendered(
                message_text(self.kind),
                help_excerpt(
                    match self.help {
                        Some(h) => Some(h@),
                        None => None,
                    },
                ),
            ),
    {
        let message = self.kind.message();
        match self.help {
            Some(h) => {
                let excerpt = match h.get_usage() {
                    Some(u) => u,
                    None => h.get_quick_text(),
                };
                message.concat("\n\n").concat(excerpt)
            },
            None => message,
        }
    }
}

} // verus!
