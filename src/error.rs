//! What can go wrong while a feed page is decoded.

use vstd::prelude::*;

verus! {

/// Which of the two date encodings of the feed a string was read as.
#[derive(Clone, Copy, Debug, PartialEq, Eq, Structural)]
pub enum DateFormat {
    /// An RFC 3339 date and time, such as `2021-03-04T10:15:30Z`.
    Rfc3339,
    /// The older `YYYY-MM-DD HH:MM:SS.ffffff` pattern, read as UTC.
    Legacy,
}

#[derive(Debug)]
pub enum DecodeError {
    /// The text is no JSON document.
    Syntax { reason: String },
    /// A required field is absent or holds no non-empty string.
    NotString { field: String },
    /// A required field is absent or holds no unsigned integer.
    NotUnsigned { field: String },
    /// An array that the schema requires is absent.
    MissingArray { path: String },
    /// A date string could not be read in the encoding its shape calls for.
    BadDate { raw: String, format: DateFormat, reason: String },
    /// An image or a comment of a feed item failed to decode; the item is
    /// identified by its raw `createdDate`, where it has one.
    InPost { created_date: Option<String>, cause: Box<DecodeError> },
}

/// The mathematical value of a [`DecodeError`].
pub enum Fault {
    Syntax { reason: Seq<char> },
    NotString { field: Seq<char> },
    NotUnsigned { field: Seq<char> },
    MissingArray { path: Seq<char> },
    BadDate { raw: Seq<char>, format: DateFormat, reason: Seq<char> },
    InPost { created_date: Option<Seq<char>>, cause: Box<Fault> },
}

pub open spec fn opt_view(o: Option<String>) -> Option<Seq<char>> {
    match o {
        Some(s) => Some(s@),
        None => None,
    }
}

/// The mathematical value of a decoding result.
pub open spec fn outcome<T: View>(r: Result<T, DecodeError>) -> Result<T::V, Fault> {
    match r {
        Ok(x) => Ok(x@),
        Err(e) => Err(e@),
    }
}

impl DecodeError {
    pub open spec fn fault(&self) -> Fault
        decreases self,
    {
        match self {
            DecodeError::Syntax { reason } => Fault::Syntax { reason: reason@ },
            DecodeError::NotString { field } => Fault::NotString { field: field@ },
            DecodeError::NotUnsigned { field } => Fault::NotUnsigned { field: field@ },
            DecodeError::MissingArray { path } => Fault::MissingArray { path: path@ },
            DecodeError::BadDate { raw, format, reason } => Fault::BadDate {
                raw: raw@,
                format: *format,
                reason: reason@,
            },
            DecodeError::InPost { created_date, cause } => Fault::InPost {
                created_date: opt_view(*created_date),
                cause: Box::new(cause.fault()),
            },
        }
    }
}

/// The name of a date encoding, as error messages give it.
pub open spec fn format_name(f: DateFormat) -> Seq<char> {
    match f {
        DateFormat::Rfc3339 => "RFC 3339"@,
        DateFormat::Legacy => "YYYY-MM-DD HH:MM:SS.ffffff"@,
    }
}

/// The message that describes a fault.
pub open spec fn message(f: Fault) -> Seq<char>
    decreases f,
{
    match f {
        Fault::Syntax { reason } => "invalid JSON: "@ + reason,
        Fault::NotString { field } => "'"@ + field + "' is not a non-empty string"@,
        Fault::NotUnsigned { field } => "'"@ + field + "' is not an unsigned integer"@,
        Fault::MissingArray { path } => "no '"@ + path + "' array in json"@,
        Fault::BadDate { raw, format, reason } => "failed to parse '"@ + raw + "' as a "@
            + format_name(format) + " date: "@ + reason,
        Fault::InPost { created_date, cause } => match created_date {
            Some(d) => "in the post of "@ + d + ": "@ + message(*cause),
            None => "in a post without a date: "@ + message(*cause),
        },
    }
}

impl DecodeError {
    /// The message that describes this error.
    pub fn describe(&self) -> (r: String)
        ensures
            r@ == message(self@),
        decreases self,
    {
        match self {
            DecodeError::Syntax { reason } => {
                let mut m = String::from_str("invalid JSON: ");
                m.append(reason.as_str());
                m
            },
            DecodeError::NotString { field } => {
                let mut m = String::from_str("'");
                m.append(field.as_str());
                m.append("' is not a non-empty string");
                m
            },
            DecodeError::NotUnsigned { field } => {
                let mut m = String::from_str("'");
                m.append(field.as_str());
                m.append("' is not an unsigned integer");
                m
            },
            DecodeError::MissingArray { path } => {
                let mut m = String::from_str("no '");
                m.append(path.as_str());
                m.append("' array in json");
                m
            },
            DecodeError::BadDate { raw, format, reason } => {
                let mut m = String::from_str("failed to parse '");
                m.append(raw.as_str());
                m.append("' as a ");
                match format {
                    DateFormat::Rfc3339 => m.append("RFC 3339"),
                    DateFormat::Legacy => m.append("YYYY-MM-DD HH:MM:SS.ffffff"),
                }
                m.append(" date: ");
                m.append(reason.as_str());
                m
            },
            DecodeError::InPost { created_date, cause } => {
                let mut m = match created_date {
                    Some(d) => {
                        let mut m = String::from_str("in the post of ");
                        m.append(d.as_str());
                        m.append(": ");
                        m
                    },
                    None => String::from_str("in a post without a date: "),
                };
                let inner = cause.describe();
                m.append(inner.as_str());
                m
            },
        }
    }
}

impl View for DecodeError {
    type V = Fault;

    open spec fn view(&self) -> Fault {
        self.fault()
    }
}

} // verus!
