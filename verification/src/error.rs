//! The failure kinds shared by every layer, and the text of each.

use crate::pb::abi::{Value, ValueView};
use vstd::prelude::*;
use vstd::string::StringExecFns;

verus! {

/// What can go wrong while a command is carried out.
#[derive(Debug, PartialEq)]
pub enum KvError {
    /// The table holds no such key: table, key.
    NotFound(String, String),
    /// The request cannot be understood.
    InvalidCommand(String),
    /// A value cannot be turned into the named type.
    ConvertError(Value, &'static str),
    /// The backend failed: operation, table, key, what the backend said.
    StorageError(&'static str, String, String, String),
    /// A value could not be turned into bytes.
    EncodeError(String),
    /// Stored bytes are not the encoding of a value.
    DecodeError(String),
    /// Anything else.
    Internal(String),
}

/// The view of a [`KvError`].
pub enum KvErrorView {
    NotFound(Seq<char>, Seq<char>),
    InvalidCommand(Seq<char>),
    ConvertError(ValueView, Seq<char>),
    StorageError(Seq<char>, Seq<char>, Seq<char>, Seq<char>),
    EncodeError(Seq<char>),
    DecodeError(Seq<char>),
    Internal(Seq<char>),
}

impl View for KvError {
    type V = KvErrorView;

    open spec fn view(&self) -> KvErrorView {
        match self {
            KvError::NotFound(table, key) => KvErrorView::NotFound(table@, key@),
            KvError::InvalidCommand(what) => KvErrorView::InvalidCommand(what@),
            KvError::ConvertError(value, target) => KvErrorView::ConvertError(value@, target@),
            KvError::StorageError(op, table, key, cause) => KvErrorView::StorageError(
                op@,
                table@,
                key@,
                cause@,
            ),
            KvError::EncodeError(cause) => KvErrorView::EncodeError(cause@),
            KvError::DecodeError(cause) => KvErrorView::DecodeError(cause@),
            KvError::Internal(cause) => KvErrorView::Internal(cause@),
        }
    }
}

impl KvErrorView {
    /// The text that describes the error.
    pub open spec fn message(self) -> Seq<char> {
        match self {
            KvErrorView::NotFound(table, key) => "Not found for table: "@ + table + ", key: "@
                + key,
            KvErrorView::InvalidCommand(what) => "Cannot parse command: `"@ + what + "`"@,
            KvErrorView::ConvertError(_, target) => "Cannot convert value to "@ + target,
            KvErrorView::StorageError(op, table, key, cause) => "Cannot process command "@ + op
                + " with table: "@ + table + ", key: "@ + key + ". Error: "@ + cause,
            KvErrorView::EncodeError(cause) => "Failed to encode value: "@ + cause,
            KvErrorView::DecodeError(cause) => "Failed to decode value: "@ + cause,
            KvErrorView::Internal(cause) => "Internal error: "@ + cause,
        }
    }
}

impl KvError {
    /// The text that describes the error.
    pub fn to_string(&self) -> (text: String)
        ensures
            text@ == self@.message(),
    {
        match self {
            KvError::NotFound(table, key) => {
                let mut text = String::from_str("Not found for table: ");
                text.append(table.as_str());
                text.append(", key: ");
                text.append(key.as_str());
                text
            },
            KvError::InvalidCommand(what) => {
                let mut text = String::from_str("Cannot parse command: `");
                text.append(what.as_str());
                text.append("`");
                text
            },
            KvError::ConvertError(_, target) => {
                let mut text = String::from_str("Cannot convert value to ");
                text.append(target);
                text
            },
            KvError::StorageError(op, table, key, cause) => {
                let mut text = String::from_str("Cannot process command ");
                text.append(op);
                text.append(" with table: ");
                text.append(table.as_str());
                text.append(", key: ");
                text.append(key.as_str());
                text.append(". Error: ");
                text.append(cause.as_str());
                text
            },
            KvError::EncodeError(cause) => {
                let mut text = String::from_str("Failed to encode value: ");
                text.append(cause.as_str());
                text
            },
            KvError::DecodeError(cause) => {
                let mut text = String::from_str("Failed to decode value: ");
                text.append(cause.as_str());
                text
            },
            KvError::Internal(cause) => {
                let mut text = String::from_str("Internal error: ");
                text.append(cause.as_str());
                text
            },
        }
    }
}

} // verus!
