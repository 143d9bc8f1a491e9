//! The ways in which reading a start tag as a map can fail.

use vstd::prelude::*;

verus! {

/// Malformed attribute syntax. Each variant carries the index, within the
/// bytes of the tag, of the byte that breaks the syntax.
#[derive(Clone, Copy, Debug, PartialEq, Eq, Structural)]
pub enum AttrError {
    /// A name is followed by something other than `=`: the index is that of
    /// the offending byte, or the length of the tag if the tag ends there.
    NoEqAfterName(usize),
    /// The value after `=` does not start with a quote, or its opening quote
    /// is never closed: the index is that of the first byte of the value.
    UnquotedValue(usize),
}

/// An error of a key or value request.
#[derive(Clone, Copy, Debug, PartialEq, Eq, Structural)]
pub enum DeError {
    /// The attributes of the tag are malformed.
    Xml(AttrError),
    /// A value was requested while no key was pending: the driver did not
    /// alternate key and value requests.
    EndOfAttributes,
}

} // verus!
