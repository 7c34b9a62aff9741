use vstd::prelude::*;

verus! {

/// The part of a message that an error was found in.
#[derive(Debug, PartialEq, Eq, Structural, Clone, Copy)]
pub enum DnsPart {
    Header,
    Flags,
    Name,
    Question,
    Record,
}

/// Why a message could not be decoded or encoded.
#[derive(Debug, PartialEq, Eq, Structural, Clone, Copy)]
pub enum DnsError {
    /// The bytes do not hold a well-formed part at `offset`: the buffer ends early,
    /// a length byte is invalid, or a compression pointer does not resolve.
    FormatError { part: DnsPart, offset: usize },
    /// The value breaks a rule of the wire format and cannot be written.
    SerializationError { part: DnsPart },
}

} // verus!
