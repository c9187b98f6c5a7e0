use vstd::prelude::*;

verus! {

/// Which field of a message carried a value that has no defined meaning.
#[derive(Debug, Clone, Copy, PartialEq, Eq, Structural)]
pub enum CodeField {
    QueryType,
    QueryClass,
    ResponseCode,
}

/// Every way in which decoding a message can fail.
#[derive(Debug, Clone, Copy, PartialEq, Eq, Structural)]
pub enum DnsPacketError {
    /// A read or a move of the cursor reached the given position, which lies
    /// at or beyond the end of the buffer.
    OutOfBounds(usize),
    /// Name decompression followed more pointers than the given limit allows.
    MaxJumpsLimit(i32),
    /// A numeric code has no defined meaning for the given field.
    UnsupportedCode(u16, CodeField),
    /// A resource record carries a type whose data layout is not decoded.
    UnsupportedRecordType(u16),
}

} // verus!
