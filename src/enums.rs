use vstd::prelude::*;

use crate::error::{CodeField, DnsPacketError};

verus! {

/// Type field used in resource records and questions.
#[derive(Debug, Clone, Copy, PartialEq, Eq, Structural)]
pub enum QueryType {
    /// Host address
    A,
    /// Authoritative name server
    NS,
    /// Mail destination (obsolete, use MX)
    MD,
    /// Mail forwarder (obsolete, use MX)
    MF,
    /// Canonical name for an alias
    CNAME,
    /// Start of a zone of authority
    SOA,
    /// Mailbox domain name (experimental)
    MB,
    /// Mail group member (experimental)
    MG,
    /// Mail rename domain name (experimental)
    MR,
    /// Null record (experimental)
    NULL,
    /// Well known service description
    WKS,
    /// Domain name pointer
    PTR,
    /// Host information
    HINFO,
    /// Mailbox or mail list information
    MINFO,
    /// Mail exchange
    MX,
    /// Text strings
    TXT,
    /// Request for a transfer of an entire zone
    AXFR,
    /// Request for mailbox-related records (MB, MG or MR)
    MAILB,
    /// Request for mail agent records (obsolete, see MX)
    MAILA,
    /// Request for all records
    ALL,
}

/// The wire value of each query type.
pub open spec fn query_type_code(t: QueryType) -> u16 {
    match t {
        QueryType::A => 1,
        QueryType::NS => 2,
        QueryType::MD => 3,
        QueryType::MF => 4,
        QueryType::CNAME => 5,
        QueryType::SOA => 6,
        QueryType::MB => 7,
        QueryType::MG => 8,
        QueryType::MR => 9,
        QueryType::NULL => 10,
        QueryType::WKS => 11,
        QueryType::PTR => 12,
        QueryType::HINFO => 13,
        QueryType::MINFO => 14,
        QueryType::MX => 15,
        QueryType::TXT => 16,
        QueryType::AXFR => 252,
        QueryType::MAILB => 253,
        QueryType::MAILA => 254,
        QueryType::ALL => 255,
    }
}

/// The query type that a wire value stands for, if any.
pub open spec fn query_type_of(v: u16) -> Option<QueryType> {
    match v {
        1 => Some(QueryType::A),
        2 => Some(QueryType::NS),
        3 => Some(QueryType::MD),
        4 => Some(QueryType::MF),
        5 => Some(QueryType::CNAME),
        6 => Some(QueryType::SOA),
        7 => Some(QueryType::MB),
        8 => Some(QueryType::MG),
        9 => Some(QueryType::MR),
        10 => Some(QueryType::NULL),
        11 => Some(QueryType::WKS),
        12 => Some(QueryType::PTR),
        13 => Some(QueryType::HINFO),
        14 => Some(QueryType::MINFO),
        15 => Some(QueryType::MX),
        16 => Some(QueryType::TXT),
        252 => Some(QueryType::AXFR),
        253 => Some(QueryType::MAILB),
        254 => Some(QueryType::MAILA),
        255 => Some(QueryType::ALL),
        _ => None,
    }
}

impl QueryType {
    /// The wire value of this query type.
    pub fn code(&self) -> (r: u16)
        ensures
            r == query_type_code(*self),
            query_type_of(r) == Some(*self),
    {
        match self {
            QueryType::A => 1,
            QueryType::NS => 2,
            QueryType::MD => 3,
            QueryType::MF => 4,
            QueryType::CNAME => 5,
            QueryType::SOA => 6,
            QueryType::MB => 7,
            QueryType::MG => 8,
            QueryType::MR => 9,
            QueryType::NULL => 10,
            QueryType::WKS => 11,
            QueryType::PTR => 12,
            QueryType::HINFO => 13,
            QueryType::MINFO => 14,
            QueryType::MX => 15,
            QueryType::TXT => 16,
            QueryType::AXFR => 252,
            QueryType::MAILB => 253,
            QueryType::MAILA => 254,
            QueryType::ALL => 255,
        }
    }

    /// Maps a wire value to its query type; a value without one is an
    /// `UnsupportedCode` error.
    pub fn from_code(v: u16) -> (r: Result<QueryType, DnsPacketError>)
        ensures
            r == match query_type_of(v) {
                Some(t) => Ok(t),
                None => Err(DnsPacketError::UnsupportedCode(v, CodeField::QueryType)),
            },
    {
        let r = match v {
            1 => QueryType::A,
            2 => QueryType::NS,
            3 => QueryType::MD,
            4 => QueryType::MF,
            5 => QueryType::CNAME,
            6 => QueryType::SOA,
            7 => QueryType::MB,
            8 => QueryType::MG,
            9 => QueryType::MR,
            10 => QueryType::NULL,
            11 => QueryType::WKS,
            12 => QueryType::PTR,
            13 => QueryType::HINFO,
            14 => QueryType::MINFO,
            15 => QueryType::MX,
            16 => QueryType::TXT,
            252 => QueryType::AXFR,
            253 => QueryType::MAILB,
            254 => QueryType::MAILA,
            255 => QueryType::ALL,
            _ => {
                return Err(DnsPacketError::UnsupportedCode(v, CodeField::QueryType));
            },
        };
        Ok(r)
    }
}
/// Class field used in questions.
#[derive(Debug, Clone, Copy, PartialEq, Eq, Structural)]
pub enum QueryClass {
    /// Internet
    IN,
    /// CSNET class (obsolete, used only for examples in some obsolete RFCs)
    CS,
    /// CHAOS class
    CH,
    /// Hesiod
    HS,
    /// Any class
    ALL,
}

/// The wire value of each query class.
pub open spec fn query_class_code(c: QueryClass) -> u16 {
    match c {
        QueryClass::IN => 1,
        QueryClass::CS => 2,
        QueryClass::CH => 3,
        QueryClass::HS => 4,
        QueryClass::ALL => 255,
    }
}

/// The query class that a wire value stands for, if any.
pub open spec fn query_class_of(v: u16) -> Option<QueryClass> {
    match v {
        1 => Some(QueryClass::IN),
        2 => Some(QueryClass::CS),
        3 => Some(QueryClass::CH),
        4 => Some(QueryClass::HS),
        255 => Some(QueryClass::ALL),
        _ => None,
    }
}

impl QueryClass {
    /// The wire value of this query class.
    pub fn code(&self) -> (r: u16)
        ensures
            r == query_class_code(*self),
            query_class_of(r) == Some(*self),
    {
        match self {
            QueryClass::IN => 1,
            QueryClass::CS => 2,
            QueryClass::CH => 3,
            QueryClass::HS => 4,
            QueryClass::ALL => 255,
        }
    }

    /// Maps a wire value to its query class; a value without one is an
    /// `UnsupportedCode` error.
    pub fn from_code(v: u16) -> (r: Result<QueryClass, DnsPacketError>)
        ensures
            r == match query_class_of(v) {
                Some(c) => Ok(c),
                None => Err(DnsPacketError::UnsupportedCode(v, CodeField::QueryClass)),
            },
    {
        let r = match v {
            1 => QueryClass::IN,
            2 => QueryClass::CS,
            3 => QueryClass::CH,
            4 => QueryClass::HS,
            255 => QueryClass::ALL,
            _ => {
                return Err(DnsPacketError::UnsupportedCode(v, CodeField::QueryClass));
            },
        };
        Ok(r)
    }
}

/// Response code of a message: the outcome that a server reports.
#[derive(Debug, Clone, Copy, PartialEq, Eq, Structural)]
pub enum ResponseCode {
    /// No error condition
    NOERROR,
    /// Format error: the name server was unable to interpret the query.
    FORMERR,
    /// Server failure: the name server was unable to process this query due
    /// to a problem with the name server.
    SERVFAIL,
    /// Name error: meaningful only for responses from an authoritative name
    /// server, the domain name referenced in the query does not exist.
    NXDOMAIN,
    /// Not implemented: the name server does not support the requested kind
    /// of query.
    NOTIMP,
    /// Refused: the name server refuses to perform the specified operation
    /// for policy reasons.
    REFUSED,
}

/// The wire value of each response code.
pub open spec fn response_code_value(c: ResponseCode) -> u8 {
    match c {
        ResponseCode::NOERROR => 0,
        ResponseCode::FORMERR => 1,
        ResponseCode::SERVFAIL => 2,
        ResponseCode::NXDOMAIN => 3,
        ResponseCode::NOTIMP => 4,
        ResponseCode::REFUSED => 5,
    }
}

/// The response code that a wire value stands for, if any.
pub open spec fn response_code_of(v: u8) -> Option<ResponseCode> {
    match v {
        0 => Some(ResponseCode::NOERROR),
        1 => Some(ResponseCode::FORMERR),
        2 => Some(ResponseCode::SERVFAIL),
        3 => Some(ResponseCode::NXDOMAIN),
        4 => Some(ResponseCode::NOTIMP),
        5 => Some(ResponseCode::REFUSED),
        _ => None,
    }
}

impl ResponseCode {
    /// The wire value of this response code.
    pub fn code(&self) -> (r: u8)
        ensures
            r == response_code_value(*self),
            response_code_of(r) == Some(*self),
    {
        match self {
            ResponseCode::NOERROR => 0,
            ResponseCode::FORMERR => 1,
            ResponseCode::SERVFAIL => 2,
            ResponseCode::NXDOMAIN => 3,
            ResponseCode::NOTIMP => 4,
            ResponseCode::REFUSED => 5,
        }
    }

    /// Maps a wire value to its response code; a value without one is an
    /// `UnsupportedCode` error.
    pub fn from_code(v: u8) -> (r: Result<ResponseCode, DnsPacketError>)
        ensures
            r == match response_code_of(v) {
                Some(c) => Ok(c),
                None => Err(DnsPacketError::UnsupportedCode(v as u16, CodeField::ResponseCode)),
            },
    {
        let r = match v {
            0 => ResponseCode::NOERROR,
            1 => ResponseCode::FORMERR,
            2 => ResponseCode::SERVFAIL,
            3 => ResponseCode::NXDOMAIN,
            4 => ResponseCode::NOTIMP,
            5 => ResponseCode::REFUSED,
            _ => {
                return Err(DnsPacketError::UnsupportedCode(v as u16, CodeField::ResponseCode));
            },
        };
        Ok(r)
    }
}

} // verus!
