use vstd::prelude::*;

use crate::buffer::{
    be16, be32, name_at, name_text, u16_at, u32_at, DnsPacketBuffer, BUFFER_SIZE, fault_pos,
    out_of_bounds,
};
use crate::enums::{
    query_class_of, query_type_of, response_code_of, QueryClass, QueryType, ResponseCode,
};
use crate::error::{CodeField, DnsPacketError};

verus! {

/// The fixed-size header that starts every message.
#[derive(Debug, Clone, Copy, PartialEq, Eq, Structural)]
pub struct DnsHeader {
    /// Identifier of the transaction.
    pub id: u16,
    /// Operation code: the kind of query in this message.
    pub opcode: u8,
    /// Query (false) or response (true).
    pub qr: bool,
    /// Authoritative answer: the responding name server is an authority for
    /// the domain name in the question section.
    pub aa: bool,
    /// Truncation: the message was cut short to fit the transmission channel.
    pub tc: bool,
    /// Recursion desired.
    pub rd: bool,
    /// Recursion available: set or cleared in a response, it tells whether
    /// the name server supports recursive queries.
    pub ra: bool,
    /// Reserved bit.
    pub z: bool,
    /// Response code.
    pub rcode: ResponseCode,
    /// Number of entries in the question section.
    pub qdcount: u16,
    /// Number of resource records in the answer section.
    pub ancount: u16,
    /// Number of name server resource records in the authority section.
    pub nscount: u16,
    /// Number of resource records in the additional records section.
    pub arcount: u16,
}

/// Whether bit `i` (0 is the least significant) of `b` is set.
pub open spec fn bit(b: u8, i: u8) -> bool {
    (b >> i) & 1 == 1
}

/// The header whose flag bytes are `a` (high) and `b` (low).
pub open spec fn header_of(
    id: u16,
    a: u8,
    b: u8,
    rcode: ResponseCode,
    qdcount: u16,
    ancount: u16,
    nscount: u16,
    arcount: u16,
) -> DnsHeader {
    DnsHeader {
        id,
        opcode: (a >> 3) & 0x0F,
        qr: bit(a, 7),
        aa: bit(a, 2),
        tc: bit(a, 1),
        rd: bit(a, 0),
        ra: bit(b, 7),
        z: bit(b, 6),
        rcode,
        qdcount,
        ancount,
        nscount,
        arcount,
    }
}

/// Decoding the header at `p`: the header or the error, and the cursor
/// afterwards. The response code is checked once the flags are read, before
/// the section counts.
pub open spec fn header_at(buf: Seq<u8>, p: int) -> (Result<DnsHeader, DnsPacketError>, int) {
    if p + 4 > BUFFER_SIZE {
        (Err(out_of_bounds(fault_pos(p))), fault_pos(p))
    } else {
        let a = buf[p + 2];
        let b = buf[p + 3];
        match response_code_of(b & 0x0F) {
            None => (
                Err(DnsPacketError::UnsupportedCode((b & 0x0F) as u16, CodeField::ResponseCode)),
                p + 4,
            ),
            Some(rcode) => if p + 12 > BUFFER_SIZE {
                (Err(out_of_bounds(BUFFER_SIZE as int)), BUFFER_SIZE as int)
            } else {
                (
                    Ok(
                        header_of(
                            be16(buf[p], buf[p + 1]),
                            a,
                            b,
                            rcode,
                            be16(buf[p + 4], buf[p + 5]),
                            be16(buf[p + 6], buf[p + 7]),
                            be16(buf[p + 8], buf[p + 9]),
                            be16(buf[p + 10], buf[p + 11]),
                        ),
                    ),
                    p + 12,
                )
            },
        }
    }
}

proof fn lemma_split_u16(hi: u8, lo: u8)
    ensures
        (be16(hi, lo) >> 8u16) as u8 == hi,
        (be16(hi, lo) & 0xFFu16) as u8 == lo,
{
    assert(((((hi as u16) << 8u16) | (lo as u16)) >> 8u16) as u8 == hi) by (bit_vector);
    assert(((((hi as u16) << 8u16) | (lo as u16)) & 0xFFu16) as u8 == lo) by (bit_vector);
}

impl DnsHeader {
    /// Decodes the header under the cursor, moving the cursor past it.
    pub fn decode(buffer: &mut DnsPacketBuffer) -> (r: Result<DnsHeader, DnsPacketError>)
        ensures
            final(buffer).buf == old(buffer).buf,
            (r, final(buffer).pos as int) == header_at(old(buffer).buf@, old(buffer).pos as int),
    {
        let id = buffer.read_u16()?;
        let flags = buffer.read_u16()?;
        proof {
            lemma_split_u16(buffer.buf@[buffer.pos - 2], buffer.buf@[buffer.pos - 1]);
        }
        let a = (flags >> 8) as u8;
        let b = (flags & 0xFF) as u8;
        let rcode = ResponseCode::from_code(b & 0x0F)?;
        let qdcount = buffer.read_u16()?;
        let ancount = buffer.read_u16()?;
        let nscount = buffer.read_u16()?;
        let arcount = buffer.read_u16()?;
        Ok(
            DnsHeader {
                id,
                opcode: (a >> 3) & 0x0F,
                qr: (a >> 7) & 1 == 1,
                aa: (a >> 2) & 1 == 1,
                tc: (a >> 1) & 1 == 1,
                rd: (a >> 0) & 1 == 1,
                ra: (b >> 7) & 1 == 1,
                z: (b >> 6) & 1 == 1,
                rcode,
                qdcount,
                ancount,
                nscount,
                arcount,
            },
        )
    }
}

/// The header of all zeroes: a query with no entries and no error.
pub open spec fn empty_header() -> DnsHeader {
    DnsHeader {
        id: 0,
        opcode: 0,
        qr: false,
        aa: false,
        tc: false,
        rd: false,
        ra: false,
        z: false,
        rcode: ResponseCode::NOERROR,
        qdcount: 0,
        ancount: 0,
        nscount: 0,
        arcount: 0,
    }
}

impl Default for DnsHeader {
    /// A header of all zeroes: a query with no entries and no error.
    fn default() -> (r: Self)
        ensures
            r == empty_header(),
    {
        Self {
            id: 0,
            opcode: 0,
            qr: false,
            aa: false,
            tc: false,
            rd: false,
            ra: false,
            z: false,
            rcode: ResponseCode::NOERROR,
            qdcount: 0,
            ancount: 0,
            nscount: 0,
            arcount: 0,
        }
    }
}
/// One entry of the question section.
#[derive(Debug, Clone)]
pub struct DnsQuestion {
    /// The domain name asked about, as dotted text.
    pub name: String,
    /// The type of the query.
    pub qtype: QueryType,
    /// The class of the query.
    pub qclass: QueryClass,
}

impl View for DnsQuestion {
    type V = (Seq<char>, QueryType, QueryClass);

    open spec fn view(&self) -> (Seq<char>, QueryType, QueryClass) {
        (self.name@, self.qtype, self.qclass)
    }
}

/// Decoding the question at `p`: the question or the error, and the cursor
/// afterwards. The type is checked before the class is read.
pub open spec fn question_at(buf: Seq<u8>, p: int) -> (
    Result<(Seq<char>, QueryType, QueryClass), DnsPacketError>,
    int,
) {
    let n = name_at(buf, p);
    match n.0 {
        Err(e) => (Err(e), n.1),
        Ok(labels) => {
            let t = u16_at(buf, n.1);
            match t.0 {
                Err(e) => (Err(e), t.1),
                Ok(tv) => match query_type_of(tv) {
                    None => (Err(DnsPacketError::UnsupportedCode(tv, CodeField::QueryType)), t.1),
                    Some(qtype) => {
                        let c = u16_at(buf, t.1);
                        match c.0 {
                            Err(e) => (Err(e), c.1),
                            Ok(cv) => match query_class_of(cv) {
                                None => (
                                    Err(DnsPacketError::UnsupportedCode(cv, CodeField::QueryClass)),
                                    c.1,
                                ),
                                Some(qclass) => (Ok((name_text(labels), qtype, qclass)), c.1),
                            },
                        }
                    },
                },
            }
        },
    }
}

impl DnsQuestion {
    pub fn new(name: String, qtype: QueryType, qclass: QueryClass) -> (r: Self)
        ensures
            r.name == name,
            r.qtype == qtype,
            r.qclass == qclass,
    {
        Self { name, qtype, qclass }
    }

    /// Decodes the question under the cursor, moving the cursor past it.
    pub fn decode(buffer: &mut DnsPacketBuffer) -> (r: Result<DnsQuestion, DnsPacketError>)
        ensures
            final(buffer).buf == old(buffer).buf,
            final(buffer).pos == question_at(old(buffer).buf@, old(buffer).pos as int).1,
            match question_at(old(buffer).buf@, old(buffer).pos as int).0 {
                Ok(v) => r is Ok && r->Ok_0@ == v,
                Err(e) => r == Err::<DnsQuestion, DnsPacketError>(e),
            },
    {
        let mut name = String::new();
        buffer.read_qname(&mut name)?;
        let qtype = QueryType::from_code(buffer.read_u16()?)?;
        let qclass = QueryClass::from_code(buffer.read_u16()?)?;
        Ok(DnsQuestion::new(name, qtype, qclass))
    }
}

impl Default for DnsQuestion {
    /// A question with an empty name, asking for all records of all classes.
    fn default() -> (r: Self)
        ensures
            r@ == (Seq::<char>::empty(), QueryType::ALL, QueryClass::ALL),
    {
        Self { name: String::new(), qtype: QueryType::ALL, qclass: QueryClass::ALL }
    }
}

/// An IPv4 address as its four octets, most significant first.
#[derive(Debug, Clone, Copy, PartialEq, Eq, Structural)]
pub struct Ipv4Address(pub u8, pub u8, pub u8, pub u8);

/// What a decoded resource record holds.
pub enum RecordView {
    A { domain: Seq<char>, addr: Ipv4Address, ttl: u32 },
    Unknown,
}

/// A resource record.
#[derive(Debug, Clone)]
pub enum DnsRecord {
    /// A host address.
    A { domain: String, addr: Ipv4Address, ttl: u32 },
    /// A record of no decoded kind.
    Unknown,
}

impl View for DnsRecord {
    type V = RecordView;

    open spec fn view(&self) -> RecordView {
        match self {
            DnsRecord::A { domain, addr, ttl } => RecordView::A { domain: domain@, addr: *addr, ttl: *ttl },
            DnsRecord::Unknown => RecordView::Unknown,
        }
    }
}

/// The wire value of the address record type.
pub const TYPE_A: u16 = 1;

/// Decoding the resource record at `p`: the record or the error, and the
/// cursor afterwards. The class is read and dropped; a type other than an
/// address record fails once the record's fixed fields are read.
pub open spec fn record_at(buf: Seq<u8>, p: int) -> (Result<RecordView, DnsPacketError>, int) {
    let n = name_at(buf, p);
    match n.0 {
        Err(e) => (Err(e), n.1),
        Ok(labels) => {
            let q = n.1;
            if q + 10 > BUFFER_SIZE {
                (Err(out_of_bounds(fault_pos(q))), fault_pos(q))
            } else {
                let rtype = be16(buf[q], buf[q + 1]);
                let ttl = u32_at(buf, q + 4).0->Ok_0;
                if rtype != TYPE_A {
                    (Err(DnsPacketError::UnsupportedRecordType(rtype)), q + 10)
                } else if q + 14 > BUFFER_SIZE {
                    (Err(out_of_bounds(BUFFER_SIZE as int)), BUFFER_SIZE as int)
                } else {
                    (
                        Ok(
                            RecordView::A {
                                domain: name_text(labels),
                                addr: Ipv4Address(buf[q + 10], buf[q + 11], buf[q + 12], buf[q + 13]),
                                ttl,
                            },
                        ),
                        q + 14,
                    )
                }
            }
        },
    }
}

proof fn lemma_split_u32(b0: u8, b1: u8, b2: u8, b3: u8)
    ensures
        ((be32(b0, b1, b2, b3) >> 24u32) & 0xFFu32) as u8 == b0,
        ((be32(b0, b1, b2, b3) >> 16u32) & 0xFFu32) as u8 == b1,
        ((be32(b0, b1, b2, b3) >> 8u32) & 0xFFu32) as u8 == b2,
        ((be32(b0, b1, b2, b3) >> 0u32) & 0xFFu32) as u8 == b3,
{
    let v = be32(b0, b1, b2, b3);
    assert(((v >> 24u32) & 0xFFu32) as u8 == b0 && ((v >> 16u32) & 0xFFu32) as u8 == b1
        && ((v >> 8u32) & 0xFFu32) as u8 == b2 && ((v >> 0u32) & 0xFFu32) as u8 == b3)
        by (bit_vector)
        requires
            v == ((b0 as u32) << 24u32) | ((b1 as u32) << 16u32) | ((b2 as u32) << 8u32) | (
            b3 as u32),
    ;
}

impl DnsRecord {
    /// Decodes the resource record under the cursor, moving the cursor past
    /// it.
    pub fn decode(buffer: &mut DnsPacketBuffer) -> (r: Result<DnsRecord, DnsPacketError>)
        ensures
            final(buffer).buf == old(buffer).buf,
            final(buffer).pos == record_at(old(buffer).buf@, old(buffer).pos as int).1,
            match record_at(old(buffer).buf@, old(buffer).pos as int).0 {
                Ok(v) => r is Ok && r->Ok_0@ == v,
                Err(e) => r == Err::<DnsRecord, DnsPacketError>(e),
            },
    {
        let mut domain = String::new();
        buffer.read_qname(&mut domain)?;
        let rtype = buffer.read_u16()?;
        let _class = buffer.read_u16()?;
        let ttl = buffer.read_u32()?;
        let _data_len = buffer.read_u16()?;
        if rtype != TYPE_A {
            return Err(DnsPacketError::UnsupportedRecordType(rtype));
        }
        let raw_addr = buffer.read_u32()?;
        let ghost q = buffer.pos - 4;
        proof {
            lemma_split_u32(buffer.buf@[q], buffer.buf@[q + 1], buffer.buf@[q + 2], buffer.buf@[q + 3]);
        }
        let addr = Ipv4Address(
            ((raw_addr >> 24) & 0xFF) as u8,
            ((raw_addr >> 16) & 0xFF) as u8,
            ((raw_addr >> 8) & 0xFF) as u8,
            ((raw_addr >> 0) & 0xFF) as u8,
        );
        Ok(DnsRecord::A { domain, addr, ttl })
    }
}

} // verus!
