use dns_packet::{
    CodeField, DnsHeader, DnsPacket, DnsPacketBuffer, DnsPacketError, DnsQuestion, DnsRecord,
    Ipv4Address, QueryClass, QueryType, ResponseCode,
};

fn buffer_of(bytes: &[u8]) -> DnsPacketBuffer {
    let mut b = DnsPacketBuffer::default();
    b.buf[..bytes.len()].copy_from_slice(bytes);
    b
}

fn header_bytes(id: u16, flags: u16, counts: [u16; 4]) -> Vec<u8> {
    let mut v = Vec::new();
    v.extend_from_slice(&id.to_be_bytes());
    v.extend_from_slice(&flags.to_be_bytes());
    for c in counts {
        v.extend_from_slice(&c.to_be_bytes());
    }
    v
}

const EXAMPLE: &[u8] = b"\x07example\x03com\x00";

fn example_response() -> Vec<u8> {
    let mut v = header_bytes(0x1234, 0x8180, [1, 1, 0, 0]);
    v.extend_from_slice(EXAMPLE);
    v.extend_from_slice(&[0, 1, 0, 1]);
    v.extend_from_slice(&[0xC0, 12, 0, 1, 0, 1, 0, 0, 0x01, 0x2C, 0, 4, 93, 184, 216, 34]);
    v
}

#[test]
fn end_to_end_response_decodes() {
    let p = DnsPacket::from_buffer(buffer_of(&example_response())).unwrap();
    assert_eq!(p.header.id, 0x1234);
    assert!(p.header.qr);
    assert!(p.header.rd);
    assert!(p.header.ra);
    assert_eq!(p.header.rcode, ResponseCode::NOERROR);
    assert_eq!(p.questions.len(), 1);
    assert_eq!(p.questions[0].name, "example.com");
    assert_eq!(p.questions[0].qtype, QueryType::A);
    assert_eq!(p.questions[0].qclass, QueryClass::IN);
    assert_eq!(p.answers.len(), 1);
    match &p.answers[0] {
        DnsRecord::A { domain, addr, ttl } => {
            assert_eq!(domain, "example.com");
            assert_eq!(*addr, Ipv4Address(93, 184, 216, 34));
            assert_eq!(*ttl, 300);
        }
        DnsRecord::Unknown => panic!("expected an address record"),
    }
    assert!(p.authorities.is_empty());
    assert!(p.resources.is_empty());
}

#[test]
fn section_lengths_follow_the_header_counts() {
    let mut v = header_bytes(1, 0x0100, [2, 1, 1, 1]);
    v.extend_from_slice(EXAMPLE);
    v.extend_from_slice(&[0, 1, 0, 1]);
    v.extend_from_slice(&[0xC0, 12, 0, 15, 0, 3]);
    for last in [1u8, 2, 3] {
        v.extend_from_slice(&[0xC0, 12, 0, 1, 0, 1, 0, 0, 0, 60, 0, 4, 10, 0, 0, last]);
    }
    let p = DnsPacket::from_buffer(buffer_of(&v)).unwrap();
    assert_eq!(p.questions.len(), p.header.qdcount as usize);
    assert_eq!(p.answers.len(), p.header.ancount as usize);
    assert_eq!(p.authorities.len(), p.header.nscount as usize);
    assert_eq!(p.resources.len(), p.header.arcount as usize);
    assert_eq!(p.questions[1].qtype, QueryType::MX);
    assert_eq!(p.questions[1].qclass, QueryClass::CH);
    match &p.resources[0] {
        DnsRecord::A { addr, ttl, .. } => {
            assert_eq!(*addr, Ipv4Address(10, 0, 0, 3));
            assert_eq!(*ttl, 60);
        }
        DnsRecord::Unknown => panic!("expected an address record"),
    }
}

#[test]
fn empty_buffer_decodes_to_an_empty_query() {
    let p = DnsPacket::from_buffer(DnsPacketBuffer::default()).unwrap();
    assert_eq!(p.header, DnsHeader::default());
    assert!(p.questions.is_empty());
    assert!(p.answers.is_empty());
}

#[test]
fn header_flags_are_split_into_fields() {
    let mut b = buffer_of(&header_bytes(0xBEEF, 0b1010_1111_1100_0011, [1, 2, 3, 4]));
    let h = DnsHeader::decode(&mut b).unwrap();
    assert_eq!(h.id, 0xBEEF);
    assert!(h.qr);
    assert_eq!(h.opcode, 0b0101);
    assert!(h.aa);
    assert!(h.tc);
    assert!(h.rd);
    assert!(h.ra);
    assert!(h.z);
    assert_eq!(h.rcode, ResponseCode::NXDOMAIN);
    assert_eq!((h.qdcount, h.ancount, h.nscount, h.arcount), (1, 2, 3, 4));
    assert_eq!(b.pos, 12);
}

#[test]
fn unknown_response_code_is_an_error() {
    let mut b = buffer_of(&header_bytes(1, 0x0006, [0, 0, 0, 0]));
    assert_eq!(
        DnsHeader::decode(&mut b),
        Err(DnsPacketError::UnsupportedCode(6, CodeField::ResponseCode))
    );
    assert_eq!(b.pos, 4);
}

#[test]
fn refused_is_response_code_five() {
    let mut b = buffer_of(&header_bytes(1, 0x0005, [0, 0, 0, 0]));
    assert_eq!(DnsHeader::decode(&mut b).unwrap().rcode, ResponseCode::REFUSED);
}

#[test]
fn header_cut_short_by_the_end_fails() {
    let mut b = DnsPacketBuffer::default();
    b.pos = 505;
    assert_eq!(DnsHeader::decode(&mut b), Err(DnsPacketError::OutOfBounds(512)));
}

#[test]
fn question_decodes_name_type_and_class() {
    let mut v = EXAMPLE.to_vec();
    v.extend_from_slice(&[0, 16, 0, 255]);
    let mut b = buffer_of(&v);
    let q = DnsQuestion::decode(&mut b).unwrap();
    assert_eq!(q.name, "example.com");
    assert_eq!(q.qtype, QueryType::TXT);
    assert_eq!(q.qclass, QueryClass::ALL);
}

#[test]
fn unknown_query_type_is_an_error() {
    let mut v = EXAMPLE.to_vec();
    v.extend_from_slice(&[0, 28, 0, 1]);
    let mut b = buffer_of(&v);
    assert_eq!(
        DnsQuestion::decode(&mut b).map(|q| q.name),
        Err(DnsPacketError::UnsupportedCode(28, CodeField::QueryType))
    );
}

#[test]
fn unknown_query_class_is_an_error() {
    let mut v = EXAMPLE.to_vec();
    v.extend_from_slice(&[0, 1, 0, 9]);
    let mut b = buffer_of(&v);
    assert_eq!(
        DnsQuestion::decode(&mut b).map(|q| q.name),
        Err(DnsPacketError::UnsupportedCode(9, CodeField::QueryClass))
    );
}

#[test]
fn record_of_another_type_is_an_error() {
    let mut v = EXAMPLE.to_vec();
    v.extend_from_slice(&[0, 28, 0, 1, 0, 0, 0, 60, 0, 16]);
    let mut b = buffer_of(&v);
    assert_eq!(
        DnsRecord::decode(&mut b).map(|_| ()),
        Err(DnsPacketError::UnsupportedRecordType(28))
    );
    assert_eq!(b.pos, EXAMPLE.len() + 10);
}

#[test]
fn counts_beyond_the_content_fail() {
    let v = header_bytes(1, 0, [1, 0, 0, 0]);
    assert_eq!(
        DnsPacket::from_buffer(buffer_of(&v)).map(|p| p.questions.len()),
        Err(DnsPacketError::UnsupportedCode(0, CodeField::QueryType))
    );
}

#[test]
fn codes_map_both_ways() {
    assert_eq!(QueryType::from_code(255), Ok(QueryType::ALL));
    assert_eq!(QueryType::from_code(QueryType::MAILB.code()), Ok(QueryType::MAILB));
    assert_eq!(QueryType::TXT.code(), 16);
    assert_eq!(QueryClass::from_code(4), Ok(QueryClass::HS));
    assert_eq!(QueryClass::CS.code(), 2);
    assert_eq!(ResponseCode::from_code(2), Ok(ResponseCode::SERVFAIL));
    assert_eq!(ResponseCode::NOTIMP.code(), 4);
    assert_eq!(
        QueryClass::from_code(0),
        Err(DnsPacketError::UnsupportedCode(0, CodeField::QueryClass))
    );
}

#[test]
fn new_question_keeps_its_fields() {
    let q = DnsQuestion::new("a.b".to_string(), QueryType::NS, QueryClass::IN);
    assert_eq!(q.name, "a.b");
    assert_eq!(q.qtype, QueryType::NS);
    assert_eq!(q.qclass, QueryClass::IN);
}

#[test]
fn defaults_are_empty() {
    let q = DnsQuestion::default();
    assert_eq!(q.name, "");
    assert_eq!(q.qtype, QueryType::ALL);
    assert_eq!(q.qclass, QueryClass::ALL);
    let p = DnsPacket::default();
    assert_eq!(p.header, DnsHeader::default());
    assert_eq!(p.header.rcode, ResponseCode::NOERROR);
    assert!(p.resources.is_empty());
}
