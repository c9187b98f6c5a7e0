use dns_packet::{DnsPacketBuffer, DnsPacketError};

fn buffer_with(parts: &[(usize, &[u8])]) -> DnsPacketBuffer {
    let mut b = DnsPacketBuffer::default();
    for (at, bytes) in parts {
        b.buf[*at..*at + bytes.len()].copy_from_slice(bytes);
    }
    b
}

const GOOGLE: &[u8] = b"\x03WWW\x06Google\x03com\x00";
const EXAMPLE: &[u8] = b"\x07example\x03com\x00";

#[test]
fn labels_are_joined_and_lower_cased() {
    let mut b = buffer_with(&[(0, GOOGLE)]);
    let mut name = String::new();
    assert_eq!(b.read_qname(&mut name), Ok(()));
    assert_eq!(name, "www.google.com");
    assert_eq!(b.pos, GOOGLE.len());
}

#[test]
fn name_text_is_appended_to_what_is_there() {
    let mut b = buffer_with(&[(0, EXAMPLE)]);
    let mut name = String::from("x:");
    assert_eq!(b.read_qname(&mut name), Ok(()));
    assert_eq!(name, "x:example.com");
}

#[test]
fn root_name_is_empty() {
    let mut b = DnsPacketBuffer::default();
    let mut name = String::new();
    assert_eq!(b.read_qname(&mut name), Ok(()));
    assert_eq!(name, "");
    assert_eq!(b.pos, 1);
}

#[test]
fn invalid_utf8_in_a_label_becomes_a_replacement_character() {
    let mut b = buffer_with(&[(0, b"\x02A\xff\x00")]);
    let mut name = String::new();
    assert_eq!(b.read_qname(&mut name), Ok(()));
    assert_eq!(name, "a\u{fffd}");
}

#[test]
fn backward_pointer_reads_as_the_earlier_name() {
    let mut b = buffer_with(&[(12, EXAMPLE), (40, &[0xC0, 12])]);
    let mut first = String::new();
    b.pos = 12;
    assert_eq!(b.read_qname(&mut first), Ok(()));
    assert_eq!(b.pos, 12 + EXAMPLE.len());
    b.pos = 40;
    let mut second = String::new();
    assert_eq!(b.read_qname(&mut second), Ok(()));
    assert_eq!(second, first);
    assert_eq!(second, "example.com");
    assert_eq!(b.pos, 42);
}

#[test]
fn labels_before_a_pointer_come_first() {
    let mut b = buffer_with(&[(12, EXAMPLE), (40, b"\x03WWW\xc0\x0c")]);
    b.pos = 40;
    let mut name = String::new();
    assert_eq!(b.read_qname(&mut name), Ok(()));
    assert_eq!(name, "www.example.com");
    assert_eq!(b.pos, 46);
}

/// Five pointers at 100, 102, ... each leading to the next, the last one to
/// `example.com` at 12; `extra` more pointers come in front.
fn chain(extra: usize) -> DnsPacketBuffer {
    let mut b = buffer_with(&[(12, EXAMPLE)]);
    let n = 5 + extra;
    for i in 0..n {
        let at = 100 + 2 * i;
        let target = if i + 1 == n { 12 } else { at + 2 };
        b.buf[at] = 0xC0 | (target >> 8) as u8;
        b.buf[at + 1] = (target & 0xFF) as u8;
    }
    b.pos = 100;
    b
}

#[test]
fn five_jumps_succeed() {
    let mut b = chain(0);
    let mut name = String::new();
    assert_eq!(b.read_qname(&mut name), Ok(()));
    assert_eq!(name, "example.com");
    assert_eq!(b.pos, 102);
}

#[test]
fn six_jumps_fail() {
    let mut b = chain(1);
    let mut name = String::new();
    assert_eq!(b.read_qname(&mut name), Err(DnsPacketError::MaxJumpsLimit(5)));
    assert_eq!(name, "");
}

#[test]
fn pointer_cycle_fails() {
    let mut b = buffer_with(&[(20, &[0xC0, 20])]);
    b.pos = 20;
    let mut name = String::new();
    assert_eq!(b.read_qname(&mut name), Err(DnsPacketError::MaxJumpsLimit(5)));
    assert_eq!(b.pos, 22);
}

#[test]
fn label_longer_than_the_rest_of_the_buffer_fails() {
    let mut b = buffer_with(&[(505, &[10, b'a', b'b'])]);
    b.pos = 505;
    let mut name = String::new();
    assert_eq!(b.read_qname(&mut name), Err(DnsPacketError::OutOfBounds(512)));
    assert_eq!(name, "");
    assert_eq!(b.pos, 505);
}

#[test]
fn pointer_past_the_end_fails() {
    let mut b = buffer_with(&[(0, &[0xC3, 0x00])]);
    let mut name = String::new();
    assert_eq!(b.read_qname(&mut name), Err(DnsPacketError::OutOfBounds(768)));
    assert_eq!(b.pos, 2);
}

#[test]
fn join_label_separates_all_but_the_first_label() {
    let mut name = String::new();
    dns_packet::buffer::join_label(&mut name, true, "www");
    assert_eq!(name, "www");
    dns_packet::buffer::join_label(&mut name, false, "example");
    assert_eq!(name, "www.example");
}
