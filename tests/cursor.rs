use dns_packet::{DnsPacketBuffer, DnsPacketError};

fn buffer_with(at: usize, bytes: &[u8]) -> DnsPacketBuffer {
    let mut b = DnsPacketBuffer::default();
    b.buf[at..at + bytes.len()].copy_from_slice(bytes);
    b
}

#[test]
fn default_buffer_is_zeroed_at_start() {
    let b = DnsPacketBuffer::default();
    assert_eq!(b.pos, 0);
    assert!(b.buf.iter().all(|&x| x == 0));
}

#[test]
fn step_moves_forward_and_stops_before_the_end() {
    let mut b = DnsPacketBuffer::default();
    assert_eq!(b.step(10), Ok(()));
    assert_eq!(b.pos, 10);
    assert_eq!(b.step(501), Ok(()));
    assert_eq!(b.pos, 511);
    assert_eq!(b.step(1), Err(DnsPacketError::OutOfBounds(512)));
    assert_eq!(b.pos, 511);
}

#[test]
fn seek_sets_position_within_bounds_only() {
    let mut b = DnsPacketBuffer::default();
    assert_eq!(b.seek(511), Ok(()));
    assert_eq!(b.pos, 511);
    assert_eq!(b.seek(512), Err(DnsPacketError::OutOfBounds(512)));
    assert_eq!(b.pos, 511);
    assert_eq!(b.seek(9000), Err(DnsPacketError::OutOfBounds(9000)));
}

#[test]
fn read_returns_bytes_in_order() {
    let mut b = buffer_with(0, &[7, 8]);
    assert_eq!(b.read(), Ok(7));
    assert_eq!(b.read(), Ok(8));
    assert_eq!(b.pos, 2);
}

#[test]
fn read_at_end_fails_without_moving() {
    let mut b = DnsPacketBuffer::default();
    b.pos = 512;
    assert_eq!(b.read(), Err(DnsPacketError::OutOfBounds(512)));
    assert_eq!(b.pos, 512);
}

#[test]
fn get_reads_anywhere_without_moving() {
    let mut b = buffer_with(300, &[42]);
    assert_eq!(b.get(300), Ok(42));
    assert_eq!(b.pos, 0);
}

#[test]
fn get_rejects_positions_past_the_end() {
    let mut b = DnsPacketBuffer::default();
    assert_eq!(b.get(512), Err(DnsPacketError::OutOfBounds(512)));
    b.pos = 600;
    assert_eq!(b.get(3), Err(DnsPacketError::OutOfBounds(600)));
}

#[test]
fn get_range_returns_the_bytes() {
    let mut b = buffer_with(10, &[1, 2, 3, 4]);
    assert_eq!(b.get_range(11, 2), Ok(&[2u8, 3][..]));
    assert_eq!(b.get_range(508, 4).map(|s| s.len()), Ok(4));
    assert_eq!(b.pos, 0);
}

#[test]
fn get_range_rejects_ranges_that_overrun() {
    let mut b = DnsPacketBuffer::default();
    assert_eq!(b.get_range(508, 5), Err(DnsPacketError::OutOfBounds(512)));
    assert_eq!(b.get_range(700, 1), Err(DnsPacketError::OutOfBounds(700)));
    b.pos = 512;
    assert_eq!(b.get_range(0, 1), Err(DnsPacketError::OutOfBounds(512)));
}

#[test]
fn read_u16_is_big_endian() {
    let mut b = buffer_with(0, &[0x12, 0x34]);
    assert_eq!(b.read_u16(), Ok(0x1234));
    assert_eq!(b.pos, 2);
}

#[test]
fn read_u32_is_big_endian() {
    let mut b = buffer_with(0, &[0x12, 0x34, 0x56, 0x78]);
    assert_eq!(b.read_u32(), Ok(0x1234_5678));
    assert_eq!(b.pos, 4);
}

#[test]
fn multi_byte_reads_fail_at_the_end() {
    let mut b = DnsPacketBuffer::default();
    b.pos = 511;
    assert_eq!(b.read_u16(), Err(DnsPacketError::OutOfBounds(512)));
    assert_eq!(b.pos, 512);
    b.pos = 509;
    assert_eq!(b.read_u32(), Err(DnsPacketError::OutOfBounds(512)));
    assert_eq!(b.pos, 512);
}

#[test]
fn every_primitive_fails_at_or_beyond_the_end() {
    let mut b = DnsPacketBuffer::default();
    b.pos = 512;
    assert_eq!(b.read(), Err(DnsPacketError::OutOfBounds(512)));
    assert_eq!(b.read_u16(), Err(DnsPacketError::OutOfBounds(512)));
    assert_eq!(b.read_u32(), Err(DnsPacketError::OutOfBounds(512)));
    assert_eq!(b.get(0), Err(DnsPacketError::OutOfBounds(512)));
    assert_eq!(b.get_range(0, 1), Err(DnsPacketError::OutOfBounds(512)));
    let mut name = String::new();
    assert_eq!(b.read_qname(&mut name), Err(DnsPacketError::OutOfBounds(512)));
    assert_eq!(b.step(0), Err(DnsPacketError::OutOfBounds(512)));
    assert_eq!(b.seek(512), Err(DnsPacketError::OutOfBounds(512)));
}
