//! The shared ring and the framing above it.

use mcp_core::ring::{align_up, frame_length, frame_payload, SharedMemory, SharedMemoryError};

fn read_exact(ring: &mut SharedMemory, n: usize) -> Vec<u8> {
    let mut buf = vec![0u8; n];
    let got = ring.read(&mut buf).expect("data must be pending");
    assert_eq!(got, n);
    buf
}

#[test]
fn test_shared_memory() {
    let mut mem = SharedMemory::create(1024).unwrap();
    mem.write(&"hello world".as_bytes().to_vec()).unwrap();
    let buf = read_exact(&mut mem, 11);
    assert_eq!(buf, "hello world".as_bytes());
}

#[test]
fn test_shared_memory_wrap() {
    // capacity 128; four 48-byte writes with a drain after each wrap the
    // ring, and both positions end at 192
    let mut mem = SharedMemory::create(128).unwrap();
    let mut buf = vec![0u8; 192];
    for i in 0..192 {
        buf[i] = i as u8;
    }
    mem.write(&buf[0..48].to_vec()).unwrap();
    let rbuf = read_exact(&mut mem, 48);
    assert_eq!(&buf[0..48], rbuf.as_slice());

    mem.write(&buf[48..96].to_vec()).unwrap();
    let rbuf = read_exact(&mut mem, 48);
    assert_eq!(&buf[48..96], rbuf.as_slice());

    mem.write(&buf[96..144].to_vec()).unwrap();
    let rbuf = read_exact(&mut mem, 48);
    assert_eq!(&buf[96..144], rbuf.as_slice());

    mem.write(&buf[144..192].to_vec()).unwrap();
    let rbuf = read_exact(&mut mem, 48);
    assert_eq!(&buf[144..192], rbuf.as_slice());

    assert_eq!(mem.write_position(), 192);
    assert_eq!(mem.read_position(), 192);
}

#[test]
fn interleaved_writes_and_reads_keep_the_order() {
    let mut mem = SharedMemory::create(64).unwrap();
    mem.write(&b"one".to_vec()).unwrap();
    mem.write(&b"two".to_vec()).unwrap();
    let first = read_exact(&mut mem, 4);
    mem.write(&b"three".to_vec()).unwrap();
    let rest = read_exact(&mut mem, 7);
    let mut all = first;
    all.extend(rest);
    assert_eq!(all, b"onetwothree");
}

#[test]
fn empty_write_is_rejected() {
    let mut mem = SharedMemory::create(64).unwrap();
    assert!(matches!(mem.write(&Vec::new()), Err(SharedMemoryError::NoDataAvailable)));
    assert_eq!(mem.write_position(), 0);
}

#[test]
fn full_capacity_write_is_accepted() {
    let mut mem = SharedMemory::create(64).unwrap();
    let data = vec![7u8; 64];
    mem.write(&data).unwrap();
    assert_eq!(read_exact(&mut mem, 64), data);
}

#[test]
fn overfull_ring_reports_the_overflow() {
    let mut mem = SharedMemory::create(64).unwrap();
    mem.write(&vec![1u8; 40]).unwrap();
    assert!(matches!(mem.write(&vec![2u8; 40]), Err(SharedMemoryError::BufferOverflow)));
    // and data larger than the whole ring can never fit
    assert!(matches!(
        mem.write(&vec![3u8; 65]),
        Err(SharedMemoryError::DataTooLarge(64, 65))
    ));
}

#[test]
fn unaligned_capacity_is_rejected() {
    assert!(matches!(SharedMemory::create(0), Err(SharedMemoryError::AlignmentError)));
    assert!(matches!(SharedMemory::create(100), Err(SharedMemoryError::AlignmentError)));
}

#[test]
fn empty_read_reports_no_data() {
    let mut mem = SharedMemory::create(64).unwrap();
    let mut buf = vec![0u8; 4];
    assert!(matches!(mem.read(&mut buf), Err(SharedMemoryError::NoDataAvailable)));
    assert!(matches!(mem.try_read(&mut buf), Err(SharedMemoryError::NoDataAvailable)));
}

#[test]
fn health_and_recovery() {
    let mut mem = SharedMemory::create(64).unwrap();
    assert!(mem.check_health().is_ok());
    assert!(mem.recover().is_ok());
    assert_eq!(mem.capacity(), 64);
    assert_eq!(mem.available(), 0);
}

#[test]
fn frames_carry_their_length() {
    let data = b"{\"jsonrpc\":\"2.0\"}".to_vec();
    let frame = frame_payload(&data);
    assert_eq!(frame.len(), data.len() + 4);
    let header = frame[0..4].to_vec();
    assert_eq!(frame_length(&header) as usize, data.len());
    assert_eq!(&frame[4..], data.as_slice());
    // the length prefix is big-endian
    let frame2 = frame_payload(&vec![0u8; 258]);
    assert_eq!(&frame2[0..4], &[0, 0, 1, 2]);
}

#[test]
fn alignment_rounds_up_to_the_next_multiple() {
    assert_eq!(align_up(0, 64), 0);
    assert_eq!(align_up(1, 64), 64);
    assert_eq!(align_up(64, 64), 64);
    assert_eq!(align_up(65, 4096), 4096);
    assert_eq!(align_up(4096, 4096), 4096);
}
