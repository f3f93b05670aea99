use npu_vmm::le;
use npu_vmm::wire;
use npu_vmm::wire::Request;

/// A request of 32-bit words.
fn request_of(words: &[u32]) -> Vec<u8> {
    let mut v = Vec::new();
    for w in words {
        v.extend_from_slice(&w.to_le_bytes());
    }
    v
}

#[test]
fn words_are_little_endian() {
    let bytes = [0x78u8, 0x56, 0x34, 0x12, 0xf0, 0xde, 0xbc, 0x9a, 0xff];
    assert_eq!(le::read_u32(&bytes, 0), 0x1234_5678);
    assert_eq!(le::read_u32(&bytes, 1), 0xf012_3456);
    assert_eq!(le::read_u64(&bytes, 0), 0x9abc_def0_1234_5678);
    assert_eq!(le::read_i64(&bytes, 0), i64::from_le_bytes([0x78, 0x56, 0x34, 0x12, 0xf0, 0xde, 0xbc, 0x9a]));
}

#[test]
fn words_read_back() {
    for v in [0u32, 1, 0xff, 0x100, 0x1234_5678, u32::MAX] {
        let mut out = vec![9u8];
        le::push_u32(&mut out, v);
        assert_eq!(out[1..], v.to_le_bytes());
        assert_eq!(le::read_u32(&out, 1), v);
    }
    for v in [0u64, 1, u64::from(u32::MAX) + 1, 0x1234_5678_9abc_def0, u64::MAX] {
        let mut out = vec![9u8, 9];
        le::push_u64(&mut out, v);
        assert_eq!(out[2..], v.to_le_bytes());
        assert_eq!(le::read_u64(&out, 2), v);
    }
}

#[test]
fn signs() {
    assert_eq!(le::as_signed(0), 0);
    assert_eq!(le::as_signed(0x7fff_ffff_ffff_ffff), i64::MAX);
    assert_eq!(le::as_signed(0x8000_0000_0000_0000), i64::MIN);
    assert_eq!(le::as_signed(u64::MAX), -1);
    assert_eq!(le::as_unsigned(22), 22);
    assert_eq!(le::as_unsigned(-1), u32::MAX);
    assert_eq!(le::as_unsigned(i32::MIN), 0x8000_0000);
}

#[test]
fn create_is_decoded() {
    let mut req = request_of(&[1, 40, 8000, 2, 7, 0xdead]);
    req.extend_from_slice(&0x1_2345_6000u64.to_le_bytes());
    req.extend_from_slice(&u64::MAX.to_le_bytes());
    match wire::decode_request(&req) {
        Some(Request::CreateBo { size, gid, gpas }) => {
            assert_eq!(size, 8000);
            assert_eq!(gid, 7);
            assert_eq!(gpas, vec![0x1_2345_6000, u64::MAX]);
        }
        other => panic!("{other:?}"),
    }
    // Bytes that follow are ignored, and a missing one is not made up.
    let mut longer = req.clone();
    longer.push(1);
    assert!(matches!(wire::decode_request(&longer), Some(Request::CreateBo { size: 8000, gid: 7, .. })));
    req.pop();
    assert!(wire::decode_request(&req).is_none());
}

#[test]
fn create_of_no_pages_is_decoded() {
    let req = request_of(&[1, 24, 5, 0, 3, 0]);
    match wire::decode_request(&req) {
        Some(Request::CreateBo { size: 5, gid: 3, gpas }) => assert!(gpas.is_empty()),
        other => panic!("{other:?}"),
    }
    assert!(wire::decode_request(&req[..23]).is_none());
}

#[test]
fn too_many_pages_are_refused() {
    assert!(wire::decode_request(&request_of(&[1, 24, 5, u32::MAX, 3, 0])).is_none());
}

#[test]
fn destroy_and_fini_are_decoded() {
    assert!(matches!(wire::decode_request(&request_of(&[2, 12, 9])), Some(Request::DestroyBo { gid: 9 })));
    assert!(matches!(wire::decode_request(&request_of(&[5, 12, 9])), Some(Request::FiniBo { gid: 9 })));
    assert!(wire::decode_request(&request_of(&[2, 12, 9])[..11]).is_none());
    assert!(wire::decode_request(&request_of(&[5, 12, 9])[..11]).is_none());
}

#[test]
fn prep_is_decoded() {
    let mut req = request_of(&[4, 24, 6, 77]);
    req.extend_from_slice(&(-5i64).to_le_bytes());
    assert!(matches!(wire::decode_request(&req), Some(Request::PrepBo { gid: 6, timeout_ns: -5 })));
    req.pop();
    assert!(wire::decode_request(&req).is_none());
}

#[test]
fn submit_is_decoded() {
    let req = request_of(&[3, 16, 0, 0]);
    assert!(matches!(wire::decode_request(&req), Some(Request::Submit { job_count: 0 })));
    assert!(wire::decode_request(&req[..15]).is_none());
}

#[test]
fn other_requests_are_refused() {
    assert!(wire::decode_request(&[]).is_none());
    assert!(wire::decode_request(&request_of(&[5])).is_none());
    assert!(wire::decode_request(&[5, 0, 0, 0, 8, 0, 0]).is_none());
    for opcode in [0, 6, 0x0100_0001, u32::MAX] {
        assert!(wire::decode_request(&request_of(&[opcode, 64, 1, 1, 1, 1, 1, 1, 1, 1])).is_none());
    }
}

#[test]
fn replies() {
    assert_eq!(wire::success_reply(), vec![0, 0, 0, 0, 8, 0, 0, 0]);
    assert_eq!(wire::fail(22), vec![22, 0, 0, 0, 8, 0, 0, 0]);
    assert_eq!(wire::fail(-1), vec![0xff, 0xff, 0xff, 0xff, 8, 0, 0, 0]);
    assert_eq!(
        wire::created_reply(0x0102_0304_0506_0708),
        vec![0, 0, 0, 0, 16, 0, 0, 0, 8, 7, 6, 5, 4, 3, 2, 1]
    );
}
