use hashengine::preimage::build_preimage;
use hashengine::preimage::build_preimage_into_buffer;
use hashengine::preimage::required_capacity;
use hashengine::preimage::ChallengeData;

fn sample_challenge() -> ChallengeData {
    ChallengeData {
        challenge_id: "**D07C10".to_string(),
        difficulty: "ffffffff".to_string(),
        no_pre_mine: "e8a195800b".to_string(),
        latest_submission: "abc123".to_string(),
        no_pre_mine_hour: "def456".to_string(),
    }
}

#[test]
fn test_build_preimage() {
    let challenge = ChallengeData {
        challenge_id: "**D07C10".to_string(),
        difficulty: "ffffffff".to_string(),
        no_pre_mine: "e8a195800b".to_string(),
        latest_submission: "abc123".to_string(),
        no_pre_mine_hour: "def456".to_string(),
    };

    let nonce = "0000000000000001";
    let address = "addr1test123";

    let preimage = build_preimage(nonce, address, &challenge);

    let expected = "0000000000000001addr1test123**D07C10ffffffffe8a195800babc123def456";
    assert_eq!(preimage, expected);
}

#[test]
fn test_build_preimage_different_nonce() {
    let challenge = ChallengeData {
        challenge_id: "**D07C10".to_string(),
        difficulty: "fffffffe".to_string(),
        no_pre_mine: "123456789a".to_string(),
        latest_submission: "submit1".to_string(),
        no_pre_mine_hour: "hour1".to_string(),
    };

    let nonce = "00000000deadbeef";
    let address = "addr1xyz";

    let preimage = build_preimage(nonce, address, &challenge);

    assert!(preimage.starts_with(nonce));
    assert!(preimage.contains(address));
    assert!(preimage.contains(&challenge.challenge_id));
}

#[test]
fn test_buffer_path_matches_allocating_path() {
    let challenge = sample_challenge();
    let address = "addr1test123";
    let cases: [(u64, &str); 3] = [
        (1, "0000000000000001"),
        (0xdeadbeef, "00000000deadbeef"),
        (0x0123456789abcdef, "0123456789abcdef"),
    ];
    for (nonce, nonce_hex) in cases {
        let mut buffer = [0u8; 256];
        let len = build_preimage_into_buffer(nonce, address, &challenge, &mut buffer)
            .expect("buffer is large enough");
        let allocated = build_preimage(nonce_hex, address, &challenge);
        assert_eq!(&buffer[..len], allocated.as_bytes());
    }
}

#[test]
fn test_nonce_zero_hex() {
    let challenge = sample_challenge();
    let mut buffer = [0u8; 256];
    let len = build_preimage_into_buffer(0, "addr1xyz", &challenge, &mut buffer)
        .expect("buffer is large enough");
    assert!(len >= 16);
    assert_eq!(&buffer[..16], b"0000000000000000");
    let allocated = build_preimage("0000000000000000", "addr1xyz", &challenge);
    assert_eq!(&buffer[..len], allocated.as_bytes());
}

#[test]
fn test_nonce_max_hex() {
    let challenge = sample_challenge();
    let mut buffer = [0u8; 256];
    let len = build_preimage_into_buffer(u64::MAX, "addr1xyz", &challenge, &mut buffer)
        .expect("buffer is large enough");
    assert!(len >= 16);
    assert_eq!(&buffer[..16], b"ffffffffffffffff");
    let allocated = build_preimage("ffffffffffffffff", "addr1xyz", &challenge);
    assert_eq!(&buffer[..len], allocated.as_bytes());
}

#[test]
fn test_returned_length() {
    let challenge = sample_challenge();
    let address = "addr1test123";
    let expected_len = 16
        + address.len()
        + challenge.challenge_id.len()
        + challenge.difficulty.len()
        + challenge.no_pre_mine.len()
        + challenge.latest_submission.len()
        + challenge.no_pre_mine_hour.len();
    let mut buffer = vec![0u8; expected_len];
    let len = build_preimage_into_buffer(42, address, &challenge, &mut buffer)
        .expect("exact-size buffer suffices");
    assert_eq!(len, expected_len);
}

#[test]
fn test_required_capacity() {
    let challenge = sample_challenge();
    let address = "addr1test123";
    let expected_len = 16
        + address.len()
        + challenge.challenge_id.len()
        + challenge.difficulty.len()
        + challenge.no_pre_mine.len()
        + challenge.latest_submission.len()
        + challenge.no_pre_mine_hour.len();
    assert_eq!(required_capacity(address, &challenge), Some(expected_len));
}

#[test]
fn test_buffer_one_byte_short() {
    let challenge = sample_challenge();
    let address = "addr1test123";
    let required = required_capacity(address, &challenge).expect("capacity fits in usize");
    let mut buffer = vec![7u8; required - 1];
    let result = build_preimage_into_buffer(42, address, &challenge, &mut buffer);
    assert_eq!(result, None);
    assert!(buffer.iter().all(|&b| b == 7));
}

#[test]
fn test_trailing_bytes_untouched() {
    let challenge = sample_challenge();
    let address = "addr1test123";
    let required = required_capacity(address, &challenge).expect("capacity fits in usize");
    let mut buffer = vec![7u8; required + 10];
    let len = build_preimage_into_buffer(42, address, &challenge, &mut buffer)
        .expect("buffer is large enough");
    assert_eq!(len, required);
    assert!(buffer[len..].iter().all(|&b| b == 7));
}

#[test]
fn test_repeated_calls_identical() {
    let challenge = sample_challenge();
    let address = "addr1test123";
    let first = build_preimage("0123456789abcdef", address, &challenge);
    let second = build_preimage("0123456789abcdef", address, &challenge);
    assert_eq!(first, second);

    let mut buffer1 = [0u8; 256];
    let mut buffer2 = [0u8; 256];
    let len1 = build_preimage_into_buffer(99, address, &challenge, &mut buffer1)
        .expect("buffer is large enough");
    let len2 = build_preimage_into_buffer(99, address, &challenge, &mut buffer2)
        .expect("buffer is large enough");
    assert_eq!(len1, len2);
    assert_eq!(&buffer1[..len1], &buffer2[..len2]);
}

#[test]
fn test_containment_order() {
    let challenge = sample_challenge();
    let address = "addr1xyz";
    let nonce_hex = "00000000deadbeef";
    let preimage = build_preimage(nonce_hex, address, &challenge);
    assert!(preimage.starts_with(nonce_hex));
    let after_nonce = &preimage[16..];
    assert!(after_nonce.starts_with(address));
    let after_address = &after_nonce[address.len()..];
    assert!(after_address.starts_with(&challenge.challenge_id));
}
