use winusers::registry::{
    get_reg_string_value, get_reg_value_u32, QueryAnswer, RegField, RegKey, RegNode,
    DEFAULT_BUF_LEN, REG_ACCESS_DENIED, REG_FILE_NOT_FOUND,
};
use winusers::utf16::{bytes_to_words, decode_utf16, decode_utf16_strict, strip_zero_terminators};
use winusers::{filetime_to_u64, get_now, FileTime};

fn wide(s: &str) -> Vec<u16> {
    s.chars().map(|c| c as u16).collect()
}

/// A string value as the store encodes it: little-endian wide characters
/// with a trailing zero terminator.
fn string_value(s: &str) -> Vec<u8> {
    let mut b = Vec::new();
    for w in wide(s) {
        b.extend_from_slice(&w.to_le_bytes());
    }
    b.extend_from_slice(&[0, 0]);
    b
}

fn store_with(fields: Vec<RegField>) -> Vec<RegNode> {
    vec![RegNode { path: wide("software\\vendor"), accessible: true, fields }]
}

#[test]
fn string_read_round_trip() {
    let store = store_with(vec![RegField {
        name: wide("product"),
        readable: true,
        data: string_value("hello"),
    }]);
    let r = get_reg_string_value(&store, &wide("software\\vendor"), &wide("product"));
    assert_eq!(r, Some("hello".to_string()));
}

#[test]
fn large_value_read_grows_and_succeeds() {
    // The encoded value is far larger than the default buffer, so the
    // read must resize at least once and still return the exact text.
    let big: String = "x".repeat(DEFAULT_BUF_LEN);
    let store = store_with(vec![RegField {
        name: wide("big"),
        readable: true,
        data: string_value(&big),
    }]);
    let key = RegKey::open(&store, &wide("software\\vendor")).unwrap();
    let (read, attempts) = key.read_raw(&wide("big"), DEFAULT_BUF_LEN);
    assert_eq!(read, Some(string_value(&big)));
    assert_eq!(attempts, 2);
    let r = get_reg_string_value(&store, &wide("software\\vendor"), &wide("big"));
    assert_eq!(r, Some(big));
}

#[test]
fn missing_field_fails_without_retry() {
    let store = store_with(vec![]);
    let key = RegKey::open(&store, &wide("software\\vendor")).unwrap();
    let (read, attempts) = key.read_raw(&wide("absent"), 8);
    assert_eq!(read, None);
    assert_eq!(attempts, 1);
    assert!(matches!(
        key.get_value(&wide("absent"), 8),
        QueryAnswer::Failed(REG_FILE_NOT_FOUND)
    ));
}

#[test]
fn unreadable_field_fails() {
    let store = store_with(vec![RegField {
        name: wide("secret"),
        readable: false,
        data: string_value("no"),
    }]);
    let key = RegKey::open(&store, &wide("software\\vendor")).unwrap();
    assert!(matches!(
        key.get_value(&wide("secret"), 64),
        QueryAnswer::Failed(REG_ACCESS_DENIED)
    ));
    assert_eq!(get_reg_string_value(&store, &wide("software\\vendor"), &wide("secret")), None);
}

#[test]
fn sixteen_byte_value_read_after_one_resize() {
    // The first query reports "more data, 16 bytes needed"; the retry
    // with a 16-byte buffer succeeds and returns the exact value.
    let value: Vec<u8> = (0u8..16).collect();
    let store = store_with(vec![RegField {
        name: wide("blob"),
        readable: true,
        data: value.clone(),
    }]);
    let key = RegKey::open(&store, &wide("software\\vendor")).unwrap();
    match key.get_value(&wide("blob"), 4) {
        QueryAnswer::MoreData(need) => assert_eq!(need, 16),
        _ => panic!("expected a grow request"),
    }
    let (read, attempts) = key.read_raw(&wide("blob"), 4);
    assert_eq!(read, Some(value));
    assert_eq!(attempts, 2);
}

#[test]
fn nonexistent_path_fails_at_open() {
    let store = store_with(vec![RegField {
        name: wide("product"),
        readable: true,
        data: string_value("hello"),
    }]);
    assert!(RegKey::open(&store, &wide("software\\absent")).is_none());
    assert_eq!(get_reg_string_value(&store, &wide("software\\absent"), &wide("product")), None);
}

#[test]
fn inaccessible_node_fails_at_open() {
    let store = vec![RegNode {
        path: wide("software\\locked"),
        accessible: false,
        fields: vec![RegField { name: wide("v"), readable: true, data: string_value("x") }],
    }];
    assert!(RegKey::open(&store, &wide("software\\locked")).is_none());
    assert_eq!(get_reg_string_value(&store, &wide("software\\locked"), &wide("v")), None);
}

#[test]
fn u32_value_read() {
    let store = store_with(vec![
        RegField { name: wide("four"), readable: true, data: vec![0xDD, 0xCC, 0xBB, 0xAA] },
        RegField { name: wide("five"), readable: true, data: vec![1, 2, 3, 4, 5] },
    ]);
    let r = get_reg_value_u32(&store, &wide("software\\vendor"), &wide("four"));
    assert_eq!(r, Some(vec![0xDD, 0xCC, 0xBB, 0xAA]));
    // A value that is not exactly four bytes is refused.
    assert_eq!(get_reg_value_u32(&store, &wide("software\\vendor"), &wide("five")), None);
    assert_eq!(get_reg_value_u32(&store, &wide("software\\vendor"), &wide("absent")), None);
}

#[test]
fn trailing_terminators_are_stripped() {
    let mut data = string_value("name");
    data.extend_from_slice(&[0, 0, 0, 0]); // extra terminators
    let store = store_with(vec![RegField { name: wide("n"), readable: true, data }]);
    let r = get_reg_string_value(&store, &wide("software\\vendor"), &wide("n"));
    assert_eq!(r, Some("name".to_string()));
}

#[test]
fn utf16_decoding_exact() {
    let (s, ok) = decode_utf16(&[0x41, 0x62]);
    assert_eq!(s, "Ab");
    assert!(ok);
    // A surrogate pair decodes to one supplementary character.
    let (s, ok) = decode_utf16(&[0xD83D, 0xDE00]);
    assert_eq!(s, "\u{1F600}");
    assert!(ok);
    // A stray surrogate becomes the replacement character and marks the
    // input ill-formed.
    let (s, ok) = decode_utf16(&[0x41, 0xD800]);
    assert_eq!(s, "A\u{FFFD}");
    assert!(!ok);
    assert_eq!(decode_utf16_strict(&[0x41, 0xD800]), None);
    assert_eq!(decode_utf16_strict(&[0xD83D, 0xDE00]), Some("\u{1F600}".to_string()));
}

#[test]
fn word_reassembly_is_little_endian() {
    assert_eq!(bytes_to_words(&[0x34, 0x12, 0x78, 0x56]), vec![0x1234, 0x5678]);
    // A trailing odd byte is dropped.
    assert_eq!(bytes_to_words(&[0x34, 0x12, 0x78]), vec![0x1234]);
    let mut w = vec![0x41, 0, 0];
    strip_zero_terminators(&mut w);
    assert_eq!(w, vec![0x41]);
}

#[test]
fn now_is_seconds_or_zero() {
    assert_eq!(get_now(Some(1_700_000_000)), 1_700_000_000);
    // A clock reading from before the epoch yields zero.
    assert_eq!(get_now(None), 0);
}

#[test]
fn filetime_packing() {
    assert_eq!(filetime_to_u64(FileTime { high: 1, low: 2 }), 0x1_0000_0002);
    assert_eq!(
        filetime_to_u64(FileTime { high: 0xDEAD_BEEF, low: 0x0123_4567 }),
        0xDEAD_BEEF_0123_4567
    );
}
