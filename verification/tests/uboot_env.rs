use rugpi_ctrl::boot::checksum::{crc32, from_le_bytes, to_le_bytes};
use rugpi_ctrl::boot::uboot::{EnvError, UBootEnv, ENV_SIZE, PAYLOAD_SIZE};

fn seal(payload: &[u8]) -> Vec<u8> {
    assert_eq!(payload.len(), PAYLOAD_SIZE);
    let mut block = payload.to_vec();
    block.extend_from_slice(&to_le_bytes(crc32(payload)));
    block
}

fn payload_with(listed: &[u8], fill: u8) -> Vec<u8> {
    let mut payload = listed.to_vec();
    payload.resize(PAYLOAD_SIZE, fill);
    payload
}

#[test]
fn checksum_is_crc32() {
    assert_eq!(crc32(b""), 0);
    assert_eq!(crc32(b"123456789"), 0xcbf43926);
    assert_eq!(crc32(b"a"), 0xe8b7be43);
    assert_eq!(
        crc32(b"The quick brown fox jumps over the lazy dog"),
        0x414fa339
    );
    assert_eq!(crc32(&[0u8; 32]), 0x190a55ad);
}

#[test]
fn numbers_are_stored_least_significant_byte_first() {
    assert_eq!(to_le_bytes(0x12345678), [0x78, 0x56, 0x34, 0x12]);
    assert_eq!(to_le_bytes(0), [0, 0, 0, 0]);
    assert_eq!(to_le_bytes(u32::MAX), [0xff; 4]);
    assert_eq!(from_le_bytes([0x78, 0x56, 0x34, 0x12]), 0x12345678);
    assert_eq!(from_le_bytes([0xff; 4]), u32::MAX);
    for value in [0u32, 1, 255, 256, 65535, 65536, 0xdeadbeef, u32::MAX] {
        assert_eq!(from_le_bytes(to_le_bytes(value)), value);
        assert_eq!(to_le_bytes(value), value.to_le_bytes());
    }
}

#[test]
fn new_environment_is_empty() {
    let env = UBootEnv::new();
    assert!(env.is_empty());
    assert_eq!(env.len(), 0);
    assert_eq!(env.get("boot_spare"), None);
}

#[test]
fn last_write_wins() {
    let mut env = UBootEnv::new();
    env.set("boot_spare", "0");
    env.set("bootpart", "2");
    env.set("boot_spare", "1");
    assert_eq!(env.len(), 2);
    assert_eq!(env.get("boot_spare"), Some(&b"1"[..]));
    assert_eq!(env.get("bootpart"), Some(&b"2"[..]));
    assert_eq!(env.get("boot"), None);
    env.set_bytes(b"bootpart", b"3");
    assert_eq!(env.get("bootpart"), Some(&b"3"[..]));
    assert_eq!(env.len(), 2);
}

#[test]
fn block_has_the_fixed_layout() {
    let mut env = UBootEnv::new();
    env.set("a", "1");
    env.set("bc", "");
    let block = env.encode().unwrap();
    assert_eq!(block.len(), ENV_SIZE);
    assert_eq!(&block[..8], b"a=1\0bc=\0");
    assert!(block[8..PAYLOAD_SIZE].iter().all(|byte| *byte == 0));
    let checksum = crc32(&block[..PAYLOAD_SIZE]);
    assert_eq!(&block[PAYLOAD_SIZE..], &checksum.to_le_bytes());
}

#[test]
fn empty_environment_is_written_and_read() {
    let block = UBootEnv::new().encode().unwrap();
    assert_eq!(block.len(), ENV_SIZE);
    assert!(block[..PAYLOAD_SIZE].iter().all(|byte| *byte == 0));
    assert!(UBootEnv::decode(&block).is_empty());
}

#[test]
fn written_environment_is_read_back() {
    let mut env = UBootEnv::new();
    env.set("boot_spare", "1");
    env.set("bootpart", "2");
    env.set("empty", "");
    env.set("url", "http://example.org/?a=b&c=d");
    let read = UBootEnv::decode(&env.encode().unwrap());
    assert_eq!(read.len(), 4);
    assert_eq!(read.get("boot_spare"), Some(&b"1"[..]));
    assert_eq!(read.get("bootpart"), Some(&b"2"[..]));
    assert_eq!(read.get("empty"), Some(&b""[..]));
    assert_eq!(read.get("url"), Some(&b"http://example.org/?a=b&c=d"[..]));
    assert_eq!(read.encode().unwrap(), env.encode().unwrap());
}

#[test]
fn checksum_mismatch_reads_as_empty() {
    let mut env = UBootEnv::new();
    env.set("boot_spare", "1");
    let good = env.encode().unwrap();
    assert_eq!(UBootEnv::decode(&good).len(), 1);
    for at in [0, 11, 12, 100, PAYLOAD_SIZE - 1, PAYLOAD_SIZE, ENV_SIZE - 1] {
        let mut bad = good.clone();
        bad[at] ^= 0x01;
        let read = UBootEnv::decode(&bad);
        assert!(read.is_empty());
        assert_eq!(read.get("boot_spare"), None);
        assert_eq!(read.encode().unwrap(), UBootEnv::new().encode().unwrap());
    }
}

#[test]
fn wrong_size_reads_as_empty() {
    let mut env = UBootEnv::new();
    env.set("boot_spare", "1");
    let good = env.encode().unwrap();
    assert!(UBootEnv::decode(&good[..ENV_SIZE - 1]).is_empty());
    let mut longer = good.clone();
    longer.push(0);
    assert!(UBootEnv::decode(&longer).is_empty());
    assert!(UBootEnv::decode(&[]).is_empty());
    assert!(UBootEnv::decode(&[0; 4]).is_empty());
}

#[test]
fn payload_that_is_no_list_reads_as_empty() {
    // An entry without an equals sign.
    assert!(UBootEnv::decode(&seal(&payload_with(b"a=1\0novalue\0", 0))).is_empty());
    // An entry with an empty name.
    assert!(UBootEnv::decode(&seal(&payload_with(b"a=1\0=1\0", 0))).is_empty());
    // Nothing ends the list.
    assert!(UBootEnv::decode(&seal(&payload_with(b"a=1\0", b'x'))).is_empty());
    assert!(UBootEnv::decode(&seal(&payload_with(b"", b'x'))).is_empty());
    // A name is listed twice.
    assert!(UBootEnv::decode(&seal(&payload_with(b"a=1\0b=2\0a=3\0", 0))).is_empty());
}

#[test]
fn what_follows_the_end_of_the_list_is_not_read() {
    let read = UBootEnv::decode(&seal(&payload_with(b"a=1\0\0junk", 0xff)));
    assert_eq!(read.len(), 1);
    assert_eq!(read.get("a"), Some(&b"1"[..]));
    let read = UBootEnv::decode(&seal(&payload_with(b"a=1\0b=x=y\0\0", 0xff)));
    assert_eq!(read.len(), 2);
    assert_eq!(read.get("b"), Some(&b"x=y"[..]));
}

#[test]
fn invalid_names_and_values_are_refused() {
    let mut env = UBootEnv::new();
    env.set("", "1");
    assert_eq!(env.encode(), Err(EnvError::InvalidName));
    let mut env = UBootEnv::new();
    env.set("a=b", "1");
    assert_eq!(env.encode(), Err(EnvError::InvalidName));
    let mut env = UBootEnv::new();
    env.set("a\0", "1");
    assert_eq!(env.encode(), Err(EnvError::InvalidName));
    let mut env = UBootEnv::new();
    env.set("a", "1\0");
    assert_eq!(env.encode(), Err(EnvError::InvalidValue));
    // Names are looked at before values.
    let mut env = UBootEnv::new();
    env.set("a", "1\0");
    env.set("", "1");
    assert_eq!(env.encode(), Err(EnvError::InvalidName));
}

#[test]
fn environment_must_fit_the_payload() {
    // "k=" and the value and the zero byte, and the zero byte that ends the list.
    let largest = "v".repeat(PAYLOAD_SIZE - 4);
    let mut env = UBootEnv::new();
    env.set("k", &largest);
    let block = env.encode().unwrap();
    assert_eq!(block[PAYLOAD_SIZE - 2], 0);
    assert_eq!(block[PAYLOAD_SIZE - 1], 0);
    assert_eq!(UBootEnv::decode(&block).get("k"), Some(largest.as_bytes()));

    let too_large = "v".repeat(PAYLOAD_SIZE - 3);
    let mut env = UBootEnv::new();
    env.set("k", &too_large);
    assert_eq!(env.encode(), Err(EnvError::TooLarge));

    let mut env = UBootEnv::new();
    for i in 0..1000 {
        env.set(&format!("name{i}"), "value");
    }
    assert_eq!(env.encode(), Err(EnvError::TooLarge));
    // Validity is looked at before the size.
    env.set("bad=name", "value");
    assert_eq!(env.encode(), Err(EnvError::InvalidName));
}

#[test]
fn default_environment_is_the_empty_one() {
    let env = UBootEnv::default();
    assert!(env.is_empty());
    assert_eq!(env.encode().unwrap(), UBootEnv::new().encode().unwrap());
}

#[test]
fn what_was_read_can_be_written_again() {
    let block = seal(&payload_with(b"b=2\0a=1\0\0rest", 0xff));
    let read = UBootEnv::decode(&block);
    assert_eq!(read.len(), 2);
    let written = read.encode().unwrap();
    assert_eq!(&written[..9], b"b=2\0a=1\0\0");
    let again = UBootEnv::decode(&written);
    assert_eq!(again.get("a"), Some(&b"1"[..]));
    assert_eq!(again.get("b"), Some(&b"2"[..]));
}
