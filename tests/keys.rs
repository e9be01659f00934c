use switch_ldn_tool::keys::{
    decode_hex_aeskey, decode_hex_key, seal_key, trim_bytes, unseal_key, KeyField, Keys,
    LoadError,
};
use switch_ldn_tool::ldn_frame::ACTION_KEY;

const WRAPPED_KEK: [u8; 16] = [
    0xf1, 0xe7, 0x1, 0x84, 0x19, 0xa8, 0x4f, 0x71, 0x1d, 0xa7, 0x14, 0xc2, 0xcf, 0x91, 0x9c, 0x9c,
];
const KEY_SOURCE: [u8; 16] = [
    0x4e, 0x34, 0x7a, 0xd5, 0x18, 0x4a, 0xc8, 0x31, 0x68, 0x2d, 0x56, 0xc3, 0x92, 0x34, 0x5f, 0xdd,
];

fn lines(text: &str) -> Vec<Vec<u8>> {
    text.lines().map(|l| l.as_bytes().to_vec()).collect()
}

fn fixed_keys() -> Keys {
    let mut keys = Keys::new();
    let text = "master_key_00 = 00112233445566778899aabbccddeeff\n\
                aes_kek_generation_source = 0f0e0d0c0b0a09080706050403020100\n\
                aes_key_generation_source = 101112131415161718191a1b1c1d1e1f\n";
    keys.read_from_lines(&lines(text)).expect("fixed keys load");
    keys
}

#[test]
fn test_seal_key() {
    let key = [0; 16];
    let result = unseal_key(&seal_key(&key));
    assert_eq!(key, result)
}

#[test]
fn seal_of_zero_block_is_known() {
    let sealed = seal_key(&[0; 16]);
    assert_eq!(
        sealed,
        [0x80, 0x2f, 0x85, 0x0c, 0x0f, 0x1a, 0xa3, 0x0b, 0xd0, 0x17, 0x6f, 0xac, 0x50, 0x57, 0x8b, 0x7c]
    );
}

#[test]
fn seal_round_trip_on_nonzero_block() {
    let key = KEY_SOURCE;
    let sealed = seal_key(&key);
    assert_ne!(sealed, key);
    assert_eq!(unseal_key(&sealed), key);
    assert_eq!(seal_key(&unseal_key(&key)), key);
}

#[test]
fn generate_kek_then_key_matches_golden_value() {
    let keys = fixed_keys();
    let kek = keys.generate_aes_kek(&WRAPPED_KEK);
    assert_eq!(
        kek,
        [0xab, 0x12, 0x72, 0x1c, 0xf6, 0xee, 0xd2, 0x81, 0x9b, 0x39, 0xb7, 0x1b, 0x8a, 0x71, 0xe7, 0xdc]
    );
    let key = keys.generate_aes_key(&kek, &KEY_SOURCE);
    assert_eq!(
        key,
        [0xcc, 0x00, 0x67, 0x7b, 0x2a, 0x6a, 0x5c, 0x82, 0x69, 0x6a, 0xf2, 0xbb, 0x49, 0xab, 0xa3, 0xfe]
    );
}

#[test]
fn derive_key_matches_golden_value_and_is_deterministic() {
    let keys = fixed_keys();
    let first = keys.derive_key(&ACTION_KEY, &KEY_SOURCE);
    let second = keys.derive_key(&ACTION_KEY, &KEY_SOURCE);
    assert_eq!(first, second);
    assert_eq!(
        first,
        [0x89, 0x7a, 0xa7, 0x4d, 0x82, 0xe9, 0x88, 0x4a, 0xc6, 0x1d, 0x8a, 0x67, 0x01, 0x79, 0x81, 0x34]
    );
    let other = fixed_keys().derive_key(&ACTION_KEY, &KEY_SOURCE);
    assert_eq!(first, other);
}

#[test]
fn load_skips_unknown_names_and_lines_without_separator() {
    let mut keys = Keys::new();
    let text = "# comment line\n\
                header_key = zz\n\
                \n\
                  master_key_00=00112233445566778899AABBCCDDEEFF  \n\
                aes_kek_generation_source\t=\t0f0e0d0c0b0a09080706050403020100\r\n\
                aes_key_generation_source = 101112131415161718191a1b1c1d1e1f\n";
    assert_eq!(keys.read_from_lines(&lines(text)), Ok(()));
    let reference = fixed_keys();
    assert_eq!(
        keys.derive_key(&ACTION_KEY, &KEY_SOURCE),
        reference.derive_key(&ACTION_KEY, &KEY_SOURCE)
    );
}

#[test]
fn load_later_entry_wins() {
    let mut keys = Keys::new();
    let text = "master_key_00 = 00\n\
                master_key_00 = 00112233445566778899aabbccddeeff\n\
                aes_kek_generation_source = 0f0e0d0c0b0a09080706050403020100\n\
                aes_key_generation_source = 101112131415161718191a1b1c1d1e1f\n";
    assert_eq!(keys.read_from_lines(&lines(text)), Ok(()));
    assert_eq!(
        keys.generate_aes_kek(&WRAPPED_KEK),
        fixed_keys().generate_aes_kek(&WRAPPED_KEK)
    );
}

#[test]
fn load_missing_source_is_malformed() {
    let mut keys = Keys::new();
    let text = "master_key_00 = 00112233445566778899aabbccddeeff\n\
                aes_key_generation_source = 101112131415161718191a1b1c1d1e1f\n";
    assert_eq!(
        keys.read_from_lines(&lines(text)),
        Err(LoadError::MalformedKey(KeyField::AesKekGenerationSource))
    );
}

#[test]
fn load_short_key_is_malformed() {
    let mut keys = Keys::new();
    let text = "master_key_00 = 00112233445566778899aabbccddee\n\
                aes_kek_generation_source = 0f0e0d0c0b0a09080706050403020100\n\
                aes_key_generation_source = 101112131415161718191a1b1c1d1e1f\n";
    assert_eq!(
        keys.read_from_lines(&lines(text)),
        Err(LoadError::MalformedKey(KeyField::MasterKey))
    );
}

#[test]
fn load_long_key_is_malformed() {
    let mut keys = Keys::new();
    let text = "master_key_00 = 00112233445566778899aabbccddeeff\n\
                aes_kek_generation_source = 0f0e0d0c0b0a09080706050403020100\n\
                aes_key_generation_source = 101112131415161718191a1b1c1d1e1f20\n";
    assert_eq!(
        keys.read_from_lines(&lines(text)),
        Err(LoadError::MalformedKey(KeyField::AesKeyGenerationSource))
    );
}

#[test]
fn load_bad_hex_is_malformed_and_keeps_old_keys() {
    let mut keys = fixed_keys();
    let before = keys.derive_key(&ACTION_KEY, &KEY_SOURCE);
    let text = "master_key_00 = 0g112233445566778899aabbccddeeff\n";
    assert_eq!(
        keys.read_from_lines(&lines(text)),
        Err(LoadError::MalformedKey(KeyField::MasterKey))
    );
    assert_eq!(keys.derive_key(&ACTION_KEY, &KEY_SOURCE), before);
}

#[test]
fn load_of_empty_file_keeps_a_complete_key_set() {
    let mut keys = fixed_keys();
    assert_eq!(keys.read_from_lines(&[]), Ok(()));
    let mut empty = Keys::new();
    assert_eq!(
        empty.read_from_lines(&[]),
        Err(LoadError::MalformedKey(KeyField::AesKekGenerationSource))
    );
}

#[test]
fn key_field_names() {
    assert_eq!(KeyField::AesKekGenerationSource.name(), "aes_kek_generation_source");
    assert_eq!(KeyField::AesKeyGenerationSource.name(), "aes_key_generation_source");
    assert_eq!(KeyField::MasterKey.name(), "master_key");
}

#[test]
fn decode_hex_key_trims_and_decodes() {
    assert_eq!(decode_hex_key(b"  0aFf \n"), Some(vec![0x0a, 0xff]));
    assert_eq!(decode_hex_key(b""), Some(vec![]));
    assert_eq!(decode_hex_key(b"abc"), None);
    assert_eq!(decode_hex_key(b"xy"), None);
}

#[test]
fn decode_hex_aeskey_takes_first_sixteen_bytes() {
    assert_eq!(
        decode_hex_aeskey(b" 00112233445566778899aabbccddeeff0102 "),
        Some([0x00, 0x11, 0x22, 0x33, 0x44, 0x55, 0x66, 0x77, 0x88, 0x99, 0xaa, 0xbb, 0xcc, 0xdd, 0xee, 0xff])
    );
    assert_eq!(decode_hex_aeskey(b"00112233"), None);
    assert_eq!(decode_hex_aeskey(b"not hex"), None);
}

#[test]
fn trim_bytes_strips_ascii_whitespace() {
    assert_eq!(trim_bytes(b" \t a b \r\n"), b"a b");
    assert_eq!(trim_bytes(b"   "), b"");
    assert_eq!(trim_bytes(b"x"), b"x");
}

#[test]
fn load_skips_lines_with_two_separators() {
    let mut keys = fixed_keys();
    let before = keys.derive_key(&ACTION_KEY, &KEY_SOURCE);
    let text = "master_key_00 = 0011=2233445566778899aabbccddeeff\n\
                master_key_00 == 00112233445566778899aabbccddeeff\n";
    assert_eq!(keys.read_from_lines(&lines(text)), Ok(()));
    assert_eq!(keys.derive_key(&ACTION_KEY, &KEY_SOURCE), before);
}
