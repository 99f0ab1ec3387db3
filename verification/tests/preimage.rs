use tower_genesis::preimage::{
    genesis_preimage, padding, EncodeError, FieldName, PadError, ProfileConfig,
    ProtocolConstants, AUTH_KEY_BYTES, CHAIN_ID_BYTES, LINK_TO_TOWER_BYTES, PREIMAGE_BYTES,
    SCHEME_ID_PIETRZAK, STATEMENT_BYTES,
};

fn profile(auth_key: &str, chain_id: u64, statement: &str) -> ProfileConfig {
    ProfileConfig {
        auth_key: auth_key.to_string(),
        chain_id,
        statement: statement.to_string(),
    }
}

fn constants(iterations: u64, security: u64) -> ProtocolConstants {
    ProtocolConstants {
        vdf_iterations: iterations,
        vdf_security_param: security,
    }
}

#[test]
fn preimage_is_1024_bytes() {
    let p = profile("deadbeef", 1, "attestation");
    let c = constants(3_000_000_000, 350);
    let preimage = genesis_preimage(&p, &c).unwrap();
    assert_eq!(preimage.len(), PREIMAGE_BYTES);
    assert_eq!(preimage.len(), 1024);
}

#[test]
fn exact_field_layout() {
    let p = profile("ab", 7, "abc");
    let c = constants(0x0102030405060708, 2);
    let preimage = genesis_preimage(&p, &c).unwrap();

    // auth key: 31 zeros, then the decoded byte
    assert_eq!(&preimage[0..31], &[0u8; 31]);
    assert_eq!(preimage[31], 0xab);

    // chain id: 15 zeros, then the ASCII digit '7'
    assert_eq!(&preimage[32..47], &[0u8; 15]);
    assert_eq!(preimage[47], b'7');

    // iteration count, little endian
    assert_eq!(&preimage[48..56], &[8, 7, 6, 5, 4, 3, 2, 1]);

    // security parameter, little endian
    assert_eq!(&preimage[56..64], &[2, 0, 0, 0, 0, 0, 0, 0]);

    // scheme tag
    assert_eq!(preimage[64], SCHEME_ID_PIETRZAK);
    assert_eq!(preimage[64], 1);

    // reserved link field: all zeros
    assert_eq!(&preimage[65..129], &[0u8; LINK_TO_TOWER_BYTES]);

    // statement: 892 zeros, then the three bytes, ending the preimage
    assert_eq!(&preimage[129..1021], vec![0u8; 892].as_slice());
    assert_eq!(&preimage[1021..1024], b"abc");
}

#[test]
fn auth_key_decodes_as_hex_crate_does() {
    let key = "a1b2c3d4e5f60718293a4b5c6d7e8f90a1b2c3d4e5f60718293a4b5c6d7e8f90";
    let p = profile(key, 1, "s");
    let c = constants(120, 512);
    let preimage = genesis_preimage(&p, &c).unwrap();
    let expected = hex::decode(key).unwrap();
    assert_eq!(expected.len(), AUTH_KEY_BYTES);
    assert_eq!(&preimage[0..32], expected.as_slice());
}

#[test]
fn little_endian_fields_match_std_encoding() {
    let c = constants(3_000_000_000, 350);
    let p = profile("00", 9, "s");
    let preimage = genesis_preimage(&p, &c).unwrap();
    assert_eq!(&preimage[48..56], &3_000_000_000u64.to_le_bytes());
    assert_eq!(&preimage[56..64], &350u64.to_le_bytes());
}

#[test]
fn chain_id_is_decimal_ascii() {
    let p = profile("00", 4071, "s");
    let c = constants(1, 1);
    let preimage = genesis_preimage(&p, &c).unwrap();
    assert_eq!(&preimage[32..44], &[0u8; 12]);
    assert_eq!(&preimage[44..48], b"4071");
}

#[test]
fn full_width_statement_is_verbatim_and_unpadded() {
    let statement = "s".repeat(STATEMENT_BYTES);
    let p = profile("ff", 1, &statement);
    let c = constants(1, 1);
    let preimage = genesis_preimage(&p, &c).unwrap();
    assert_eq!(&preimage[129..1024], statement.as_bytes());
}

#[test]
fn statement_too_long_is_rejected() {
    let statement = "s".repeat(STATEMENT_BYTES + 1);
    let p = profile("ff", 1, &statement);
    let c = constants(1, 1);
    let result = genesis_preimage(&p, &c);
    assert_eq!(
        result,
        Err(EncodeError::FieldTooLong {
            field: FieldName::Statement,
            actual: 896,
            max: 895,
        })
    );
}

#[test]
fn auth_key_too_long_is_rejected() {
    let key = "ab".repeat(AUTH_KEY_BYTES + 1);
    let p = profile(&key, 1, "s");
    let c = constants(1, 1);
    let result = genesis_preimage(&p, &c);
    assert_eq!(
        result,
        Err(EncodeError::FieldTooLong {
            field: FieldName::AuthKey,
            actual: 33,
            max: 32,
        })
    );
}

#[test]
fn invalid_hex_auth_key_is_rejected() {
    let c = constants(1, 1);
    let not_hex = profile("zz", 1, "s");
    assert_eq!(
        genesis_preimage(&not_hex, &c),
        Err(EncodeError::InvalidHexAuthKey)
    );
    let odd_length = profile("abc", 1, "s");
    assert_eq!(
        genesis_preimage(&odd_length, &c),
        Err(EncodeError::InvalidHexAuthKey)
    );
}

#[test]
fn chain_id_too_long_is_rejected() {
    let p = profile("00", 10_000_000_000_000_000, "s");
    let c = constants(1, 1);
    let result = genesis_preimage(&p, &c);
    assert_eq!(
        result,
        Err(EncodeError::FieldTooLong {
            field: FieldName::ChainId,
            actual: 17,
            max: CHAIN_ID_BYTES,
        })
    );
}

#[test]
fn encoding_is_deterministic() {
    let p = profile("deadbeef", 5, "same statement");
    let c = constants(2_000_000, 512);
    let first = genesis_preimage(&p, &c).unwrap();
    let second = genesis_preimage(&p, &c).unwrap();
    assert_eq!(first, second);
}

#[test]
fn padding_left_aligns_zeros() {
    let padded = padding(vec![1, 2], 4).unwrap();
    assert_eq!(padded, vec![0, 0, 1, 2]);
}

#[test]
fn padding_keeps_exact_width_input() {
    let padded = padding(vec![9, 8, 7], 3).unwrap();
    assert_eq!(padded, vec![9, 8, 7]);
}

#[test]
fn padding_rejects_overlong_input() {
    let result = padding(vec![1, 2, 3], 2);
    assert_eq!(result, Err(PadError { actual: 3, max: 2 }));
}

#[test]
fn empty_statement_pads_to_all_zeros() {
    let p = profile("00", 0, "");
    let c = constants(0, 0);
    let preimage = genesis_preimage(&p, &c).unwrap();
    assert_eq!(&preimage[129..1024], vec![0u8; STATEMENT_BYTES].as_slice());
    // chain id zero is one ASCII digit, not an empty field
    assert_eq!(preimage[47], b'0');
}
