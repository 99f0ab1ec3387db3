//! The fixed-layout 1024-byte commitment fed to the delay-function
//! prover: auth key, chain id, difficulty parameters, scheme tag, a
//! reserved link field, and the attestation statement, each left-padded
//! with zero bytes to a fixed width.
//!
//! Binding identity, network instance, difficulty, and statement into one
//! canonical byte string keeps a proof computed for one identity, chain or
//! statement from being replayed as if computed for another.

use byteorder::{LittleEndian, WriteBytesExt};
use vstd::prelude::*;
use vstd::string::StrSliceExecFns;
use vstd::utf8::encode_utf8;

verus! {

/// Width of the raw authentication key field.
pub const AUTH_KEY_BYTES: usize = 32;

/// Width of the decimal chain-id field.
pub const CHAIN_ID_BYTES: usize = 16;

/// Width of the little-endian iteration-count field.
pub const DIFFICULTY_BYTES: usize = 8;

/// Width of the little-endian security-parameter field.
pub const SECURITY_BYTES: usize = 8;

/// The one-byte tag of the delay-function construction in use.
pub const SCHEME_ID_PIETRZAK: u8 = 1;

/// Width of the reserved, all-zero link field (once a hash of the last
/// proof of an existing tower; now kept for layout compatibility).
pub const LINK_TO_TOWER_BYTES: usize = 64;

/// Width of the attestation-statement field: the remainder of the
/// 1024-byte preimage.
pub const STATEMENT_BYTES: usize = 895;

/// Total length of the preimage.
pub const PREIMAGE_BYTES: usize = 1024;

/// `n` zero bytes.
pub open spec fn zero_bytes(n: nat) -> Seq<u8> {
    Seq::new(n, |i: int| 0u8)
}

/// `b` right-aligned in a field of `width` bytes, the left filled with
/// zeros. Meaningful only when `b` fits the field.
pub open spec fn pad_left(b: Seq<u8>, width: nat) -> Seq<u8>
    recommends
        b.len() <= width,
{
    zero_bytes((width - b.len()) as nat) + b
}

/// A value did not fit its fixed-width field: the diagnostic lengths the
/// caller reports.
#[derive(Clone, Copy, Debug, PartialEq, Eq, Structural)]
pub struct PadError {
    /// How long the value was.
    pub actual: usize,
    /// The width of the field it had to fit.
    pub max: usize,
}

/// Left-zero-pads `bytes` to exactly `limit` bytes; input longer than the
/// field is rejected with both lengths.
pub fn padding(bytes: Vec<u8>, limit: usize) -> (r: Result<Vec<u8>, PadError>)
    ensures
        match r {
            Ok(p) => bytes@.len() <= limit && p@ == pad_left(bytes@, limit as nat) && p@.len()
                == limit,
            Err(e) => bytes@.len() > limit && e == (PadError {
                actual: bytes@.len() as usize,
                max: limit,
            }),
        },
{
    if bytes.len() > limit {
        return Err(PadError { actual: bytes.len(), max: limit });
    }
    let mut padded: Vec<u8> = Vec::new();
    let pad_len = limit - bytes.len();
    let mut k: usize = 0;
    while k < pad_len
        invariant
            k <= pad_len,
            padded@ =~= zero_bytes(k as nat),
        decreases pad_len - k,
    {
        padded.push(0u8);
        proof {
            assert(padded@ =~= zero_bytes((k + 1) as nat));
        }
        k = k + 1;
    }
    let mut rest = bytes;
    let ghost rest_view = rest@;
    padded.append(&mut rest);
    proof {
        assert(padded@ =~= pad_left(rest_view, limit as nat));
    }
    Ok(padded)
}

/// Which preimage field a length diagnostic speaks of.
#[derive(Clone, Copy, Debug, PartialEq, Eq, Structural)]
pub enum FieldName {
    AuthKey,
    ChainId,
    TowerLink,
    Statement,
}

/// Why no preimage was produced. No partial preimage is ever returned
/// alongside one of these.
#[derive(Clone, Copy, Debug, PartialEq, Eq, Structural)]
pub enum EncodeError {
    /// The profile's auth key is not a hex-encoded byte string.
    InvalidHexAuthKey,
    /// A field's raw bytes exceed its fixed width; carries the field and
    /// both lengths.
    FieldTooLong { field: FieldName, actual: usize, max: usize },
    /// The assembled preimage missed its fixed total length: an internal
    /// defect marker, unreachable given the fixed widths.
    LengthInvariantViolation,
}

/// The profile data the encoder reads: a hex-encoded authentication key,
/// the network's chain id, and the free-text attestation statement.
/// Resolved by an external profile loader; read-only here.
#[derive(Clone, Debug)]
pub struct ProfileConfig {
    pub auth_key: String,
    pub chain_id: u64,
    pub statement: String,
}

/// Externally fixed parameters of the delay function.
#[derive(Clone, Copy, Debug, PartialEq, Eq, Structural)]
pub struct ProtocolConstants {
    /// Iteration count (difficulty) of the delay function.
    pub vdf_iterations: u64,
    /// Security parameter of the delay function.
    pub vdf_security_param: u64,
}

/// One of `0-9`, `a-f`, `A-F`.
pub open spec fn is_hex_digit(c: char) -> bool {
    ('0' as u32 <= c as u32 && c as u32 <= '9' as u32) || ('a' as u32 <= c as u32 && c as u32
        <= 'f' as u32) || ('A' as u32 <= c as u32 && c as u32 <= 'F' as u32)
}

/// The value of one hex digit.
pub open spec fn hex_digit_value(c: char) -> nat
    recommends
        is_hex_digit(c),
{
    if '0' as u32 <= c as u32 && c as u32 <= '9' as u32 {
        (c as u32 - '0' as u32) as nat
    } else if 'a' as u32 <= c as u32 && c as u32 <= 'f' as u32 {
        (c as u32 - 'a' as u32 + 10) as nat
    } else if 'A' as u32 <= c as u32 && c as u32 <= 'F' as u32 {
        (c as u32 - 'A' as u32 + 10) as nat
    } else {
        0
    }
}

/// An even number of hex digits: what decodes to a byte string.
pub open spec fn is_hex_string(s: Seq<char>) -> bool {
    s.len() % 2 == 0 && forall|i: int| 0 <= i < s.len() ==> is_hex_digit(#[trigger] s[i])
}

/// The bytes a hex string decodes to: one byte per digit pair, the first
/// digit of a pair giving the high four bits.
pub open spec fn hex_bytes(s: Seq<char>) -> Seq<u8>
    recommends
        is_hex_string(s),
{
    Seq::new(
        s.len() / 2,
        |i: int| (16 * hex_digit_value(s[2 * i]) + hex_digit_value(s[2 * i + 1])) as u8,
    )
}

#[verifier::external_type_specification]
#[verifier::external_body]
pub struct ExFromHexError(hex::FromHexError);

/// Relies on hex::decode: an even-length string of hex digits (either
/// case) decodes to one byte per digit pair, high four bits first; an odd
/// length or any other character is an error.
#[verifier::external_body]
fn hex_decode(s: &str) -> (r: Result<Vec<u8>, hex::FromHexError>)
    ensures
        match r {
            Ok(v) => is_hex_string(s@) && v@ == hex_bytes(s@),
            Err(_) => !is_hex_string(s@),
        },
{
    hex::decode(s)
}

/// The eight little-endian bytes of `n`, least significant first.
pub open spec fn u64_le_bytes(n: u64) -> Seq<u8> {
    seq![
        (n & 0xff) as u8,
        ((n >> 8) & 0xff) as u8,
        ((n >> 16) & 0xff) as u8,
        ((n >> 24) & 0xff) as u8,
        ((n >> 32) & 0xff) as u8,
        ((n >> 40) & 0xff) as u8,
        ((n >> 48) & 0xff) as u8,
        ((n >> 56) & 0xff) as u8,
    ]
}

/// Relies on byteorder's WriteBytesExt::write_u64 with LittleEndian: it
/// appends the eight little-endian bytes of `n`; writing to a Vec never
/// fails.
#[verifier::external_body]
fn write_u64_le(buf: &mut Vec<u8>, n: u64)
    ensures
        final(buf)@ == old(buf)@ + u64_le_bytes(n),
{
    buf.write_u64::<LittleEndian>(n).unwrap();
}

/// The decimal ASCII digits of `n`, most significant first, no sign and
/// no leading zeros.
pub open spec fn dec_digits(n: nat) -> Seq<u8>
    decreases n,
{
    if n < 10 {
        seq![(48 + n) as u8]
    } else {
        dec_digits(n / 10).push((48 + n % 10) as u8)
    }
}

/// Writes `n` in decimal ASCII.
fn u64_to_decimal(n: u64) -> (r: Vec<u8>)
    ensures
        r@ == dec_digits(n as nat),
    decreases n,
{
    if n < 10 {
        let mut v: Vec<u8> = Vec::new();
        v.push(48 + n as u8);
        proof {
            assert(v@ =~= dec_digits(n as nat));
        }
        v
    } else {
        let mut v = u64_to_decimal(n / 10);
        v.push(48 + (n % 10) as u8);
        proof {
            assert(v@ =~= dec_digits(n as nat));
        }
        v
    }
}

/// All three variable-width fields of `p` fit their columns: exactly the
/// inputs on which a preimage is owed.
pub open spec fn encode_ok(p: ProfileConfig) -> bool {
    &&& is_hex_string(p.auth_key@)
    &&& hex_bytes(p.auth_key@).len() <= AUTH_KEY_BYTES
    &&& dec_digits(p.chain_id as nat).len() <= CHAIN_ID_BYTES
    &&& encode_utf8(p.statement@).len() <= STATEMENT_BYTES
}

/// The error the encoder owes when `p` is rejected, checked in field
/// order: auth key first, then chain id, then statement.
pub open spec fn encode_err(p: ProfileConfig) -> EncodeError
    recommends
        !encode_ok(p),
{
    if !is_hex_string(p.auth_key@) {
        EncodeError::InvalidHexAuthKey
    } else if hex_bytes(p.auth_key@).len() > AUTH_KEY_BYTES {
        EncodeError::FieldTooLong {
            field: FieldName::AuthKey,
            actual: hex_bytes(p.auth_key@).len() as usize,
            max: AUTH_KEY_BYTES,
        }
    } else if dec_digits(p.chain_id as nat).len() > CHAIN_ID_BYTES {
        EncodeError::FieldTooLong {
            field: FieldName::ChainId,
            actual: dec_digits(p.chain_id as nat).len() as usize,
            max: CHAIN_ID_BYTES,
        }
    } else {
        EncodeError::FieldTooLong {
            field: FieldName::Statement,
            actual: encode_utf8(p.statement@).len() as usize,
            max: STATEMENT_BYTES,
        }
    }
}

/// The 1024 bytes the encoder owes: the six fields in their fixed order,
/// each left-zero-padded to its width.
pub open spec fn preimage_spec(p: ProfileConfig, c: ProtocolConstants) -> Seq<u8>
    recommends
        encode_ok(p),
{
    pad_left(hex_bytes(p.auth_key@), AUTH_KEY_BYTES as nat) + pad_left(
        dec_digits(p.chain_id as nat),
        CHAIN_ID_BYTES as nat,
    ) + u64_le_bytes(c.vdf_iterations) + u64_le_bytes(c.vdf_security_param) + seq![
        SCHEME_ID_PIETRZAK,
    ] + zero_bytes(LINK_TO_TOWER_BYTES as nat) + pad_left(
        encode_utf8(p.statement@),
        STATEMENT_BYTES as nat,
    )
}

/// Length invariant: on every accepted profile the preimage is exactly
/// 1024 bytes, whatever the constants.
pub proof fn lemma_preimage_length(p: ProfileConfig, c: ProtocolConstants)
    requires
        encode_ok(p),
    ensures
        preimage_spec(p, c).len() == PREIMAGE_BYTES,
{
    assert(pad_left(hex_bytes(p.auth_key@), AUTH_KEY_BYTES as nat).len() == AUTH_KEY_BYTES);
    assert(pad_left(dec_digits(p.chain_id as nat), CHAIN_ID_BYTES as nat).len() == CHAIN_ID_BYTES);
    assert(pad_left(encode_utf8(p.statement@), STATEMENT_BYTES as nat).len() == STATEMENT_BYTES);
}

/// Field layout: each of the seven columns of the preimage sits at its
/// fixed offset and holds exactly its padded source value.
pub proof fn lemma_preimage_layout(p: ProfileConfig, c: ProtocolConstants)
    requires
        encode_ok(p),
    ensures
        preimage_spec(p, c).subrange(0, AUTH_KEY_BYTES as int) == pad_left(
            hex_bytes(p.auth_key@),
            AUTH_KEY_BYTES as nat,
        ),
        preimage_spec(p, c).subrange(
            AUTH_KEY_BYTES as int,
            (AUTH_KEY_BYTES + CHAIN_ID_BYTES) as int,
        ) == pad_left(dec_digits(p.chain_id as nat), CHAIN_ID_BYTES as nat),
        preimage_spec(p, c).subrange(
            (AUTH_KEY_BYTES + CHAIN_ID_BYTES) as int,
            (AUTH_KEY_BYTES + CHAIN_ID_BYTES + DIFFICULTY_BYTES) as int,
        ) == u64_le_bytes(c.vdf_iterations),
        preimage_spec(p, c).subrange(
            (AUTH_KEY_BYTES + CHAIN_ID_BYTES + DIFFICULTY_BYTES) as int,
            (AUTH_KEY_BYTES + CHAIN_ID_BYTES + DIFFICULTY_BYTES + SECURITY_BYTES) as int,
        ) == u64_le_bytes(c.vdf_security_param),
        preimage_spec(p, c)[(AUTH_KEY_BYTES + CHAIN_ID_BYTES + DIFFICULTY_BYTES
            + SECURITY_BYTES) as int] == SCHEME_ID_PIETRZAK,
        preimage_spec(p, c).subrange(
            (AUTH_KEY_BYTES + CHAIN_ID_BYTES + DIFFICULTY_BYTES + SECURITY_BYTES + 1) as int,
            (PREIMAGE_BYTES - STATEMENT_BYTES) as int,
        ) == zero_bytes(LINK_TO_TOWER_BYTES as nat),
        preimage_spec(p, c).subrange(
            (PREIMAGE_BYTES - STATEMENT_BYTES) as int,
            PREIMAGE_BYTES as int,
        ) == pad_left(encode_utf8(p.statement@), STATEMENT_BYTES as nat),
{
    lemma_preimage_length(p, c);
    assert(preimage_spec(p, c).subrange(0, AUTH_KEY_BYTES as int) =~= pad_left(
        hex_bytes(p.auth_key@),
        AUTH_KEY_BYTES as nat,
    ));
    assert(preimage_spec(p, c).subrange(
        AUTH_KEY_BYTES as int,
        (AUTH_KEY_BYTES + CHAIN_ID_BYTES) as int,
    ) =~= pad_left(dec_digits(p.chain_id as nat), CHAIN_ID_BYTES as nat));
    assert(preimage_spec(p, c).subrange(
        (AUTH_KEY_BYTES + CHAIN_ID_BYTES) as int,
        (AUTH_KEY_BYTES + CHAIN_ID_BYTES + DIFFICULTY_BYTES) as int,
    ) =~= u64_le_bytes(c.vdf_iterations));
    assert(preimage_spec(p, c).subrange(
        (AUTH_KEY_BYTES + CHAIN_ID_BYTES + DIFFICULTY_BYTES) as int,
        (AUTH_KEY_BYTES + CHAIN_ID_BYTES + DIFFICULTY_BYTES + SECURITY_BYTES) as int,
    ) =~= u64_le_bytes(c.vdf_security_param));
    assert(preimage_spec(p, c).subrange(
        (AUTH_KEY_BYTES + CHAIN_ID_BYTES + DIFFICULTY_BYTES + SECURITY_BYTES + 1) as int,
        (PREIMAGE_BYTES - STATEMENT_BYTES) as int,
    ) =~= zero_bytes(LINK_TO_TOWER_BYTES as nat));
    assert(preimage_spec(p, c).subrange(
        (PREIMAGE_BYTES - STATEMENT_BYTES) as int,
        PREIMAGE_BYTES as int,
    ) =~= pad_left(encode_utf8(p.statement@), STATEMENT_BYTES as nat));
}

/// Padding exactness of the statement field: the encoded statement stands
/// verbatim at the very end of the preimage, preceded within its field by
/// zero bytes alone. In particular a statement of the full field width
/// fills the final `STATEMENT_BYTES` bytes unpadded.
pub proof fn lemma_statement_field(p: ProfileConfig, c: ProtocolConstants)
    requires
        encode_ok(p),
    ensures
        preimage_spec(p, c).subrange(
            PREIMAGE_BYTES - STATEMENT_BYTES,
            PREIMAGE_BYTES as int,
        ) == pad_left(encode_utf8(p.statement@), STATEMENT_BYTES as nat),
        preimage_spec(p, c).skip(PREIMAGE_BYTES - encode_utf8(p.statement@).len()) == encode_utf8(
            p.statement@,
        ),
        forall|i: int|
            PREIMAGE_BYTES - STATEMENT_BYTES <= i < PREIMAGE_BYTES - encode_utf8(
                p.statement@,
            ).len() ==> preimage_spec(p, c)[i] == 0u8,
{
    lemma_preimage_length(p, c);
    let st = encode_utf8(p.statement@);
    assert(preimage_spec(p, c).subrange(PREIMAGE_BYTES - STATEMENT_BYTES, PREIMAGE_BYTES as int)
        =~= pad_left(st, STATEMENT_BYTES as nat));
    assert(preimage_spec(p, c).skip(PREIMAGE_BYTES - st.len()) =~= st);
}

/// Determinism: every field of the preimage is a function of the profile
/// and constant values alone, so equal inputs give byte-identical output
/// — and the same acceptance and error.
pub proof fn lemma_encode_deterministic(
    p1: ProfileConfig,
    p2: ProfileConfig,
    c1: ProtocolConstants,
    c2: ProtocolConstants,
)
    requires
        p1.auth_key@ == p2.auth_key@,
        p1.chain_id == p2.chain_id,
        p1.statement@ == p2.statement@,
        c1 == c2,
    ensures
        encode_ok(p1) == encode_ok(p2),
        encode_ok(p1) ==> preimage_spec(p1, c1) == preimage_spec(p2, c2),
        !encode_ok(p1) ==> encode_err(p1) == encode_err(p2),
{
}

/// Assembles the canonical commitment for the delay-function proof: auth
/// key (hex-decoded), chain id (decimal ASCII), iteration count and
/// security parameter (little endian), scheme tag, reserved link field,
/// and the statement, each padded to its fixed width, 1024 bytes in all.
pub fn genesis_preimage(profile: &ProfileConfig, constants: &ProtocolConstants) -> (r: Result<
    Vec<u8>,
    EncodeError,
>)
    ensures
        match r {
            Ok(p) => encode_ok(*profile) && p@ == preimage_spec(*profile, *constants) && p@.len()
                == PREIMAGE_BYTES,
            Err(e) => !encode_ok(*profile) && e == encode_err(*profile),
        },
{
    let mut preimage: Vec<u8> = Vec::new();

    // AUTH_KEY_BYTES
    let key_bytes = match hex_decode(profile.auth_key.as_str()) {
        Ok(kb) => kb,
        Err(_) => {
            return Err(EncodeError::InvalidHexAuthKey);
        },
    };
    let mut padded_key = match padding(key_bytes, AUTH_KEY_BYTES) {
        Ok(p) => p,
        Err(e) => {
            return Err(
                EncodeError::FieldTooLong {
                    field: FieldName::AuthKey,
                    actual: e.actual,
                    max: e.max,
                },
            );
        },
    };
    preimage.append(&mut padded_key);

    // CHAIN_ID_BYTES
    let chain_digits = u64_to_decimal(profile.chain_id);
    let mut padded_chain = match padding(chain_digits, CHAIN_ID_BYTES) {
        Ok(p) => p,
        Err(e) => {
            return Err(
                EncodeError::FieldTooLong {
                    field: FieldName::ChainId,
                    actual: e.actual,
                    max: e.max,
                },
            );
        },
    };
    preimage.append(&mut padded_chain);

    // DIFFICULTY_BYTES
    write_u64_le(&mut preimage, constants.vdf_iterations);

    // SECURITY_BYTES
    write_u64_le(&mut preimage, constants.vdf_security_param);

    // Scheme tag
    preimage.push(SCHEME_ID_PIETRZAK);

    // LINK_TO_TOWER: reserved, all zeros
    let mut padded_link = match padding(Vec::new(), LINK_TO_TOWER_BYTES) {
        Ok(p) => p,
        Err(e) => {
            return Err(
                EncodeError::FieldTooLong {
                    field: FieldName::TowerLink,
                    actual: e.actual,
                    max: e.max,
                },
            );
        },
    };
    preimage.append(&mut padded_link);

    // STATEMENT
    let stmt_bytes = profile.statement.as_str().as_bytes_vec();
    let mut padded_stmt = match padding(stmt_bytes, STATEMENT_BYTES) {
        Ok(p) => p,
        Err(e) => {
            return Err(
                EncodeError::FieldTooLong {
                    field: FieldName::Statement,
                    actual: e.actual,
                    max: e.max,
                },
            );
        },
    };
    preimage.append(&mut padded_stmt);

    proof {
        assert(preimage@ =~= preimage_spec(*profile, *constants));
    }

    if preimage.len() != PREIMAGE_BYTES {
        // Unreachable given the fixed widths above; an internal defect
        // marker rather than a user-facing error.
        return Err(EncodeError::LengthInvariantViolation);
    }

    Ok(preimage)
}

} // verus!
