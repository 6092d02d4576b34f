//! The byte protocol of the smart cube: checksums, framing and encryption of commands,
//! and the parsing of the messages the cube sends.
use vstd::prelude::*;
use aes::Aes128;
use aes::cipher::{BlockDecrypt, BlockEncrypt, KeyInit};
use crate::cube::transform::mov::Move;
use crate::cube::face::Face;

verus! {

/// The AES-128 key that both sides use.
pub const APP_KEY: [u8; 16] = [87, 177, 249, 171, 205, 90, 232, 167, 156, 185, 140, 231, 87, 140, 81, 8];

// ---- CRC-16 (the reflected polynomial 0xA001, initial value 0xFFFF) ----------------

/// One bit step of the checksum register.
pub open spec fn spec_crc_round(crc: u16) -> u16 {
    if crc & 1 == 1 { (crc >> 1u16) ^ 0xa001 } else { crc >> 1u16 }
}

/// `n` bit steps of the checksum register.
pub open spec fn spec_crc_rounds(crc: u16, n: nat) -> u16
    decreases n,
{
    if n == 0 { crc } else { spec_crc_round(spec_crc_rounds(crc, (n - 1) as nat)) }
}

/// The checksum register after taking in byte `b`.
pub open spec fn spec_crc_byte(crc: u16, b: u8) -> u16 {
    spec_crc_rounds(crc ^ (b as u16), 8)
}

/// The CRC-16 checksum of `data`.
pub open spec fn spec_crc16(data: Seq<u8>) -> u16
    decreases data.len(),
{
    if data.len() == 0 { 0xffff } else { spec_crc_byte(spec_crc16(data.drop_last()), data.last()) }
}

/// Bit facts about a register whose low byte is clear.
proof fn lemma_crc_bits(c: u16, k: u16)
    by (bit_vector)
    requires
        k < 8,
    ensures
        ((c & 0xff00) >> k) & 1 == 0,
        ((c & 0xff00) >> k) >> 1u16 == (c & 0xff00) >> (k + 1),
        c ^ ((c & 0xff) as u8 as u16) == c & 0xff00,
        (c & 0xff00) >> 8u16 == c >> 8u16,
        (c >> 8u16) ^ ((c >> 8u16) as u8 as u16) == 0,
        (0u16 & 1u16) == 0,
        (0u16 >> 1u16) == 0,
{
}

/// Rounds on a register whose low byte is clear only shift it.
proof fn lemma_crc_rounds_shift(c: u16, j: nat)
    requires
        j <= 8,
    ensures
        spec_crc_rounds(c & 0xff00, j) == (c & 0xff00) >> (j as u16),
    decreases j,
{
    if j == 0 {
        lemma_crc_bits(c, 0);
        assert((c & 0xff00) >> 0u16 == c & 0xff00) by (bit_vector);
    } else {
        lemma_crc_rounds_shift(c, (j - 1) as nat);
        lemma_crc_bits(c, (j - 1) as u16);
    }
}

/// Rounds keep a clear register clear.
proof fn lemma_crc_rounds_zero(j: nat)
    ensures
        spec_crc_rounds(0, j) == 0,
    decreases j,
{
    if j > 0 {
        lemma_crc_rounds_zero((j - 1) as nat);
        lemma_crc_bits(0, 0);
    }
}

/// Taking in the low and then the high byte of the register clears it.
proof fn lemma_crc_own_bytes(c: u16)
    ensures
        spec_crc_byte(spec_crc_byte(c, (c & 0xff) as u8), (c >> 8) as u8) == 0,
{
    lemma_crc_bits(c, 0);
    lemma_crc_rounds_shift(c, 8);
    lemma_crc_rounds_zero(8);
    assert(spec_crc_byte(c, (c & 0xff) as u8) == c >> 8u16);
}

/// Appending the checksum of `data`, low byte first, leaves a checksum of 0, which is how
/// a receiver tests a frame.
pub proof fn lemma_crc_appended(data: Seq<u8>)
    ensures
        spec_crc16(data + seq![(spec_crc16(data) & 0xff) as u8, (spec_crc16(data) >> 8) as u8]) == 0,
{
    let c = spec_crc16(data);
    let d1 = data.push((c & 0xff) as u8);
    let d2 = d1.push((c >> 8) as u8);
    assert(data + seq![(c & 0xff) as u8, (c >> 8) as u8] =~= d2);
    assert(d2.drop_last() =~= d1);
    assert(d1.drop_last() =~= data);
    assert(spec_crc16(d1) == spec_crc_byte(c, (c & 0xff) as u8));
    assert(spec_crc16(d2) == spec_crc_byte(spec_crc16(d1), (c >> 8) as u8));
    lemma_crc_own_bytes(c);
}

/// The CRC-16 checksum of `data` (reflected polynomial 0xA001, initial value 0xFFFF).
pub fn crc16(data: &[u8]) -> (r: u16)
    ensures
        r == spec_crc16(data@),
{
    let mut crc: u16 = 0xffff;
    let n = data.len();
    let mut i: usize = 0;
    while i < n
        invariant
            n == data@.len(),
            i <= n,
            crc == spec_crc16(data@.take(i as int)),
        decreases n - i,
    {
        proof {
            assert(data@.take(i as int + 1).drop_last() =~= data@.take(i as int));
        }
        let start = crc ^ (data[i] as u16);
        crc = start;
        let mut k: usize = 0;
        while k < 8
            invariant
                k <= 8,
                crc == spec_crc_rounds(start, k as nat),
            decreases 8 - k,
        {
            crc = if crc & 1 == 1 { (crc >> 1) ^ 0xa001 } else { crc >> 1 };
            k += 1;
        }
        i += 1;
    }
    proof {
        assert(data@.take(n as int) =~= data@);
    }
    crc
}

// ---- app->cube commands -------------------------------------------------------------

/// The length of a framed command: the bytes, the `0xfe` prefix and length, and the
/// checksum.
pub open spec fn spec_cmd_len(n: int) -> int {
    n + 4
}

/// The length of a framed command padded with zeros to a multiple of 16.
pub open spec fn spec_padded_len(n: int) -> int {
    let c = spec_cmd_len(n);
    if c % 16 == 0 { c } else { c + (16 - c % 16) }
}

/// A framed command: `0xfe`, the length, the bytes, their checksum (little-endian) and
/// zero padding to a multiple of 16 bytes.
pub open spec fn spec_frame(bytes: Seq<u8>) -> Seq<u8> {
    let head = seq![0xfeu8, spec_cmd_len(bytes.len() as int) as u8] + bytes;
    let crc = spec_crc16(head);
    let body = head + seq![(crc & 0xff) as u8, (crc >> 8u16) as u8];
    body + Seq::new((spec_padded_len(bytes.len() as int) - spec_cmd_len(bytes.len() as int)) as nat, |i: int| 0u8)
}

/// Frame the bytes of an app->cube command: prefix `0xfe` and the length, append the
/// checksum, and pad with zeros to a multiple of 16 bytes.
pub fn frame_command(bytes: &[u8]) -> (r: Vec<u8>)
    requires
        bytes@.len() + 4 <= 255,
    ensures
        r@ == spec_frame(bytes@),
        r@.len() == spec_padded_len(bytes@.len() as int),
        r@.len() % 16 == 0,
{
    let cmdlen = bytes.len() + 2 + 2;
    let npad = if cmdlen % 16 == 0 { 0 } else { 16 - (cmdlen % 16) };
    let total_len = npad + cmdlen;
    let mut v: Vec<u8> = Vec::new();
    v.push(0xfe);
    v.push(cmdlen as u8);
    let n = bytes.len();
    let mut i: usize = 0;
    while i < n
        invariant
            n == bytes@.len(),
            i <= n,
            v@ == seq![0xfeu8, cmdlen as u8] + bytes@.take(i as int),
        decreases n - i,
    {
        v.push(bytes[i]);
        proof {
            assert(bytes@.take(i as int + 1) =~= bytes@.take(i as int).push(bytes@[i as int]));
            assert(v@ =~= seq![0xfeu8, cmdlen as u8] + bytes@.take(i as int + 1));
        }
        i += 1;
    }
    proof {
        assert(bytes@.take(n as int) =~= bytes@);
    }
    let ghost head = v@;
    let crc = crc16(v.as_slice());
    v.push((crc & 0xff) as u8);
    v.push((crc >> 8) as u8);
    let ghost body = v@;
    while v.len() < total_len
        invariant
            total_len == spec_padded_len(n as int),
            body.len() == cmdlen,
            cmdlen <= v@.len() <= total_len,
            v@.subrange(0, cmdlen as int) == body,
            forall|k: int| cmdlen <= k < v@.len() ==> #[trigger] v@[k] == 0u8,
        decreases total_len - v.len(),
    {
        v.push(0);
    }
    proof {
        let s = spec_frame(bytes@);
        assert(head =~= seq![0xfeu8, spec_cmd_len(bytes@.len() as int) as u8] + bytes@);
        assert(v@ =~= s) by {
            assert(v@.len() == s.len());
            assert forall|k: int| 0 <= k < v@.len() implies v@[k] == s[k] by {
                if k < cmdlen {
                    assert(v@[k] == v@.subrange(0, cmdlen as int)[k]);
                }
            }
        }
    }
    v
}

/// Bytes for an app->cube hello: eleven zero bytes, then the app's address in reverse.
pub open spec fn spec_app_hello(mac: Seq<u8>) -> Seq<u8> {
    Seq::new(11, |i: int| 0u8) + mac.reverse()
}

/// The bytes of the app's hello, given the six bytes of its address, most significant
/// first.
pub fn make_app_hello(mac: [u8; 6]) -> (r: Vec<u8>)
    ensures
        r@ == spec_app_hello(mac@),
{
    let mut v: Vec<u8> = Vec::new();
    let mut i: usize = 0;
    while i < 11
        invariant
            i <= 11,
            v@ == Seq::new(i as nat, |k: int| 0u8),
        decreases 11 - i,
    {
        v.push(0);
        proof {
            assert(v@ =~= Seq::new(i as nat + 1, |k: int| 0u8));
        }
        i += 1;
    }
    let mut j: usize = 0;
    while j < 6
        invariant
            j <= 6,
            v@ == Seq::new(11, |k: int| 0u8) + mac@.reverse().take(j as int),
        decreases 6 - j,
    {
        v.push(mac[5 - j]);
        proof {
            assert(mac@.reverse().take(j as int + 1) =~= mac@.reverse().take(j as int).push(mac@[5 - j as int]));
            assert(v@ =~= Seq::new(11, |k: int| 0u8) + mac@.reverse().take(j as int + 1));
        }
        j += 1;
    }
    proof {
        assert(mac@.reverse().take(6) =~= mac@.reverse());
    }
    v
}

// ---- AES ------------------------------------------------------------------------------

/// The AES-128 encryption of a 16-byte block under a 16-byte key.
pub uninterp spec fn aes128_encrypt(key: Seq<u8>, block: Seq<u8>) -> Seq<u8>;

/// The AES-128 decryption of a 16-byte block under a 16-byte key.
pub uninterp spec fn aes128_decrypt(key: Seq<u8>, block: Seq<u8>) -> Seq<u8>;

/// Encrypts one block with `aes::Aes128` (`KeyInit::new` on the key, then
/// `BlockEncrypt::encrypt_block`). Claims: the result is the AES-128 encryption of the block
/// under the key, which depends on these two alone, and decrypting it under the same key gives
/// the block back, as the crate's documentation shows.
#[verifier::external_body]
fn aes_encrypt_block(key: &[u8; 16], block: &[u8; 16]) -> (r: [u8; 16])
    ensures
        r@ == aes128_encrypt(key@, block@),
        aes128_decrypt(key@, r@) == block@,
{
    let cipher = Aes128::new(&aes::cipher::generic_array::GenericArray::from(*key));
    let mut b = aes::Block::from(*block);
    cipher.encrypt_block(&mut b);
    b.into()
}

/// Decrypts one block with `aes::Aes128` (`KeyInit::new` on the key, then
/// `BlockDecrypt::decrypt_block`). Claims: the result is the AES-128 decryption of the block
/// under the key, which depends on these two alone, and encrypting it under the same key gives
/// the block back, as the crate's documentation shows.
#[verifier::external_body]
fn aes_decrypt_block(key: &[u8; 16], block: &[u8; 16]) -> (r: [u8; 16])
    ensures
        r@ == aes128_decrypt(key@, block@),
        aes128_encrypt(key@, r@) == block@,
{
    let cipher = Aes128::new(&aes::cipher::generic_array::GenericArray::from(*key));
    let mut b = aes::Block::from(*block);
    cipher.decrypt_block(&mut b);
    b.into()
}

/// Block `k` (16 bytes) of `data`.
pub open spec fn spec_block(data: Seq<u8>, k: int) -> Seq<u8> {
    data.subrange(16 * k, 16 * k + 16)
}

/// `data` with each 16-byte block encrypted under `key`.
pub open spec fn spec_encrypt_blocks(key: Seq<u8>, data: Seq<u8>) -> Seq<u8> {
    Seq::new(data.len(), |i: int| aes128_encrypt(key, spec_block(data, i / 16))[i % 16])
}

/// `data` with each 16-byte block decrypted under `key`.
pub open spec fn spec_decrypt_blocks(key: Seq<u8>, data: Seq<u8>) -> Seq<u8> {
    Seq::new(data.len(), |i: int| aes128_decrypt(key, spec_block(data, i / 16))[i % 16])
}

/// Whether `out` is `data` with each block run through the cipher in the given direction,
/// and the other direction takes `out` back to `data`.
pub open spec fn blocks_done(key: Seq<u8>, data: Seq<u8>, out: Seq<u8>, encrypt: bool) -> bool {
    if encrypt {
        out == spec_encrypt_blocks(key, data) && spec_decrypt_blocks(key, out) == data
    } else {
        out == spec_decrypt_blocks(key, data) && spec_encrypt_blocks(key, out) == data
    }
}

/// Run each 16-byte block of `data` through the cipher, in one direction or the other.
fn crypt_blocks(key: &[u8; 16], data: &[u8], encrypt: bool) -> (r: Vec<u8>)
    requires
        data@.len() % 16 == 0,
    ensures
        blocks_done(key@, data@, r@, encrypt),
{
    let n = data.len();
    let nblocks = n / 16;
    let mut out: Vec<u8> = Vec::new();
    let mut k: usize = 0;
    while k < nblocks
        invariant
            n == data@.len(),
            n % 16 == 0,
            nblocks == n / 16,
            k <= nblocks,
            out@.len() == 16 * k,
            forall|i: int| 0 <= i < 16 * k ==> #[trigger] out@[i] == (if encrypt {
                aes128_encrypt(key@, spec_block(data@, i / 16))[i % 16]
            } else {
                aes128_decrypt(key@, spec_block(data@, i / 16))[i % 16]
            }),
            forall|b: int| 0 <= b < k ==> #[trigger] spec_block(data@, b) == (if encrypt {
                aes128_decrypt(key@, spec_block(out@, b))
            } else {
                aes128_encrypt(key@, spec_block(out@, b))
            }),
        decreases nblocks - k,
    {
        let mut block = [0u8; 16];
        let mut j: usize = 0;
        while j < 16
            invariant
                n == data@.len(),
                k < nblocks,
                nblocks == n / 16,
                j <= 16,
                forall|t: int| 0 <= t < j ==> #[trigger] block[t] == data@[16 * k + t],
            decreases 16 - j,
        {
            block[j] = data[16 * k + j];
            j += 1;
        }
        assert(block@ =~= spec_block(data@, k as int));
        let res = if encrypt { aes_encrypt_block(key, &block) } else { aes_decrypt_block(key, &block) };
        let ghost before = out@;
        let mut t: usize = 0;
        while t < 16
            invariant
                t <= 16,
                out@.len() == 16 * k + t,
                out@.subrange(0, 16 * k as int) == before,
                forall|u: int| 0 <= u < t ==> #[trigger] out@[16 * k + u] == res[u],
            decreases 16 - t,
        {
            out.push(res[t]);
            proof {
                assert(out@.subrange(0, 16 * k as int) =~= before);
            }
            t += 1;
        }
        proof {
            assert forall|u: int| 0 <= u < 16 implies #[trigger] spec_block(out@, k as int)[u] == res@[u] by {
                assert(out@[16 * k + u] == res[u]);
            }
            assert(spec_block(out@, k as int) =~= res@);
            assert forall|b: int| 0 <= b < k implies #[trigger] spec_block(out@, b) == spec_block(before, b) by {
                assert(spec_block(out@, b) =~= spec_block(before, b));
            }
            assert forall|i: int| 0 <= i < 16 * (k + 1) implies #[trigger] out@[i] == (if encrypt {
                aes128_encrypt(key@, spec_block(data@, i / 16))[i % 16]
            } else {
                aes128_decrypt(key@, spec_block(data@, i / 16))[i % 16]
            }) by {
                if i >= 16 * k {
                    assert(i / 16 == k);
                    assert(out@[16 * k + (i - 16 * k)] == res[i - 16 * k]);
                } else {
                    assert(out@[i] == before[i]);
                }
            }
        }
        k += 1;
    }
    proof {
        assert(n == 16 * nblocks);
        if encrypt {
            assert(out@ =~= spec_encrypt_blocks(key@, data@));
            assert(spec_decrypt_blocks(key@, out@) =~= data@) by {
                assert forall|i: int| 0 <= i < n implies #[trigger] spec_decrypt_blocks(key@, out@)[i] == data@[i] by {
                    let b = i / 16;
                    assert(spec_block(data@, b) == aes128_decrypt(key@, spec_block(out@, b)));
                    assert(spec_block(data@, b)[i % 16] == data@[i]);
                }
            }
        } else {
            assert(out@ =~= spec_decrypt_blocks(key@, data@));
            assert(spec_encrypt_blocks(key@, out@) =~= data@) by {
                assert forall|i: int| 0 <= i < n implies #[trigger] spec_encrypt_blocks(key@, out@)[i] == data@[i] by {
                    let b = i / 16;
                    assert(spec_block(data@, b) == aes128_encrypt(key@, spec_block(out@, b)));
                    assert(spec_block(data@, b)[i % 16] == data@[i]);
                }
            }
        }
    }
    out
}

/// Encrypt a message of whole 16-byte blocks, block by block.
pub fn encrypt_message(key: &[u8; 16], data: &[u8]) -> (r: Vec<u8>)
    requires
        data@.len() % 16 == 0,
    ensures
        r@ == spec_encrypt_blocks(key@, data@),
        spec_decrypt_blocks(key@, r@) == data@,
{
    crypt_blocks(key, data, true)
}

/// Decrypt a message of whole 16-byte blocks, block by block.
pub fn decrypt_message(key: &[u8; 16], data: &[u8]) -> (r: Vec<u8>)
    requires
        data@.len() % 16 == 0,
    ensures
        r@ == spec_decrypt_blocks(key@, data@),
        spec_encrypt_blocks(key@, r@) == data@,
{
    crypt_blocks(key, data, false)
}

/// The packet that carries an app->cube command: the framed command, encrypted.
pub fn command_packet(key: &[u8; 16], bytes: &[u8]) -> (r: Vec<u8>)
    requires
        bytes@.len() + 4 <= 255,
    ensures
        r@ == spec_encrypt_blocks(key@, spec_frame(bytes@)),
        spec_decrypt_blocks(key@, r@) == spec_frame(bytes@),
{
    let framed = frame_command(bytes);
    encrypt_message(key, framed.as_slice())
}

// ---- cube->app messages -------------------------------------------------------------

/// Why a cube->app message could not be parsed.
#[derive(Clone, Copy, Debug, PartialEq, Eq, Structural)]
pub enum ParseError {
    /// Missing magic `0xfe` byte at start of message.
    BadMagic,
    /// Expected message to be longer (tried to index outside the message).
    TooShort,
    /// Invalid checksum.
    FailedChecksum,
    /// Invalid opcode.
    BadOpcode { bad_opcode: u8 },
    /// Invalid turn: not a valid move.
    BadTurn { turn: u8 },
}

/// The kind of a cube->app message.
#[derive(Clone, Copy, Debug, PartialEq, Eq, Structural)]
pub enum Opcode {
    CubeHello,
    StateChange,
    SyncConfirmation,
}

impl Opcode {
    /// The kind of message that an opcode byte names.
    pub fn from_u8(x: u8) -> (r: Result<Opcode, ParseError>)
        ensures
            x == 2 ==> r == Ok::<Opcode, ParseError>(Opcode::CubeHello),
            x == 3 ==> r == Ok::<Opcode, ParseError>(Opcode::StateChange),
            x == 4 ==> r == Ok::<Opcode, ParseError>(Opcode::SyncConfirmation),
            !(2 <= x <= 4) ==> r == Err::<Opcode, ParseError>(ParseError::BadOpcode { bad_opcode: x }),
    {
        match x {
            2 => Ok(Opcode::CubeHello),
            3 => Ok(Opcode::StateChange),
            4 => Ok(Opcode::SyncConfirmation),
            _ => Err(ParseError::BadOpcode { bad_opcode: x }),
        }
    }
}

/// The move that a turn byte names, if any.
pub open spec fn spec_move_from_byte(x: u8) -> Option<Move> {
    if x == 1 { Some(Move::L3) }
    else if x == 2 { Some(Move::L) }
    else if x == 3 { Some(Move::R3) }
    else if x == 4 { Some(Move::R) }
    else if x == 5 { Some(Move::D3) }
    else if x == 6 { Some(Move::D) }
    else if x == 7 { Some(Move::U3) }
    else if x == 8 { Some(Move::U) }
    else if x == 9 { Some(Move::F3) }
    else if x == 10 { Some(Move::F) }
    else if x == 11 { Some(Move::B3) }
    else if x == 12 { Some(Move::B) }
    else { None }
}

/// The turn bytes come in pairs: for `k` from 1 to 6, byte `2k` names a clockwise quarter
/// turn of face L, R, D, U, F, B in that order, and byte `2k - 1` the turn of the same face
/// the other way; no other byte names a turn.
pub proof fn lemma_turn_bytes(x: u8)
    ensures
        (spec_move_from_byte(x) is Some) <==> 1 <= x <= 12,
        1 <= x <= 12 && x % 2 == 0 ==> (match spec_move_from_byte(x) {
            Some(m) => (m as u8) % 3 == 0
                && m.spec_face() == seq![Face::L, Face::R, Face::D, Face::U, Face::F, Face::B][(x / 2 - 1) as int],
            None => false,
        }),
        1 <= x <= 11 && x % 2 == 1 ==> (match (spec_move_from_byte(x), spec_move_from_byte((x + 1) as u8)) {
            (Some(m), Some(n)) => m.spec_face() == n.spec_face() && (m as u8) == (n as u8) + 2,
            _ => false,
        }),
{
}

/// The move that a turn byte names: byte `2k` a clockwise quarter turn of face L, R, D, U,
/// F, B for `k` from 1 to 6, byte `2k - 1` the turn of that face the other way.
pub fn move_from_byte(x: u8) -> (r: Result<Move, ParseError>)
    ensures
        spec_move_from_byte(x) matches Some(m) ==> r == Ok::<Move, ParseError>(m),
        spec_move_from_byte(x) is None ==> r == Err::<Move, ParseError>(ParseError::BadTurn { turn: x }),
        (r is Ok) <==> 1 <= x <= 12,
        r matches Ok(m) ==> (x % 2 == 0 ==> (m as u8) % 3 == 0
            && m.spec_face() == seq![Face::L, Face::R, Face::D, Face::U, Face::F, Face::B][(x / 2 - 1) as int]),
        r matches Ok(m) ==> (x % 2 == 1 ==> (m as u8) % 3 == 2
            && m.spec_face() == seq![Face::L, Face::R, Face::D, Face::U, Face::F, Face::B][((x + 1) / 2 - 1) as int]),
{
    proof {
        lemma_turn_bytes(x);
    }
    match x {
        1 => Ok(Move::L3),
        2 => Ok(Move::L),
        3 => Ok(Move::R3),
        4 => Ok(Move::R),
        5 => Ok(Move::D3),
        6 => Ok(Move::D),
        7 => Ok(Move::U3),
        8 => Ok(Move::U),
        9 => Ok(Move::F3),
        10 => Ok(Move::F),
        11 => Ok(Move::B3),
        12 => Ok(Move::B),
        _ => Err(ParseError::BadTurn { turn: x }),
    }
}

/// The stickers of the cube, one per nibble of the raw state.
#[derive(Clone, Copy, Debug, PartialEq, Eq)]
pub struct CubeState {
    pub facelets: [u8; 54],
}

/// Whether `facelets` holds the nibbles of `raw`, low nibble first.
pub open spec fn facelets_of(facelets: Seq<u8>, raw: Seq<u8>) -> bool {
    &&& facelets.len() == 2 * raw.len()
    &&& forall|i: int| 0 <= i < raw.len() ==> #[trigger] facelets[2 * i] == raw[i] & 15
        && facelets[2 * i + 1] == (raw[i] & 240) >> 4u8
}

impl CubeState {
    /// The stickers of a raw 27-byte state: each byte gives two, low nibble first.
    #[verifier::spinoff_prover]
    pub fn from_raw(raw: &[u8]) -> (r: CubeState)
        requires
            raw@.len() == 27,
        ensures
            facelets_of(r.facelets@, raw@),
    {
        let mut facelets = [0u8; 54];
        let mut i: usize = 0;
        while i < 27
            invariant
                raw@.len() == 27,
                i <= 27,
                forall|k: int| 0 <= k < i ==> #[trigger] facelets[2 * k] == raw@[k] & 15
                    && facelets[2 * k + 1] == (raw@[k] & 240) >> 4u8,
            decreases 27 - i,
        {
            let ghost prev = facelets;
            let lo: u8 = raw[i] & 0xf;
            let hi: u8 = (raw[i] & 0xf0) >> 4;
            facelets[2 * i] = lo;
            facelets[2 * i + 1] = hi;
            proof {
                assert forall|k: int| 0 <= k < i + 1 implies #[trigger] facelets[2 * k] == raw@[k] & 15
                    && facelets[2 * k + 1] == (raw@[k] & 240) >> 4u8 by {
                    if k < i {
                        assert(facelets[2 * k] == prev[2 * k]);
                        assert(facelets[2 * k + 1] == prev[2 * k + 1]);
                    } else {
                        assert(facelets[2 * k] == lo);
                        assert(facelets[2 * k + 1] == hi);
                    }
                }
            }
            i += 1;
        }
        CubeState { facelets }
    }
}

/// A cube's hello: its state.
#[derive(Clone, Copy, Debug)]
pub struct CubeHello {
    pub state: CubeState,
}

/// A turn of the cube, with the turns before it that the cube remembers. Times are in the
/// cube's ticks.
#[derive(Clone, Debug)]
pub struct StateChange {
    pub state: CubeState,
    pub mov: Move,
    pub history: Vec<(Move, u32)>,
    pub battery: u8,
}

/// The body of a cube->app message: the decrypted contents minus the `0xfe` prefix,
/// length, opcode, padding, and checksum.
#[derive(Clone, Debug)]
pub enum C2aBody {
    CubeHello(CubeHello),
    StateChange(StateChange),
}

/// A cube->app message. Its timestamp is in the cube's ticks.
#[derive(Debug)]
pub struct C2aMessage<'a> {
    /// Bytes 2 to 6 of the message, which an ACK repeats.
    pub ack_head: &'a [u8],
    pub raw_timestamp: u32,
    pub body: C2aBody,
}

impl<'a> C2aMessage<'a> {
    fn needs_ack(&self) -> (r: bool)
        ensures
            r,
    {
        true
    }

    /// Returns `Some(ack)` if this message needs to be ACKed; returns `None` if it doesn't
    /// need an ACK. Every message needs one.
    pub fn make_ack(&self) -> (r: Option<&'a [u8]>)
        ensures
            r == Some(self.ack_head),
    {
        if self.needs_ack() {
            Some(self.ack_head)
        } else {
            None
        }
    }

    /// The timestamp, in the cube's ticks.
    pub fn raw_timestamp(&self) -> (r: u32)
        ensures
            r == self.raw_timestamp,
    {
        self.raw_timestamp
    }

    /// The body of the message.
    pub fn body(&self) -> (r: &C2aBody)
        ensures
            *r == self.body,
    {
        &self.body
    }
}

/// The big-endian number in bytes `i` to `i + 3` of `s`.
pub open spec fn spec_u32_be(s: Seq<u8>, i: int) -> u32 {
    (s[i] * 0x1000000 + s[i + 1] * 0x10000 + s[i + 2] * 0x100 + s[i + 3]) as u32
}

/// The position of history entry `k` of a state change.
pub open spec fn spec_history_pos(k: int) -> int {
    36 + 5 * k
}

/// The first `k` entries of the history of a state change, those whose turn byte names a
/// move.
pub open spec fn spec_history(s: Seq<u8>, k: int) -> Seq<(Move, u32)>
    decreases k,
{
    if k <= 0 {
        Seq::empty()
    } else {
        let i = spec_history_pos(k - 1);
        let prev = spec_history(s, k - 1);
        match spec_move_from_byte(s[i + 4]) {
            Some(m) => prev.push((m, spec_u32_be(s, i))),
            None => prev,
        }
    }
}

/// Whether the checksum of a message of length `n` (the last two bytes) matches.
pub open spec fn spec_checksum_ok(s: Seq<u8>, n: int) -> bool {
    spec_crc16(s.take(n - 2)) as int == s[n - 2] + 256 * s[n - 1]
}

/// The length that a message with the magic byte declares.
pub open spec fn spec_declared_len(s: Seq<u8>) -> int {
    s[1] as int
}

/// The error that parsing `s` ends with, if any.
pub open spec fn spec_parse_error(s: Seq<u8>) -> Option<ParseError> {
    let n = spec_declared_len(s);
    if s.len() == 0 {
        Some(ParseError::TooShort)
    } else if s[0] != 0xfe {
        Some(ParseError::BadMagic)
    } else if s.len() < 2 || s.len() < n {
        Some(ParseError::TooShort)
    } else if !spec_checksum_ok(s, n) {
        Some(ParseError::FailedChecksum)
    } else if n <= 2 {
        Some(ParseError::TooShort)
    } else if !(2 <= s[2] <= 4) {
        Some(ParseError::BadOpcode { bad_opcode: s[2] })
    } else if n < 7 {
        Some(ParseError::TooShort)
    } else if s[2] == 2 {
        if n < 34 { Some(ParseError::TooShort) } else { None }
    } else if n < 91 {
        Some(ParseError::TooShort)
    } else if spec_move_from_byte(s[34]) is None {
        Some(ParseError::BadTurn { turn: s[34] })
    } else {
        None
    }
}

/// The messages that parsing handles without failing: a message with the magic byte
/// declares a length of at least 2, and no well-formed message is a sync confirmation.
pub open spec fn spec_parse_handles(s: Seq<u8>) -> bool {
    let n = spec_declared_len(s);
    &&& (s.len() >= 2 && s[0] == 0xfe && s.len() >= n) ==> n >= 2
    &&& !(s.len() >= 2 && s[0] == 0xfe && s.len() >= n && n >= 7 && spec_checksum_ok(s, n) && s[2] == 4)
}

/// Whether `m` is what parsing `s` gives.
pub open spec fn spec_message_of(m: C2aMessage, s: Seq<u8>) -> bool {
    &&& m.ack_head@ == s.subrange(2, 7)
    &&& m.raw_timestamp == spec_u32_be(s, 3)
    &&& match m.body {
        C2aBody::CubeHello(h) => s[2] == 2 && facelets_of(h.state.facelets@, s.subrange(7, 34)),
        C2aBody::StateChange(c) => {
            &&& s[2] == 3
            &&& facelets_of(c.state.facelets@, s.subrange(7, 34))
            &&& spec_move_from_byte(s[34]) == Some(c.mov)
            &&& c.battery == s[35]
            &&& c.history@ == spec_history(s, 11)
        },
    }
}

/// The history of a state change reads only the first 91 bytes.
proof fn lemma_history_prefix(b1: Seq<u8>, b2: Seq<u8>, k: int)
    requires
        0 <= k <= 11,
        b1.len() >= 91,
        b2.len() >= 91,
        forall|i: int| 0 <= i < 91 ==> #[trigger] b1[i] == b2[i],
    ensures
        spec_history(b1, k) == spec_history(b2, k),
    decreases k,
{
    if k > 0 {
        lemma_history_prefix(b1, b2, k - 1);
        let i = spec_history_pos(k - 1);
        assert(b1[i + 4] == b2[i + 4]);
        assert(b1[i] == b2[i] && b1[i + 1] == b2[i + 1] && b1[i + 2] == b2[i + 2] && b1[i + 3] == b2[i + 3]);
    }
}

/// Parsing reads nothing past the length a message declares: two messages that agree on
/// their declared bytes fail alike or give the same message.
pub proof fn lemma_parse_ignores_padding(b1: Seq<u8>, b2: Seq<u8>)
    requires
        b1.len() >= 2,
        2 <= spec_declared_len(b1) <= b1.len(),
        spec_declared_len(b1) <= b2.len(),
        b1.take(spec_declared_len(b1)) == b2.take(spec_declared_len(b1)),
    ensures
        spec_declared_len(b2) == spec_declared_len(b1),
        spec_parse_error(b1) == spec_parse_error(b2),
        spec_parse_handles(b1) == spec_parse_handles(b2),
        spec_parse_error(b1) is None ==> forall|m: C2aMessage| #[trigger] spec_message_of(m, b1) == spec_message_of(m, b2),
{
    let n = spec_declared_len(b1);
    assert forall|i: int| 0 <= i < n implies #[trigger] b1[i] == b2[i] by {
        assert(b1.take(n)[i] == b2.take(n)[i]);
    }
    assert(b1[1] == b2[1]);
    assert(b1.take(n - 2) =~= b2.take(n - 2)) by {
        assert forall|i: int| 0 <= i < n - 2 implies #[trigger] b1.take(n - 2)[i] == b2.take(n - 2)[i] by {
            assert(b1[i] == b2[i]);
        }
    }
    assert(spec_checksum_ok(b1, n) == spec_checksum_ok(b2, n)) by {
        assert(b1[n - 2] == b2[n - 2] && b1[n - 1] == b2[n - 1]);
    }
    if n > 2 {
        assert(b1[2] == b2[2]);
    }
    if n >= 91 {
        assert(b1[34] == b2[34]);
    }
    if spec_parse_error(b1) is None {
        assert(n >= 34);
        assert(b1.subrange(2, 7) =~= b2.subrange(2, 7)) by {
            assert forall|i: int| 0 <= i < 5 implies #[trigger] b1.subrange(2, 7)[i] == b2.subrange(2, 7)[i] by {
                assert(b1[i + 2] == b2[i + 2]);
            }
        }
        assert(b1.subrange(7, 34) =~= b2.subrange(7, 34)) by {
            assert forall|i: int| 0 <= i < 27 implies #[trigger] b1.subrange(7, 34)[i] == b2.subrange(7, 34)[i] by {
                assert(b1[i + 7] == b2[i + 7]);
            }
        }
        assert(spec_u32_be(b1, 3) == spec_u32_be(b2, 3)) by {
            assert(b1[3] == b2[3] && b1[4] == b2[4] && b1[5] == b2[5] && b1[6] == b2[6]);
        }
        if b1[2] == 3 {
            assert(n >= 91);
            assert forall|i: int| 0 <= i < 91 implies #[trigger] b1[i] == b2[i] by {}
            lemma_history_prefix(b1, b2, 11);
            assert(b1[35] == b2[35]);
        }
    }
}

/// A reader of the bytes of a message.
struct Parser<'a> {
    bytes: &'a [u8],
}

impl<'a> Parser<'a> {
    fn get_bytes(&self, idx: usize, n: usize) -> (r: Result<&'a [u8], ParseError>)
        ensures
            idx + n <= self.bytes@.len() ==> (r matches Ok(b) && b@ == self.bytes@.subrange(idx as int, idx + n)),
            idx + n > self.bytes@.len() ==> r == Err::<&'a [u8], ParseError>(ParseError::TooShort),
    {
        if n <= self.bytes.len() && idx <= self.bytes.len() - n {
            Ok(vstd::slice::slice_subrange(self.bytes, idx, idx + n))
        } else {
            Err(ParseError::TooShort)
        }
    }

    fn get_u8(&self, idx: usize) -> (r: Result<u8, ParseError>)
        ensures
            idx < self.bytes@.len() ==> r == Ok::<u8, ParseError>(self.bytes@[idx as int]),
            idx >= self.bytes@.len() ==> r == Err::<u8, ParseError>(ParseError::TooShort),
    {
        if idx < self.bytes.len() {
            Ok(self.bytes[idx])
        } else {
            Err(ParseError::TooShort)
        }
    }

    fn get_u16(&self, idx: usize) -> (r: Result<u16, ParseError>)
        ensures
            idx + 2 <= self.bytes@.len() ==> (r matches Ok(x)
                && x as int == self.bytes@[idx as int] + 256 * self.bytes@[idx + 1]),
            idx + 2 > self.bytes@.len() ==> r == Err::<u16, ParseError>(ParseError::TooShort),
    {
        let b = self.get_bytes(idx, 2)?;
        Ok((b[0] as u16) + (b[1] as u16) * 256)
    }

    fn get_u32_be(&self, idx: usize) -> (r: Result<u32, ParseError>)
        ensures
            idx + 4 <= self.bytes@.len() ==> r == Ok::<u32, ParseError>(spec_u32_be(self.bytes@, idx as int)),
            idx + 4 > self.bytes@.len() ==> r == Err::<u32, ParseError>(ParseError::TooShort),
    {
        let b = self.get_bytes(idx, 4)?;
        Ok((b[0] as u32) * 0x1000000 + (b[1] as u32) * 0x10000 + (b[2] as u32) * 0x100 + (b[3] as u32))
    }
}

/// Given the bytes of a **decrypted** message, parse them into a cube->app message.
pub fn parse_c2a_message(bytes: &[u8]) -> (r: Result<C2aMessage<'_>, ParseError>)
    requires
        spec_parse_handles(bytes@),
    ensures
        spec_parse_error(bytes@) matches Some(e) ==> r == Err::<C2aMessage, ParseError>(e),
        spec_parse_error(bytes@) is None ==> (r matches Ok(m) && spec_message_of(m, bytes@)),
{
    let mut p = Parser { bytes };

    if p.get_u8(0)? != 0xfe {
        return Err(ParseError::BadMagic);
    }

    let length = p.get_u8(1)?;
    if p.bytes.len() < length as usize {
        return Err(ParseError::TooShort);
    }
    let n = length as usize;
    p.bytes = vstd::slice::slice_subrange(p.bytes, 0, n);
    let checksum = p.get_u16(n - 2)?;
    let head = p.get_bytes(0, n - 2)?;
    proof {
        assert(head@ =~= bytes@.take(n - 2));
    }
    if crc16(head) != checksum {
        return Err(ParseError::FailedChecksum);
    }

    let opcode = Opcode::from_u8(p.get_u8(2)?)?;
    let raw_timestamp = p.get_u32_be(3)?;
    proof {
        assert(spec_u32_be(p.bytes@, 3) == spec_u32_be(bytes@, 3));
    }
    let body = match opcode {
        Opcode::CubeHello => {
            let rawstate = p.get_bytes(7, 27)?;
            C2aBody::CubeHello(CubeHello { state: CubeState::from_raw(rawstate) })
        },
        Opcode::StateChange => {
            let rawstate = p.get_bytes(7, 27)?;
            let turnbyte = p.get_u8(34)?;
            let battery = p.get_u8(35)?;
            let mut history: Vec<(Move, u32)> = Vec::new();
            let mut i: usize = 36;
            let mut k: usize = 0;
            while i < 91
                invariant
                    p.bytes@ == bytes@.take(n as int),
                    n == p.bytes@.len(),
                    n >= 36,
                    n == spec_declared_len(bytes@),
                    bytes@.len() >= n,
                    bytes@[0] == 0xfe,
                    bytes@[2] == 3,
                    spec_checksum_ok(bytes@, n as int),
                    i == spec_history_pos(k as int),
                    k <= 11,
                    history@ == spec_history(bytes@, k as int),
                    forall|j: int| 0 <= j < k ==> spec_history_pos(j) + 5 <= n,
                decreases 91 - i,
            {
                let ts = p.get_u32_be(i)?;
                let b = p.get_u8(i + 4)?;
                proof {
                    assert(spec_u32_be(p.bytes@, i as int) == spec_u32_be(bytes@, i as int));
                }
                if let Ok(mv) = move_from_byte(b) {
                    history.push((mv, ts));
                }
                i += 5;
                k += 1;
            }
            proof {
                assert(k == 11);
            }
            let mov = move_from_byte(turnbyte)?;
            C2aBody::StateChange(StateChange {
                state: CubeState::from_raw(rawstate),
                mov,
                history,
                battery,
            })
        },
        Opcode::SyncConfirmation => {
            proof {
                assert(false);
            }
            return Err(ParseError::TooShort);
        },
    };

    let ack_head = p.get_bytes(2, 5)?;
    let r = C2aMessage { ack_head, raw_timestamp, body };
    proof {
        assert(r.ack_head@ =~= bytes@.subrange(2, 7));
        if n >= 34 {
            assert(bytes@.take(n as int).subrange(7, 34) =~= bytes@.subrange(7, 34));
        }
    }
    Ok(r)
}

/// Whether `bytes` is a message that `parse_c2a_message` can be given.
pub fn parse_handles(bytes: &[u8]) -> (r: bool)
    ensures
        r == spec_parse_handles(bytes@),
{
    if bytes.len() < 2 || bytes[0] != 0xfe || bytes.len() < bytes[1] as usize {
        return true;
    }
    let n = bytes[1] as usize;
    if n < 2 {
        return false;
    }
    if n < 7 {
        return true;
    }
    let head = vstd::slice::slice_subrange(bytes, 0, n - 2);
    proof {
        assert(head@ =~= bytes@.take(n - 2));
    }
    let ok = crc16(head) as usize == (bytes[n - 2] as usize) + 256 * (bytes[n - 1] as usize);
    !(ok && bytes[2] == 4)
}

// ---- turns of a state change ----------------------------------------------------------

/// The entries of `s` whose time is after `prev`, in their order.
pub open spec fn spec_newer(s: Seq<(Move, u32)>, prev: u32) -> Seq<(Move, u32)>
    decreases s.len(),
{
    if s.len() == 0 {
        Seq::empty()
    } else {
        let r = spec_newer(s.drop_last(), prev);
        if s.last().1 > prev { r.push(s.last()) } else { r }
    }
}

/// `e` put into the time-sorted `sorted` after every entry whose time is not later.
pub open spec fn spec_insert_by_time(sorted: Seq<(Move, u32)>, e: (Move, u32)) -> Seq<(Move, u32)>
    decreases sorted.len(),
{
    if sorted.len() == 0 {
        seq![e]
    } else if sorted.last().1 <= e.1 {
        sorted.push(e)
    } else {
        spec_insert_by_time(sorted.drop_last(), e).push(sorted.last())
    }
}

/// `s` sorted by time, entries with equal times keeping their order.
pub open spec fn spec_sort_by_time(s: Seq<(Move, u32)>) -> Seq<(Move, u32)>
    decreases s.len(),
{
    if s.len() == 0 {
        Seq::empty()
    } else {
        spec_insert_by_time(spec_sort_by_time(s.drop_last()), s.last())
    }
}

/// Whether the entries of `s` come in order of time.
pub open spec fn sorted_by_time(s: Seq<(Move, u32)>) -> bool {
    forall|i: int, j: int| 0 <= i < j < s.len() ==> #[trigger] s[i].1 <= #[trigger] s[j].1
}

/// The turns that a state change brings after time `prev`: its history, then its own turn,
/// those later than `prev`, sorted by time.
pub open spec fn spec_new_turns(history: Seq<(Move, u32)>, cur: (Move, u32), prev: u32) -> Seq<(Move, u32)> {
    spec_sort_by_time(spec_newer(history.push(cur), prev))
}

/// Inserting by time where the entries from `j` on are later than `e`, and the one before
/// is not, puts `e` at `j`.
proof fn lemma_insert_by_time_at(sorted: Seq<(Move, u32)>, e: (Move, u32), j: int)
    requires
        0 <= j <= sorted.len(),
        forall|k: int| j <= k < sorted.len() ==> #[trigger] sorted[k].1 > e.1,
        j > 0 ==> sorted[j - 1].1 <= e.1,
    ensures
        spec_insert_by_time(sorted, e) == sorted.insert(j, e),
    decreases sorted.len(),
{
    if sorted.len() == 0 {
        assert(sorted.insert(j, e) =~= seq![e]);
    } else if sorted.last().1 <= e.1 {
        assert(j == sorted.len());
        assert(sorted.insert(j, e) =~= sorted.push(e));
    } else {
        let d = sorted.drop_last();
        lemma_insert_by_time_at(d, e, j);
        assert(sorted.insert(j, e) =~= d.insert(j, e).push(sorted.last()));
    }
}

/// Inserting by time keeps every time within a bound that holds of the sequence and the
/// new entry.
proof fn lemma_insert_bounded(sorted: Seq<(Move, u32)>, e: (Move, u32), bound: u32)
    requires
        forall|k: int| 0 <= k < sorted.len() ==> #[trigger] sorted[k].1 <= bound,
        e.1 <= bound,
    ensures
        forall|k: int| 0 <= k < spec_insert_by_time(sorted, e).len() ==> #[trigger] spec_insert_by_time(sorted, e)[k].1 <= bound,
    decreases sorted.len(),
{
    let r = spec_insert_by_time(sorted, e);
    if sorted.len() == 0 {
        assert forall|k: int| 0 <= k < r.len() implies #[trigger] r[k].1 <= bound by {
            assert(r[k] == e);
        }
    } else if sorted.last().1 <= e.1 {
        assert forall|k: int| 0 <= k < r.len() implies #[trigger] r[k].1 <= bound by {
            if k < sorted.len() {
                assert(r[k] == sorted[k]);
            }
        }
    } else {
        let d = sorted.drop_last();
        lemma_insert_bounded(d, e, bound);
        let q = spec_insert_by_time(d, e);
        assert forall|k: int| 0 <= k < r.len() implies #[trigger] r[k].1 <= bound by {
            if k < q.len() {
                assert(r[k] == q[k]);
            } else {
                assert(r[k] == sorted.last());
            }
        }
    }
}

/// Inserting by time keeps a sorted sequence sorted, and adds one entry.
proof fn lemma_insert_sorted(sorted: Seq<(Move, u32)>, e: (Move, u32))
    requires
        sorted_by_time(sorted),
    ensures
        sorted_by_time(spec_insert_by_time(sorted, e)),
        spec_insert_by_time(sorted, e).len() == sorted.len() + 1,
    decreases sorted.len(),
{
    if sorted.len() > 0 && sorted.last().1 > e.1 {
        let d = sorted.drop_last();
        lemma_insert_sorted(d, e);
        lemma_insert_bounded(d, e, sorted.last().1);
    }
}

/// Sorting by time sorts.
proof fn lemma_sort_sorted(s: Seq<(Move, u32)>)
    ensures
        sorted_by_time(spec_sort_by_time(s)),
        spec_sort_by_time(s).len() == s.len(),
    decreases s.len(),
{
    if s.len() > 0 {
        lemma_sort_sorted(s.drop_last());
        lemma_insert_sorted(spec_sort_by_time(s.drop_last()), s.last());
    }
}

/// Put `e` into the time-sorted `sorted`, after every entry whose time is not later, if its
/// time is after `prev_ts`.
fn insert_if_newer(sorted: &mut Vec<(Move, u32)>, e: (Move, u32), prev_ts: u32)
    ensures
        e.1 > prev_ts ==> final(sorted)@ == spec_insert_by_time(old(sorted)@, e),
        e.1 <= prev_ts ==> final(sorted)@ == old(sorted)@,
{
    if e.1 > prev_ts {
        let mut j = sorted.len();
        while j > 0 && sorted[j - 1].1 > e.1
            invariant
                j <= sorted@.len(),
                forall|t: int| j <= t < sorted@.len() ==> #[trigger] sorted@[t].1 > e.1,
            decreases j,
        {
            j -= 1;
        }
        proof {
            lemma_insert_by_time_at(sorted@, e, j as int);
        }
        sorted.insert(j, e);
    }
}

/// Every turn that `spec_newer` keeps is later than `prev`.
proof fn lemma_newer_later(s: Seq<(Move, u32)>, prev: u32)
    ensures
        forall|k: int| 0 <= k < spec_newer(s, prev).len() ==> #[trigger] spec_newer(s, prev)[k].1 > prev,
    decreases s.len(),
{
    if s.len() > 0 {
        lemma_newer_later(s.drop_last(), prev);
        let r = spec_newer(s.drop_last(), prev);
        assert forall|k: int| 0 <= k < spec_newer(s, prev).len() implies #[trigger] spec_newer(s, prev)[k].1 > prev by {
            if k < r.len() {
                assert(r[k].1 > prev);
            }
        }
    }
}

/// Inserting a turn later than `prev` among turns later than `prev` keeps them all later.
proof fn lemma_insert_later(sorted: Seq<(Move, u32)>, e: (Move, u32), prev: u32)
    requires
        forall|k: int| 0 <= k < sorted.len() ==> #[trigger] sorted[k].1 > prev,
        e.1 > prev,
    ensures
        forall|k: int| 0 <= k < spec_insert_by_time(sorted, e).len() ==> #[trigger] spec_insert_by_time(sorted, e)[k].1 > prev,
    decreases sorted.len(),
{
    let r = spec_insert_by_time(sorted, e);
    if sorted.len() == 0 {
        assert(r =~= seq![e]);
    } else if sorted.last().1 <= e.1 {
        assert forall|k: int| 0 <= k < r.len() implies #[trigger] r[k].1 > prev by {
            if k < sorted.len() {
                assert(r[k] == sorted[k]);
            }
        }
    } else {
        let d = sorted.drop_last();
        assert forall|k: int| 0 <= k < d.len() implies #[trigger] d[k].1 > prev by {
            assert(d[k] == sorted[k]);
        }
        lemma_insert_later(d, e, prev);
        let i = spec_insert_by_time(d, e);
        assert forall|k: int| 0 <= k < r.len() implies #[trigger] r[k].1 > prev by {
            if k < i.len() {
                assert(r[k] == i[k]);
            } else {
                assert(r[k] == sorted.last());
            }
        }
    }
}

/// Sorting turns later than `prev` keeps them all later.
proof fn lemma_sort_later(s: Seq<(Move, u32)>, prev: u32)
    requires
        forall|k: int| 0 <= k < s.len() ==> #[trigger] s[k].1 > prev,
    ensures
        forall|k: int| 0 <= k < spec_sort_by_time(s).len() ==> #[trigger] spec_sort_by_time(s)[k].1 > prev,
    decreases s.len(),
{
    if s.len() > 0 {
        let d = s.drop_last();
        assert forall|k: int| 0 <= k < d.len() implies #[trigger] d[k].1 > prev by {
            assert(d[k] == s[k]);
        }
        lemma_sort_later(d, prev);
        lemma_insert_later(spec_sort_by_time(d), s.last(), prev);
    }
}

/// Turns are never handled twice: the turns kept from one state change are later than
/// the time before it, and, once the time has moved on to the latest of them, every turn
/// kept from the next state change is later than all of them.
pub proof fn lemma_turns_not_replayed(h1: Seq<(Move, u32)>, c1: (Move, u32), prev: u32, h2: Seq<(Move, u32)>, c2: (Move, u32))
    ensures
        ({
            let t1 = spec_new_turns(h1, c1, prev);
            let prev2 = if t1.len() > 0 { t1.last().1 } else { prev };
            let t2 = spec_new_turns(h2, c2, prev2);
            &&& forall|i: int| 0 <= i < t1.len() ==> #[trigger] t1[i].1 > prev
            &&& prev2 >= prev
            &&& forall|i: int, j: int| 0 <= i < t1.len() && 0 <= j < t2.len() ==> #[trigger] t2[j].1 > #[trigger] t1[i].1
        }),
{
    let t1 = spec_new_turns(h1, c1, prev);
    let prev2 = if t1.len() > 0 { t1.last().1 } else { prev };
    let t2 = spec_new_turns(h2, c2, prev2);
    lemma_newer_later(h1.push(c1), prev);
    lemma_sort_later(spec_newer(h1.push(c1), prev), prev);
    lemma_sort_sorted(spec_newer(h1.push(c1), prev));
    lemma_newer_later(h2.push(c2), prev2);
    lemma_sort_later(spec_newer(h2.push(c2), prev2), prev2);
    assert forall|i: int, j: int| 0 <= i < t1.len() && 0 <= j < t2.len() implies #[trigger] t2[j].1 > #[trigger] t1[i].1 by {
        if i < t1.len() - 1 {
            assert(t1[i].1 <= t1[t1.len() - 1].1);
        }
    }
}

/// From the turns that a state change reports (its history, then its own turn), those
/// later than `prev_ts`, sorted by time (entries with equal times keep their order); and
/// the time of the latest of them, if any.
pub fn new_turns(history: &[(Move, u32)], cur: (Move, u32), prev_ts: u32) -> (r: (Vec<(Move, u32)>, Option<u32>))
    ensures
        r.0@ == spec_new_turns(history@, cur, prev_ts),
        sorted_by_time(r.0@),
        r.0@.len() == 0 ==> r.1 is None,
        r.0@.len() > 0 ==> r.1 == Some(r.0@.last().1),
{
    let ghost all = history@.push(cur);
    let n = history.len();
    let mut sorted: Vec<(Move, u32)> = Vec::new();
    let mut k: usize = 0;
    while k < n
        invariant
            n == history@.len(),
            all == history@.push(cur),
            k <= n,
            sorted@ == spec_sort_by_time(spec_newer(all.take(k as int), prev_ts)),
        decreases n - k,
    {
        let e = history[k];
        proof {
            assert(all.take(k as int + 1).drop_last() =~= all.take(k as int));
            assert(all.take(k as int + 1).last() == e);
            let prev = spec_newer(all.take(k as int), prev_ts);
            if e.1 > prev_ts {
                assert(spec_newer(all.take(k as int + 1), prev_ts) =~= prev.push(e));
                assert(prev.push(e).drop_last() =~= prev);
            } else {
                assert(spec_newer(all.take(k as int + 1), prev_ts) =~= prev);
            }
        }
        insert_if_newer(&mut sorted, e, prev_ts);
        k += 1;
    }
    proof {
        assert(all.take(n as int + 1).drop_last() =~= all.take(n as int));
        assert(all.take(n as int + 1) =~= all);
        let prev = spec_newer(all.take(n as int), prev_ts);
        if cur.1 > prev_ts {
            assert(spec_newer(all, prev_ts) =~= prev.push(cur));
            assert(prev.push(cur).drop_last() =~= prev);
        } else {
            assert(spec_newer(all, prev_ts) =~= prev);
        }
    }
    insert_if_newer(&mut sorted, cur, prev_ts);
    proof {
        lemma_sort_sorted(spec_newer(all, prev_ts));
    }
    let len = sorted.len();
    let last = if len > 0 { Some(sorted[len - 1].1) } else { None };
    (sorted, last)
}

} // verus!
