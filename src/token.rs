//! Session tokens and their fixed-layout binary form: an 8-byte big-endian
//! `uin` followed by nine 4-byte opaque fields, 44 bytes in all.

use vstd::prelude::*;
use crate::error::{ConfigError, ConfigKind, OperationKind};

verus! {

/// Length of the binary form of a token.
pub const TOKEN_BIN_LEN: usize = 44;

/// Cached credential bundle that lets an account reconnect without an
/// interactive login.
#[derive(Clone, Copy, Debug, PartialEq, Eq)]
pub struct SessionToken {
    pub uin: i64,
    pub d2: [u8; 4],
    pub d2key: [u8; 4],
    pub tgt: [u8; 4],
    pub srm_token: [u8; 4],
    pub t133: [u8; 4],
    pub encrypted_a1: [u8; 4],
    pub out_packet_session_id: [u8; 4],
    pub tgtgt_key: [u8; 4],
    pub wt_session_ticket_key: [u8; 4],
}

/// Big-endian bytes of a 64-bit value.
pub open spec fn u64_be(x: u64) -> Seq<u8> {
    seq![
        (x >> 56u64) as u8, (x >> 48u64) as u8, (x >> 40u64) as u8, (x >> 32u64) as u8,
        (x >> 24u64) as u8, (x >> 16u64) as u8, (x >> 8u64) as u8, x as u8,
    ]
}

/// The binary form of a token.
pub open spec fn token_bytes(t: SessionToken) -> Seq<u8> {
    u64_be(t.uin as u64) + t.d2@ + t.d2key@ + t.tgt@ + t.srm_token@ + t.t133@ + t.encrypted_a1@
        + t.out_packet_session_id@ + t.tgtgt_key@ + t.wt_session_ticket_key@
}

proof fn lemma_u64_be_injective(x: u64, y: u64)
    requires
        u64_be(x) == u64_be(y),
    ensures
        x == y,
{
    assert(u64_be(x)[0] == u64_be(y)[0]);
    assert(u64_be(x)[1] == u64_be(y)[1]);
    assert(u64_be(x)[2] == u64_be(y)[2]);
    assert(u64_be(x)[3] == u64_be(y)[3]);
    assert(u64_be(x)[4] == u64_be(y)[4]);
    assert(u64_be(x)[5] == u64_be(y)[5]);
    assert(u64_be(x)[6] == u64_be(y)[6]);
    assert(u64_be(x)[7] == u64_be(y)[7]);
    assert(x == y) by (bit_vector)
        requires
            (x >> 56u64) as u8 == (y >> 56u64) as u8,
            (x >> 48u64) as u8 == (y >> 48u64) as u8,
            (x >> 40u64) as u8 == (y >> 40u64) as u8,
            (x >> 32u64) as u8 == (y >> 32u64) as u8,
            (x >> 24u64) as u8 == (y >> 24u64) as u8,
            (x >> 16u64) as u8 == (y >> 16u64) as u8,
            (x >> 8u64) as u8 == (y >> 8u64) as u8,
            x as u8 == y as u8,
    ;
}

/// The binary form has the fixed length, and no two tokens share it: decoding
/// the encoding of a token gives that token back.
pub proof fn lemma_round_trip(t: SessionToken)
    ensures
        token_bytes(t).len() == TOKEN_BIN_LEN,
        forall|u: SessionToken| #[trigger] token_bytes(u) == token_bytes(t) ==> u == t,
{
    assert forall|u: SessionToken| #[trigger] token_bytes(u) == token_bytes(t) implies u == t by {
        let a = token_bytes(u);
        let b = token_bytes(t);
        assert(a.subrange(0, 8) =~= u64_be(u.uin as u64));
        assert(b.subrange(0, 8) =~= u64_be(t.uin as u64));
        lemma_u64_be_injective(u.uin as u64, t.uin as u64);
        let (x, y) = (u.uin, t.uin);
        assert(x == y) by (bit_vector)
            requires
                x as u64 == y as u64,
        ;
        assert(u.d2@ =~= a.subrange(8, 12));
        assert(t.d2@ =~= b.subrange(8, 12));
        assert(u.d2key@ =~= a.subrange(12, 16));
        assert(t.d2key@ =~= b.subrange(12, 16));
        assert(u.tgt@ =~= a.subrange(16, 20));
        assert(t.tgt@ =~= b.subrange(16, 20));
        assert(u.srm_token@ =~= a.subrange(20, 24));
        assert(t.srm_token@ =~= b.subrange(20, 24));
        assert(u.t133@ =~= a.subrange(24, 28));
        assert(t.t133@ =~= b.subrange(24, 28));
        assert(u.encrypted_a1@ =~= a.subrange(28, 32));
        assert(t.encrypted_a1@ =~= b.subrange(28, 32));
        assert(u.out_packet_session_id@ =~= a.subrange(32, 36));
        assert(t.out_packet_session_id@ =~= b.subrange(32, 36));
        assert(u.tgtgt_key@ =~= a.subrange(36, 40));
        assert(t.tgtgt_key@ =~= b.subrange(36, 40));
        assert(u.wt_session_ticket_key@ =~= a.subrange(40, 44));
        assert(t.wt_session_ticket_key@ =~= b.subrange(40, 44));
        assert(u.d2 =~= t.d2);
        assert(u.d2key =~= t.d2key);
        assert(u.tgt =~= t.tgt);
        assert(u.srm_token =~= t.srm_token);
        assert(u.t133 =~= t.t133);
        assert(u.encrypted_a1 =~= t.encrypted_a1);
        assert(u.out_packet_session_id =~= t.out_packet_session_id);
        assert(u.tgtgt_key =~= t.tgtgt_key);
        assert(u.wt_session_ticket_key =~= t.wt_session_ticket_key);
    }
}

fn push_u64_be(out: &mut Vec<u8>, x: u64)
    ensures
        final(out)@ == old(out)@ + u64_be(x),
{
    out.push((x >> 56u64) as u8);
    out.push((x >> 48u64) as u8);
    out.push((x >> 40u64) as u8);
    out.push((x >> 32u64) as u8);
    out.push((x >> 24u64) as u8);
    out.push((x >> 16u64) as u8);
    out.push((x >> 8u64) as u8);
    out.push(x as u8);
    assert(final(out)@ =~= old(out)@ + u64_be(x));
}

fn push_field(out: &mut Vec<u8>, f: &[u8; 4])
    ensures
        final(out)@ == old(out)@ + f@,
{
    out.push(f[0]);
    out.push(f[1]);
    out.push(f[2]);
    out.push(f[3]);
    assert(final(out)@ =~= old(out)@ + f@);
}

/// Encodes a token in its 44-byte binary form.
pub fn binary_encode(t: &SessionToken) -> (r: Vec<u8>)
    ensures
        r@ == token_bytes(*t),
{
    let mut out: Vec<u8> = Vec::new();
    push_u64_be(&mut out, t.uin as u64);
    push_field(&mut out, &t.d2);
    push_field(&mut out, &t.d2key);
    push_field(&mut out, &t.tgt);
    push_field(&mut out, &t.srm_token);
    push_field(&mut out, &t.t133);
    push_field(&mut out, &t.encrypted_a1);
    push_field(&mut out, &t.out_packet_session_id);
    push_field(&mut out, &t.tgtgt_key);
    push_field(&mut out, &t.wt_session_ticket_key);
    out
}

fn read_u64_be(b: &[u8], off: usize) -> (r: u64)
    requires
        off + 8 <= b@.len(),
    ensures
        u64_be(r) == b@.subrange(off as int, off + 8),
{
    let b0 = b[off] as u64;
    let b1 = b[off + 1] as u64;
    let b2 = b[off + 2] as u64;
    let b3 = b[off + 3] as u64;
    let b4 = b[off + 4] as u64;
    let b5 = b[off + 5] as u64;
    let b6 = b[off + 6] as u64;
    let b7 = b[off + 7] as u64;
    let r: u64 = (b0 << 56u64) | (b1 << 48u64) | (b2 << 40u64) | (b3 << 32u64) | (b4 << 24u64)
        | (b5 << 16u64) | (b6 << 8u64) | b7;
    assert(
        (r >> 56u64) as u8 == b0 as u8 && (r >> 48u64) as u8 == b1 as u8
        && (r >> 40u64) as u8 == b2 as u8 && (r >> 32u64) as u8 == b3 as u8
        && (r >> 24u64) as u8 == b4 as u8 && (r >> 16u64) as u8 == b5 as u8
        && (r >> 8u64) as u8 == b6 as u8 && r as u8 == b7 as u8
    ) by (bit_vector)
        requires
            b0 < 256 && b1 < 256 && b2 < 256 && b3 < 256 && b4 < 256 && b5 < 256 && b6 < 256
                && b7 < 256,
            r == (b0 << 56u64) | (b1 << 48u64) | (b2 << 40u64) | (b3 << 32u64) | (b4 << 24u64)
                | (b5 << 16u64) | (b6 << 8u64) | b7,
    ;
    assert(u64_be(r) =~= b@.subrange(off as int, off + 8));
    r
}

fn read_field(b: &[u8], off: usize) -> (r: [u8; 4])
    requires
        off + 4 <= b@.len(),
    ensures
        r@ == b@.subrange(off as int, off + 4),
{
    let r: [u8; 4] = [b[off], b[off + 1], b[off + 2], b[off + 3]];
    assert(r@ =~= b@.subrange(off as int, off + 4));
    r
}

/// Decodes the binary form of a token. A buffer that is not exactly 44 bytes
/// long is refused with a token `Deserialization` error; nothing is padded.
pub fn binary_decode(b: &[u8]) -> (r: Result<SessionToken, ConfigError>)
    ensures
        r is Ok <==> b@.len() == TOKEN_BIN_LEN,
        r matches Ok(t) ==> token_bytes(t) == b@,
        r matches Err(e) ==> e.kind == ConfigKind::Token && e.operation
            == OperationKind::Deserialization,
{
    if b.len() != TOKEN_BIN_LEN {
        return Err(ConfigError::new(ConfigKind::Token, OperationKind::Deserialization));
    }
    let x = read_u64_be(b, 0);
    let uin = x as i64;
    assert(uin as u64 == x) by (bit_vector)
        requires
            uin == x as i64,
    ;
    let t = SessionToken {
        uin,
        d2: read_field(b, 8),
        d2key: read_field(b, 12),
        tgt: read_field(b, 16),
        srm_token: read_field(b, 20),
        t133: read_field(b, 24),
        encrypted_a1: read_field(b, 28),
        out_packet_session_id: read_field(b, 32),
        tgtgt_key: read_field(b, 36),
        wt_session_ticket_key: read_field(b, 40),
    };
    assert(token_bytes(t) =~= b@);
    Ok(t)
}

/// Whether a stored binary form is present and has the binary length.
pub open spec fn usable_binary(binary: Option<Vec<u8>>) -> bool {
    binary is Some && binary->Some_0@.len() == TOKEN_BIN_LEN
}

/// Picks the token of an account from its two stored forms: the binary form
/// when it is present and decodes, otherwise the outcome of reading the
/// structured text form.
pub fn select_token(binary: Option<Vec<u8>>, text: Result<SessionToken, ConfigError>) -> (r: Result<
    SessionToken,
    ConfigError,
>)
    ensures
        usable_binary(binary) ==> r is Ok && token_bytes(r->Ok_0) == binary->Some_0@,
        !usable_binary(binary) ==> r == text,
{
    match binary {
        Some(b) => match binary_decode(b.as_slice()) {
            Ok(t) => Ok(t),
            Err(_) => text,
        },
        None => text,
    }
}

} // verus!
