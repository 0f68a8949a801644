//! Names of the per-pane and per-session state files.
//!
//! A pane's claim key is `claim-pane-` followed by its id with every character that is not
//! an ASCII letter, digit or `-` replaced by `_`. A session's key is `session-`, the agent
//! name made safe the same way, `-`, and the 64-bit FNV-1a hash of the agent's UTF-8
//! bytes, a zero byte and the session id's UTF-8 bytes, as sixteen lowercase hex digits.

use vstd::prelude::*;
use vstd::utf8::encode_utf8;
use crate::text::{chars_of, is_ascii_alphanumeric, push_char, push_str, spec_ascii_alphanumeric};

verus! {

pub const FNV_OFFSET_BASIS: u64 = 0xcbf29ce484222325;

pub const FNV_PRIME: u64 = 0x100000001b3;

/// The character that stands for `c` in a file name.
pub open spec fn safe_char(c: char) -> char {
    if spec_ascii_alphanumeric(c) || c == '-' {
        c
    } else {
        '_'
    }
}

/// `s` with each character made safe for a file name.
pub open spec fn safe_chars(s: Seq<char>) -> Seq<char> {
    s.map_values(|c: char| safe_char(c))
}

/// 64-bit FNV-1a of `bytes`.
pub open spec fn fnv1a(bytes: Seq<u8>) -> u64
    decreases bytes.len(),
{
    if bytes.len() == 0 {
        FNV_OFFSET_BASIS
    } else {
        let h = fnv1a(bytes.drop_last()) ^ (bytes.last() as u64);
        ((h as nat * FNV_PRIME as nat) % 0x1_0000_0000_0000_0000) as u64
    }
}

/// The lowercase hex digit of `d`, for `d < 16`.
pub open spec fn hex_digit(d: u64) -> char {
    if d < 10 {
        (('0' as u64) + d) as char
    } else {
        (('a' as u64) + (d - 10)) as char
    }
}

/// `h` as sixteen lowercase hex digits, most significant first.
pub open spec fn hex16(h: u64) -> Seq<char> {
    Seq::new(16, |i: int| hex_digit((h >> ((60 - 4 * i) as u64)) & 0xf))
}

/// The claim key of a pane.
pub open spec fn spec_pane_key(pane_id: Seq<char>) -> Seq<char> {
    "claim-pane-"@ + safe_chars(pane_id)
}

/// The bytes that a session key hashes: the UTF-8 encodings of the agent and the session
/// id, with a zero byte between them.
pub open spec fn session_hash_input(agent: Seq<char>, session_id: Seq<char>) -> Seq<u8> {
    encode_utf8(agent) + seq![0u8] + encode_utf8(session_id)
}

/// The key of a native agent session.
pub open spec fn spec_session_key(agent: Seq<char>, session_id: Seq<char>) -> Seq<char> {
    "session-"@ + safe_chars(agent) + "-"@ + hex16(fnv1a(session_hash_input(agent, session_id)))
}

fn push_safe_chars(out: &mut String, s: &str)
    ensures
        final(out)@ == old(out)@ + safe_chars(s@),
{
    let cs = chars_of(s);
    let mut i: usize = 0;
    while i < cs.len()
        invariant
            i <= cs.len(),
            cs@ == s@,
            out@ == old(out)@ + safe_chars(cs@.take(i as int)),
        decreases cs.len() - i,
    {
        let c = cs[i];
        let safe = if is_ascii_alphanumeric(c) || c == '-' {
            c
        } else {
            '_'
        };
        push_char(out, safe);
        i = i + 1;
        assert(safe_chars(cs@.take(i as int)) =~= safe_chars(cs@.take(i - 1)).push(safe));
    }
    assert(cs@.take(cs.len() as int) =~= cs@);
}

/// The claim key of a pane: `claim-pane-` and the pane id made safe for a file name.
pub fn marker_key_for_pane(pane_id: &str) -> (r: String)
    ensures
        r@ == spec_pane_key(pane_id@),
{
    let mut out = "claim-pane-".to_owned();
    push_safe_chars(&mut out, pane_id);
    out
}

fn fnv1a_update(hash: u64, bytes: &[u8]) -> (r: u64)
    ensures
        forall|prefix: Seq<u8>|
            fnv1a(prefix) == hash ==> #[trigger] fnv1a(prefix + bytes@) == r,
{
    let mut h = hash;
    let mut i: usize = 0;
    while i < bytes.len()
        invariant
            i <= bytes.len(),
            forall|prefix: Seq<u8>|
                fnv1a(prefix) == hash ==> #[trigger] fnv1a(prefix + bytes@.take(i as int)) == h,
        decreases bytes.len() - i,
    {
        let b = bytes[i];
        let x = h ^ (b as u64);
        let next = x.wrapping_mul(FNV_PRIME);
        assert forall|prefix: Seq<u8>| fnv1a(prefix) == hash implies #[trigger] fnv1a(
            prefix + bytes@.take(i + 1),
        ) == next by {
            let s = prefix + bytes@.take(i + 1);
            assert(s.drop_last() =~= prefix + bytes@.take(i as int));
            assert(fnv1a(prefix + bytes@.take(i as int)) == h);
            assert(s.last() == b);
            assert(fnv1a(s) == ((x as nat * FNV_PRIME as nat) % 0x1_0000_0000_0000_0000) as u64);
        }
        h = next;
        i = i + 1;
    }
    assert(bytes@.take(bytes.len() as int) =~= bytes@);
    h
}

fn push_hex16(out: &mut String, h: u64)
    ensures
        final(out)@ == old(out)@ + hex16(h),
{
    let mut i: u64 = 0;
    while i < 16
        invariant
            i <= 16,
            out@ == old(out)@ + hex16(h).take(i as int),
        decreases 16 - i,
    {
        let sh: u64 = 60 - 4 * i;
        let d = (h >> sh) & 0xf;
        assert(d < 16) by (bit_vector)
            requires
                d == (h >> sh) & 0xf,
        ;
        assert(hex16(h)[i as int] == hex_digit(d));
        let c = if d < 10 {
            (('0' as u64) + d) as u8 as char
        } else {
            (('a' as u64) + (d - 10)) as u8 as char
        };
        assert(c == hex_digit(d));
        push_char(out, c);
        assert(hex16(h).take(i + 1) =~= hex16(h).take(i as int).push(c));
        i = i + 1;
    }
    assert(hex16(h).take(16) =~= hex16(h));
}

/// The key of a native agent session: `session-`, the agent made safe for a file name,
/// `-`, and the FNV-1a hash of the agent, a zero byte and the session id, in hex.
pub fn marker_key_for_session(agent: &str, session_id: &str) -> (r: String)
    ensures
        r@ == spec_session_key(agent@, session_id@),
{
    let a = agent.as_bytes();
    let s = session_id.as_bytes();
    let zero: [u8; 1] = [0u8];
    let h1 = fnv1a_update(FNV_OFFSET_BASIS, a);
    let h2 = fnv1a_update(h1, zero.as_slice());
    let h3 = fnv1a_update(h2, s);
    proof {
        let e = Seq::<u8>::empty();
        assert(e + a@ =~= a@);
        assert(fnv1a(e) == FNV_OFFSET_BASIS);
        assert(fnv1a(e + a@) == h1);
        assert(fnv1a(a@ + zero@) == h2);
        assert(zero@ =~= seq![0u8]);
        assert(fnv1a(a@ + zero@ + s@) == h3);
    }
    let mut out = "session-".to_owned();
    push_safe_chars(&mut out, agent);
    push_str(&mut out, "-");
    push_hex16(&mut out, h3);
    out
}

} // verus!

verus! {

/// The characters a key may hold besides its fixed parts: ASCII letters and digits,
/// `-` and `_`.
pub open spec fn is_key_char(c: char) -> bool {
    spec_ascii_alphanumeric(c) || c == '-' || c == '_'
}

/// Law: a pane's claim key is `claim-pane-` followed by exactly one file-name-safe
/// character per character of the pane id.
pub proof fn lemma_pane_key_is_safe(pane_id: Seq<char>)
    ensures
        spec_pane_key(pane_id).len() == 11 + pane_id.len(),
        forall|i: int|
            11 <= i < spec_pane_key(pane_id).len() ==> is_key_char(#[trigger] spec_pane_key(pane_id)[i]),
{
    reveal_strlit("claim-pane-");
    let k = spec_pane_key(pane_id);
    assert forall|i: int| 11 <= i < k.len() implies is_key_char(#[trigger] k[i]) by {
        assert(k[i] == safe_char(pane_id[i - 11]));
    }
}

/// Law: a session key is `session-`, one file-name-safe character per character of the
/// agent, `-`, and sixteen lowercase hex digits.
pub proof fn lemma_session_key_shape(agent: Seq<char>, session_id: Seq<char>)
    ensures
        spec_session_key(agent, session_id).len() == 8 + agent.len() + 1 + 16,
        forall|i: int|
            8 <= i < 8 + agent.len() ==> is_key_char(#[trigger] spec_session_key(agent, session_id)[i]),
        forall|i: int|
            9 + agent.len() <= i < spec_session_key(agent, session_id).len() ==> {
                let c = #[trigger] spec_session_key(agent, session_id)[i];
                ('0' <= c && c <= '9') || ('a' <= c && c <= 'f')
            },
{
    reveal_strlit("session-");
    reveal_strlit("-");
    let k = spec_session_key(agent, session_id);
    let h = fnv1a(session_hash_input(agent, session_id));
    assert forall|i: int| 8 <= i < 8 + agent.len() implies is_key_char(#[trigger] k[i]) by {
        assert(k[i] == safe_char(agent[i - 8]));
    }
    assert forall|i: int| 9 + agent.len() <= i < k.len() implies {
        let c = #[trigger] k[i];
        ('0' <= c && c <= '9') || ('a' <= c && c <= 'f')
    } by {
        let j = i - 9 - agent.len();
        let sh = (60 - 4 * j) as u64;
        let d = (h >> sh) & 0xf;
        assert(d < 16) by (bit_vector)
            requires
                d == (h >> sh) & 0xf,
        ;
        assert(k[i] == hex_digit(d));
    }
}

} // verus!

verus! {

/// One step of FNV-1a: xor in the byte, multiply by the prime modulo 2^64.
proof fn lemma_fnv1a_push(s: Seq<u8>, b: u8)
    ensures
        fnv1a(s.push(b)) == (((fnv1a(s) ^ (b as u64)) as nat * FNV_PRIME as nat)
            % 0x1_0000_0000_0000_0000) as u64,
{
    assert(s.push(b).drop_last() =~= s);
}

/// Multiplying by the (odd) FNV prime modulo 2^64 loses nothing.
proof fn lemma_fnv_multiply_injective(x: u64, y: u64)
    ensures
        ((x as nat * FNV_PRIME as nat) % 0x1_0000_0000_0000_0000) as u64 == ((y as nat
            * FNV_PRIME as nat) % 0x1_0000_0000_0000_0000) as u64 ==> x == y,
{
    assert(((x * 0x100000001b3u64) % 0x1_0000_0000_0000_0000) == ((y * 0x100000001b3u64)
        % 0x1_0000_0000_0000_0000) ==> x == y) by (bit_vector);
}

/// Two byte strings that differ in exactly one byte, at the same place, hash apart.
proof fn lemma_fnv1a_one_byte_apart(pre: Seq<u8>, b1: u8, b2: u8, suf: Seq<u8>)
    requires
        b1 != b2,
    ensures
        fnv1a(pre.push(b1) + suf) != fnv1a(pre.push(b2) + suf),
    decreases suf.len(),
{
    if suf.len() == 0 {
        assert(pre.push(b1) + suf =~= pre.push(b1));
        assert(pre.push(b2) + suf =~= pre.push(b2));
        let h = fnv1a(pre);
        lemma_fnv1a_push(pre, b1);
        lemma_fnv1a_push(pre, b2);
        assert((h ^ (b1 as u64)) != (h ^ (b2 as u64))) by (bit_vector)
            requires
                b1 != b2,
        ;
        lemma_fnv_multiply_injective(h ^ (b1 as u64), h ^ (b2 as u64));
    } else {
        let init = suf.drop_last();
        let c = suf.last();
        lemma_fnv1a_one_byte_apart(pre, b1, b2, init);
        assert(pre.push(b1) + suf =~= (pre.push(b1) + init).push(c));
        assert(pre.push(b2) + suf =~= (pre.push(b2) + init).push(c));
        let h1 = fnv1a(pre.push(b1) + init);
        let h2 = fnv1a(pre.push(b2) + init);
        lemma_fnv1a_push(pre.push(b1) + init, c);
        lemma_fnv1a_push(pre.push(b2) + init, c);
        assert((h1 ^ (c as u64)) != (h2 ^ (c as u64))) by (bit_vector)
            requires
                h1 != h2,
        ;
        lemma_fnv_multiply_injective(h1 ^ (c as u64), h2 ^ (c as u64));
    }
}

/// The hex digit value at place `i` of `h`, most significant first.
spec fn nibble(h: u64, i: int) -> u64 {
    (h >> ((60 - 4 * i) as u64)) & 0xf
}

proof fn lemma_nibble_eq(h1: u64, h2: u64, i: int)
    requires
        hex16(h1) == hex16(h2),
        0 <= i < 16,
    ensures
        nibble(h1, i) == nibble(h2, i),
{
    let sh = (60 - 4 * i) as u64;
    let d1 = (h1 >> sh) & 0xf;
    let d2 = (h2 >> sh) & 0xf;
    assert(d1 < 16 && d2 < 16) by (bit_vector)
        requires
            d1 == (h1 >> sh) & 0xf,
            d2 == (h2 >> sh) & 0xf,
    ;
    assert(hex16(h1)[i] == hex_digit(d1));
    assert(hex16(h2)[i] == hex_digit(d2));
}

/// Sixteen hex digits tell the hash they were written from.
proof fn lemma_hex16_injective(h1: u64, h2: u64)
    requires
        hex16(h1) == hex16(h2),
    ensures
        h1 == h2,
{
    lemma_nibble_eq(h1, h2, 0);
    lemma_nibble_eq(h1, h2, 1);
    lemma_nibble_eq(h1, h2, 2);
    lemma_nibble_eq(h1, h2, 3);
    lemma_nibble_eq(h1, h2, 4);
    lemma_nibble_eq(h1, h2, 5);
    lemma_nibble_eq(h1, h2, 6);
    lemma_nibble_eq(h1, h2, 7);
    lemma_nibble_eq(h1, h2, 8);
    lemma_nibble_eq(h1, h2, 9);
    lemma_nibble_eq(h1, h2, 10);
    lemma_nibble_eq(h1, h2, 11);
    lemma_nibble_eq(h1, h2, 12);
    lemma_nibble_eq(h1, h2, 13);
    lemma_nibble_eq(h1, h2, 14);
    lemma_nibble_eq(h1, h2, 15);
    assert(((h1 >> 60u64) & 0xf) == ((h2 >> 60u64) & 0xf));
    assert(((h1 >> 56u64) & 0xf) == ((h2 >> 56u64) & 0xf));
    assert(((h1 >> 52u64) & 0xf) == ((h2 >> 52u64) & 0xf));
    assert(((h1 >> 48u64) & 0xf) == ((h2 >> 48u64) & 0xf));
    assert(((h1 >> 44u64) & 0xf) == ((h2 >> 44u64) & 0xf));
    assert(((h1 >> 40u64) & 0xf) == ((h2 >> 40u64) & 0xf));
    assert(((h1 >> 36u64) & 0xf) == ((h2 >> 36u64) & 0xf));
    assert(((h1 >> 32u64) & 0xf) == ((h2 >> 32u64) & 0xf));
    assert(((h1 >> 28u64) & 0xf) == ((h2 >> 28u64) & 0xf));
    assert(((h1 >> 24u64) & 0xf) == ((h2 >> 24u64) & 0xf));
    assert(((h1 >> 20u64) & 0xf) == ((h2 >> 20u64) & 0xf));
    assert(((h1 >> 16u64) & 0xf) == ((h2 >> 16u64) & 0xf));
    assert(((h1 >> 12u64) & 0xf) == ((h2 >> 12u64) & 0xf));
    assert(((h1 >> 8u64) & 0xf) == ((h2 >> 8u64) & 0xf));
    assert(((h1 >> 4u64) & 0xf) == ((h2 >> 4u64) & 0xf));
    assert(((h1 >> 0u64) & 0xf) == ((h2 >> 0u64) & 0xf));
    assert(h1 == h2) by (bit_vector)
        requires
            ((h1 >> 60u64) & 0xf) == ((h2 >> 60u64) & 0xf),
            ((h1 >> 56u64) & 0xf) == ((h2 >> 56u64) & 0xf),
            ((h1 >> 52u64) & 0xf) == ((h2 >> 52u64) & 0xf),
            ((h1 >> 48u64) & 0xf) == ((h2 >> 48u64) & 0xf),
            ((h1 >> 44u64) & 0xf) == ((h2 >> 44u64) & 0xf),
            ((h1 >> 40u64) & 0xf) == ((h2 >> 40u64) & 0xf),
            ((h1 >> 36u64) & 0xf) == ((h2 >> 36u64) & 0xf),
            ((h1 >> 32u64) & 0xf) == ((h2 >> 32u64) & 0xf),
            ((h1 >> 28u64) & 0xf) == ((h2 >> 28u64) & 0xf),
            ((h1 >> 24u64) & 0xf) == ((h2 >> 24u64) & 0xf),
            ((h1 >> 20u64) & 0xf) == ((h2 >> 20u64) & 0xf),
            ((h1 >> 16u64) & 0xf) == ((h2 >> 16u64) & 0xf),
            ((h1 >> 12u64) & 0xf) == ((h2 >> 12u64) & 0xf),
            ((h1 >> 8u64) & 0xf) == ((h2 >> 8u64) & 0xf),
            ((h1 >> 4u64) & 0xf) == ((h2 >> 4u64) & 0xf),
            ((h1 >> 0u64) & 0xf) == ((h2 >> 0u64) & 0xf),
    ;
}

/// Law: the key of a session hashes every byte of its id. Two sessions of the same agent
/// whose ids' UTF-8 encodings have the same length and differ in exactly one byte, wherever
/// that byte stands, get different keys.
pub proof fn lemma_session_key_uses_whole_id(
    agent: Seq<char>,
    id1: Seq<char>,
    id2: Seq<char>,
    k: int,
)
    requires
        encode_utf8(id1).len() == encode_utf8(id2).len(),
        0 <= k < encode_utf8(id1).len(),
        encode_utf8(id1)[k] != encode_utf8(id2)[k],
        forall|j: int|
            0 <= j < encode_utf8(id1).len() && j != k ==> #[trigger] encode_utf8(id1)[j]
                == encode_utf8(id2)[j],
    ensures
        spec_session_key(agent, id1) != spec_session_key(agent, id2),
{
    let e1 = encode_utf8(id1);
    let e2 = encode_utf8(id2);
    let pre = encode_utf8(agent) + seq![0u8] + e1.take(k);
    let suf = e1.skip(k + 1);
    assert(e1.take(k) =~= e2.take(k));
    assert(e1.skip(k + 1) =~= e2.skip(k + 1));
    assert(encode_utf8(agent) + seq![0u8] + e1 =~= pre.push(e1[k]) + suf);
    assert(encode_utf8(agent) + seq![0u8] + e2 =~= pre.push(e2[k]) + suf);
    lemma_fnv1a_one_byte_apart(pre, e1[k], e2[k], suf);
    let h1 = fnv1a(session_hash_input(agent, id1));
    let h2 = fnv1a(session_hash_input(agent, id2));
    let head = "session-"@ + safe_chars(agent) + "-"@;
    let key1 = spec_session_key(agent, id1);
    let key2 = spec_session_key(agent, id2);
    if key1 == key2 {
        assert(key1.skip(head.len() as int) =~= hex16(h1));
        assert(key2.skip(head.len() as int) =~= hex16(h2));
        lemma_hex16_injective(h1, h2);
    }
}

} // verus!

verus! {

/// Law: FNV-1a starts from the offset basis and takes in each byte by xoring it in and
/// multiplying by the prime modulo 2^64; a session key ends with the sixteen hex digits of
/// that hash over the agent's UTF-8 bytes, a zero byte and all of the session id's UTF-8
/// bytes.
pub proof fn lemma_session_key_hashes_agent_zero_and_id(
    agent: Seq<char>,
    id: Seq<char>,
    s: Seq<u8>,
    b: u8,
)
    ensures
        fnv1a(Seq::empty()) == 0xcbf29ce484222325u64,
        fnv1a(s.push(b)) == (((fnv1a(s) ^ (b as u64)) as nat * 0x100000001b3nat)
            % 0x1_0000_0000_0000_0000) as u64,
        spec_session_key(agent, id).len() >= 16,
        spec_session_key(agent, id).skip(spec_session_key(agent, id).len() - 16) == hex16(
            fnv1a(encode_utf8(agent) + seq![0u8] + encode_utf8(id)),
        ),
{
    lemma_fnv1a_push(s, b);
    let k = spec_session_key(agent, id);
    assert(k.skip(k.len() - 16) =~= hex16(fnv1a(encode_utf8(agent) + seq![0u8] + encode_utf8(id))));
}

} // verus!
