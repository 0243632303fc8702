//! SHA-256 (FIPS 180-4), used for the TLS certificate fingerprint.  The
//! digest is computed locally so the transport needs no crypto dependency
//! for display purposes; the specification below is the padding, message
//! schedule and compression of the standard, and the executable code is
//! proved to implement it.

use vstd::prelude::*;
use vstd::wrapping::u32_specs;
use crate::dlnk::spec_be32;

verus! {

/// Addition modulo 2^32.
pub open spec fn spec_wadd(x: u32, y: u32) -> u32 {
    u32_specs::wrapping_add(x, y)
}

/// Right rotation of a 32-bit word.
pub open spec fn spec_rotr(x: u32, n: u32) -> u32
    recommends
        0 < n < 32,
{
    (x >> n) | (x << ((32 - n) as u32))
}

fn rotr(x: u32, n: u32) -> (r: u32)
    requires
        0 < n < 32,
    ensures
        r == spec_rotr(x, n),
{
    (x >> n) | (x << (32 - n))
}

/// The sigma-0 function of the message schedule.
pub open spec fn spec_ssig0(x: u32) -> u32 {
    spec_rotr(x, 7) ^ spec_rotr(x, 18) ^ (x >> 3u32)
}

/// The sigma-1 function of the message schedule.
pub open spec fn spec_ssig1(x: u32) -> u32 {
    spec_rotr(x, 17) ^ spec_rotr(x, 19) ^ (x >> 10u32)
}

/// The big sigma-0 function of the compression rounds.
pub open spec fn spec_bsig0(x: u32) -> u32 {
    spec_rotr(x, 2) ^ spec_rotr(x, 13) ^ spec_rotr(x, 22)
}

/// The big sigma-1 function of the compression rounds.
pub open spec fn spec_bsig1(x: u32) -> u32 {
    spec_rotr(x, 6) ^ spec_rotr(x, 11) ^ spec_rotr(x, 25)
}

/// The choice function.
pub open spec fn spec_ch(e: u32, f: u32, g: u32) -> u32 {
    (e & f) ^ ((!e) & g)
}

/// The majority function.
pub open spec fn spec_maj(a: u32, b: u32, c: u32) -> u32 {
    (a & b) ^ (a & c) ^ (b & c)
}

/// The round constants, as a table.
pub open spec fn spec_k_table() -> Seq<u32> {
    seq![
        0x428a2f98u32, 0x71374491, 0xb5c0fbcf, 0xe9b5dba5, 0x3956c25b, 0x59f111f1, 0x923f82a4,
        0xab1c5ed5, 0xd807aa98, 0x12835b01, 0x243185be, 0x550c7dc3, 0x72be5d74, 0x80deb1fe,
        0x9bdc06a7, 0xc19bf174, 0xe49b69c1, 0xefbe4786, 0x0fc19dc6, 0x240ca1cc, 0x2de92c6f,
        0x4a7484aa, 0x5cb0a9dc, 0x76f988da, 0x983e5152, 0xa831c66d, 0xb00327c8, 0xbf597fc7,
        0xc6e00bf3, 0xd5a79147, 0x06ca6351, 0x14292967, 0x27b70a85, 0x2e1b2138, 0x4d2c6dfc,
        0x53380d13, 0x650a7354, 0x766a0abb, 0x81c2c92e, 0x92722c85, 0xa2bfe8a1, 0xa81a664b,
        0xc24b8b70, 0xc76c51a3, 0xd192e819, 0xd6990624, 0xf40e3585, 0x106aa070, 0x19a4c116,
        0x1e376c08, 0x2748774c, 0x34b0bcb5, 0x391c0cb3, 0x4ed8aa4a, 0x5b9cca4f, 0x682e6ff3,
        0x748f82ee, 0x78a5636f, 0x84c87814, 0x8cc70208, 0x90befffa, 0xa4506ceb, 0xbef9a3f7,
        0xc67178f2,
    ]
}

fn k_table() -> (k: Vec<u32>)
    ensures
        k@ == spec_k_table(),
{
    let k: Vec<u32> = vec![
        0x428a2f98, 0x71374491, 0xb5c0fbcf, 0xe9b5dba5, 0x3956c25b, 0x59f111f1, 0x923f82a4,
        0xab1c5ed5, 0xd807aa98, 0x12835b01, 0x243185be, 0x550c7dc3, 0x72be5d74, 0x80deb1fe,
        0x9bdc06a7, 0xc19bf174, 0xe49b69c1, 0xefbe4786, 0x0fc19dc6, 0x240ca1cc, 0x2de92c6f,
        0x4a7484aa, 0x5cb0a9dc, 0x76f988da, 0x983e5152, 0xa831c66d, 0xb00327c8, 0xbf597fc7,
        0xc6e00bf3, 0xd5a79147, 0x06ca6351, 0x14292967, 0x27b70a85, 0x2e1b2138, 0x4d2c6dfc,
        0x53380d13, 0x650a7354, 0x766a0abb, 0x81c2c92e, 0x92722c85, 0xa2bfe8a1, 0xa81a664b,
        0xc24b8b70, 0xc76c51a3, 0xd192e819, 0xd6990624, 0xf40e3585, 0x106aa070, 0x19a4c116,
        0x1e376c08, 0x2748774c, 0x34b0bcb5, 0x391c0cb3, 0x4ed8aa4a, 0x5b9cca4f, 0x682e6ff3,
        0x748f82ee, 0x78a5636f, 0x84c87814, 0x8cc70208, 0x90befffa, 0xa4506ceb, 0xbef9a3f7,
        0xc67178f2,
    ];
    proof {
        assert(k@ =~= spec_k_table());
    }
    k
}

/// Zero bytes between the 0x80 marker and the length field, chosen so the
/// padded message is a whole number of 64-byte blocks.
pub open spec fn spec_pad_zeros(len: nat) -> int {
    (119 - (len as int % 64)) % 64
}

/// The length field: the bit length as eight big-endian bytes.
pub open spec fn spec_len_bytes(bit_len: u64) -> Seq<u8> {
    seq![
        ((bit_len as int / 0x100_0000_0000_0000) % 0x100) as u8,
        ((bit_len as int / 0x1_0000_0000_0000) % 0x100) as u8,
        ((bit_len as int / 0x100_0000_0000) % 0x100) as u8,
        ((bit_len as int / 0x1_0000_0000) % 0x100) as u8,
        ((bit_len as int / 0x100_0000) % 0x100) as u8,
        ((bit_len as int / 0x1_0000) % 0x100) as u8,
        ((bit_len as int / 0x100) % 0x100) as u8,
        (bit_len as int % 0x100) as u8,
    ]
}

/// The padded message: data, a 0x80 marker, zeros, and the bit length.
pub open spec fn spec_padded(data: Seq<u8>) -> Seq<u8>
    recommends
        data.len() * 8 <= u64::MAX,
{
    data + seq![0x80u8] + Seq::new(spec_pad_zeros(data.len()) as nat, |i: int| 0u8)
        + spec_len_bytes((data.len() * 8) as u64)
}

/// Word `t` of the message schedule for one 64-byte block.
pub open spec fn spec_w(block: Seq<u8>, t: int) -> u32
    recommends
        block.len() == 64,
        0 <= t < 64,
    decreases t,
{
    if t < 16 {
        spec_be32(block[4 * t], block[4 * t + 1], block[4 * t + 2], block[4 * t + 3]) as u32
    } else {
        spec_wadd(
            spec_wadd(
                spec_wadd(spec_w(block, t - 16), spec_ssig0(spec_w(block, t - 15))),
                spec_w(block, t - 7),
            ),
            spec_ssig1(spec_w(block, t - 2)),
        )
    }
}

/// The eight working variables of the compression function.
#[derive(Debug, Clone, Copy, PartialEq, Eq, Structural)]
pub struct ShaState {
    pub a: u32,
    pub b: u32,
    pub c: u32,
    pub d: u32,
    pub e: u32,
    pub f: u32,
    pub g: u32,
    pub h: u32,
}

/// The initial hash value.
pub open spec fn spec_init_state() -> ShaState {
    ShaState {
        a: 0x6a09e667,
        b: 0xbb67ae85,
        c: 0x3c6ef372,
        d: 0xa54ff53a,
        e: 0x510e527f,
        f: 0x9b05688c,
        g: 0x1f83d9ab,
        h: 0x5be0cd19,
    }
}

/// One compression round.
pub open spec fn spec_round(block: Seq<u8>, st: ShaState, t: int) -> ShaState {
    let t1 = spec_wadd(
        spec_wadd(
            spec_wadd(spec_wadd(st.h, spec_bsig1(st.e)), spec_ch(st.e, st.f, st.g)),
            spec_k_table()[t],
        ),
        spec_w(block, t),
    );
    let t2 = spec_wadd(spec_bsig0(st.a), spec_maj(st.a, st.b, st.c));
    ShaState {
        a: spec_wadd(t1, t2),
        b: st.a,
        c: st.b,
        d: st.c,
        e: spec_wadd(st.d, t1),
        f: st.e,
        g: st.f,
        h: st.g,
    }
}

/// The first `t` compression rounds.
pub open spec fn spec_rounds(block: Seq<u8>, st: ShaState, t: int) -> ShaState
    decreases t,
{
    if t <= 0 {
        st
    } else {
        spec_round(block, spec_rounds(block, st, t - 1), t - 1)
    }
}

/// Compress one block into the running hash value.
pub open spec fn spec_compress(block: Seq<u8>, st: ShaState) -> ShaState {
    let r = spec_rounds(block, st, 64);
    ShaState {
        a: spec_wadd(st.a, r.a),
        b: spec_wadd(st.b, r.b),
        c: spec_wadd(st.c, r.c),
        d: spec_wadd(st.d, r.d),
        e: spec_wadd(st.e, r.e),
        f: spec_wadd(st.f, r.f),
        g: spec_wadd(st.g, r.g),
        h: spec_wadd(st.h, r.h),
    }
}

/// The hash value after the first `nb` blocks of the padded message.
pub open spec fn spec_blocks(padded: Seq<u8>, st0: ShaState, nb: int) -> ShaState
    decreases nb,
{
    if nb <= 0 {
        st0
    } else {
        spec_compress(
            padded.subrange(64 * (nb - 1), 64 * nb),
            spec_blocks(padded, st0, nb - 1),
        )
    }
}

/// The four big-endian bytes of one word.
pub open spec fn spec_word_bytes(x: u32) -> Seq<u8> {
    seq![
        ((x as int / 0x100_0000) % 0x100) as u8,
        ((x as int / 0x1_0000) % 0x100) as u8,
        ((x as int / 0x100) % 0x100) as u8,
        (x as int % 0x100) as u8,
    ]
}

/// The digest bytes of a final hash value.
pub open spec fn spec_state_bytes(st: ShaState) -> Seq<u8> {
    spec_word_bytes(st.a) + spec_word_bytes(st.b) + spec_word_bytes(st.c) + spec_word_bytes(st.d)
        + spec_word_bytes(st.e) + spec_word_bytes(st.f) + spec_word_bytes(st.g)
        + spec_word_bytes(st.h)
}

/// The SHA-256 digest of a byte sequence.
pub open spec fn spec_sha256(data: Seq<u8>) -> Seq<u8>
    recommends
        data.len() * 8 <= u64::MAX,
{
    let padded = spec_padded(data);
    spec_state_bytes(spec_blocks(padded, spec_init_state(), padded.len() as int / 64))
}

/// Append the big-endian bytes of one word.
fn push_word(out: &mut Vec<u8>, x: u32)
    ensures
        final(out)@ == old(out)@ + spec_word_bytes(x),
{
    out.push((x / 0x100_0000) as u8);
    out.push(((x / 0x1_0000) % 0x100) as u8);
    out.push(((x / 0x100) % 0x100) as u8);
    out.push((x % 0x100) as u8);
    proof {
        assert(out@ =~= old(out)@ + spec_word_bytes(x));
    }
}

/// Pad the message per FIPS 180-4.
fn pad_message(data: &[u8]) -> (msg: Vec<u8>)
    requires
        data@.len() < 0x2000_0000_0000_0000,
    ensures
        msg@ == spec_padded(data@),
        msg@.len() % 64 == 0,
{
    let len = data.len();
    let mut msg = vstd::slice::slice_to_vec(data);
    msg.push(0x80);
    let zeros: usize = (119 - (len % 64)) % 64;
    let ghost before_zeros = msg@;
    for i in 0..zeros
        invariant
            msg@.len() == before_zeros.len() + i,
            msg@ == before_zeros + Seq::new(i as nat, |j: int| 0u8),
    {
        msg.push(0);
        proof {
            assert(msg@ =~= before_zeros + Seq::new((i + 1) as nat, |j: int| 0u8));
        }
    }
    let bit_len: u64 = (len as u64) * 8;
    msg.push((bit_len / 0x100_0000_0000_0000) as u8);
    msg.push(((bit_len / 0x1_0000_0000_0000) % 0x100) as u8);
    msg.push(((bit_len / 0x100_0000_0000) % 0x100) as u8);
    msg.push(((bit_len / 0x1_0000_0000) % 0x100) as u8);
    msg.push(((bit_len / 0x100_0000) % 0x100) as u8);
    msg.push(((bit_len / 0x1_0000) % 0x100) as u8);
    msg.push(((bit_len / 0x100) % 0x100) as u8);
    msg.push((bit_len % 0x100) as u8);
    proof {
        assert(msg@ =~= spec_padded(data@));
        let r = len as int % 64;
        assert(len as int == 64 * (len as int / 64) + r);
        assert(msg@.len() == len + 1 + spec_pad_zeros(len as nat) + 8);
        assert((len + 1 + ((119 - r) % 64) + 8) % 64 == 0) by (nonlinear_arith)
            requires
                r == len as int % 64,
                len as int >= 0,
        ;
    }
    msg
}

/// Compute the message schedule of one block.
fn schedule(msg: &Vec<u8>, base: usize) -> (w: Vec<u32>)
    requires
        base + 64 <= msg@.len(),
        msg@.len() <= usize::MAX,
    ensures
        w@.len() == 64,
        forall|t: int|
            0 <= t < 64 ==> w@[t] == spec_w(msg@.subrange(base as int, base + 64), t),
{
    let ghost block = msg@.subrange(base as int, base + 64);
    let mut w: Vec<u32> = Vec::new();
    for t in 0..16
        invariant
            base + 64 <= msg@.len(),
            msg@.len() <= usize::MAX,
            block == msg@.subrange(base as int, base + 64),
            w@.len() == t,
            forall|j: int| 0 <= j < t ==> w@[j] == spec_w(block, j),
    {
        let v = crate::dlnk::read_be32(msg.as_slice(), base + 4 * t);
        proof {
            assert(block[4 * t] == msg@[base + 4 * t]);
            assert(block[4 * t + 1] == msg@[base + 4 * t + 1]);
            assert(block[4 * t + 2] == msg@[base + 4 * t + 2]);
            assert(block[4 * t + 3] == msg@[base + 4 * t + 3]);
        }
        w.push(v);
    }
    for t in 16..64
        invariant
            block == msg@.subrange(base as int, base + 64),
            w@.len() == t,
            forall|j: int| 0 <= j < t ==> w@[j] == spec_w(block, j),
    {
        let s0 = {
            let x = w[t - 15];
            rotr(x, 7) ^ rotr(x, 18) ^ (x >> 3u32)
        };
        let s1 = {
            let x = w[t - 2];
            rotr(x, 17) ^ rotr(x, 19) ^ (x >> 10u32)
        };
        let v = w[t - 16].wrapping_add(s0).wrapping_add(w[t - 7]).wrapping_add(s1);
        proof {
            assert(s0 == spec_ssig0(spec_w(block, t - 15)));
            assert(s1 == spec_ssig1(spec_w(block, t - 2)));
            assert(w@[t - 16] == spec_w(block, t - 16));
            assert(w@[t - 7] == spec_w(block, t - 7));
            assert(v == u32_specs::wrapping_add(
                u32_specs::wrapping_add(
                    u32_specs::wrapping_add(spec_w(block, t - 16), s0),
                    spec_w(block, t - 7),
                ),
                s1,
            ));
            assert(v == spec_w(block, t as int));
        }
        w.push(v);
    }
    w
}

/// Compress one block into the hash value.
fn compress_block(msg: &Vec<u8>, base: usize, st: ShaState) -> (r: ShaState)
    requires
        base + 64 <= msg@.len(),
        msg@.len() <= usize::MAX,
    ensures
        r == spec_compress(msg@.subrange(base as int, base + 64), st),
{
    let ghost block = msg@.subrange(base as int, base + 64);
    let w = schedule(msg, base);
    let k = k_table();
    let mut a = st.a;
    let mut b = st.b;
    let mut c = st.c;
    let mut d = st.d;
    let mut e = st.e;
    let mut f = st.f;
    let mut g = st.g;
    let mut h = st.h;
    for t in 0..64
        invariant
            block == msg@.subrange(base as int, base + 64),
            w@.len() == 64,
            forall|j: int| 0 <= j < 64 ==> w@[j] == spec_w(block, j),
            k@ == spec_k_table(),
            (ShaState { a, b, c, d, e, f, g, h }) == spec_rounds(block, st, t as int),
    {
        let s1 = rotr(e, 6) ^ rotr(e, 11) ^ rotr(e, 25);
        let ch = (e & f) ^ ((!e) & g);
        let t1 = h.wrapping_add(s1).wrapping_add(ch).wrapping_add(k[t]).wrapping_add(w[t]);
        let s0 = rotr(a, 2) ^ rotr(a, 13) ^ rotr(a, 22);
        let maj = (a & b) ^ (a & c) ^ (b & c);
        let t2 = s0.wrapping_add(maj);
        h = g;
        g = f;
        f = e;
        e = d.wrapping_add(t1);
        d = c;
        c = b;
        b = a;
        a = t1.wrapping_add(t2);
    }
    ShaState {
        a: st.a.wrapping_add(a),
        b: st.b.wrapping_add(b),
        c: st.c.wrapping_add(c),
        d: st.d.wrapping_add(d),
        e: st.e.wrapping_add(e),
        f: st.f.wrapping_add(f),
        g: st.g.wrapping_add(g),
        h: st.h.wrapping_add(h),
    }
}

/// The SHA-256 digest of `data`, as 32 bytes.
#[verifier::rlimit(60)]
pub fn sha256_digest(data: &[u8]) -> (digest: Vec<u8>)
    requires
        data@.len() < 0x2000_0000_0000_0000,
    ensures
        digest@ == spec_sha256(data@),
        digest@.len() == 32,
{
    let msg = pad_message(data);
    let nb = msg.len() / 64;
    let mut st = ShaState {
        a: 0x6a09e667,
        b: 0xbb67ae85,
        c: 0x3c6ef372,
        d: 0xa54ff53a,
        e: 0x510e527f,
        f: 0x9b05688c,
        g: 0x1f83d9ab,
        h: 0x5be0cd19,
    };
    proof {
        assert(st == spec_init_state());
        assert(64 * nb == msg@.len());
    }
    for i in 0..nb
        invariant
            msg@ == spec_padded(data@),
            64 * nb == msg@.len(),
            msg@.len() <= usize::MAX,
            st == spec_blocks(msg@, spec_init_state(), i as int),
    {
        proof {
            assert(64 * i + 64 <= 64 * nb) by (nonlinear_arith)
                requires
                    i < nb,
            ;
        }
        let ghost prev = st;
        st = compress_block(&msg, 64 * i, st);
        proof {
            assert(64 * (i + 1) == 64 * i + 64);
            assert(st == spec_compress(msg@.subrange(64 * i as int, 64 * i + 64), prev));
            assert(st == spec_blocks(msg@, spec_init_state(), i + 1));
        }
    }
    let mut digest: Vec<u8> = Vec::new();
    push_word(&mut digest, st.a);
    push_word(&mut digest, st.b);
    push_word(&mut digest, st.c);
    push_word(&mut digest, st.d);
    push_word(&mut digest, st.e);
    push_word(&mut digest, st.f);
    push_word(&mut digest, st.g);
    push_word(&mut digest, st.h);
    proof {
        assert(digest@ =~= spec_state_bytes(st));
    }
    digest
}

} // verus!
