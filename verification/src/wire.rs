//! The request/response framing protocol: operation tags, the fixed plaintext
//! record, and the encrypt response batch with its shared length prefix.

use vstd::prelude::*;
use crate::bytes::{i32_of_le, u32_of_le, u32_from_le_bytes, u64_be_bytes, u64_of_be, u64_to_be_bytes};
use crate::{ServiceError, FIELD_COUNT};

verus! {

/// The two operations a connection may request.
#[derive(Debug, Clone, Copy, PartialEq, Eq, Structural)]
pub enum Operation {
    Encrypt,
    Decrypt,
}

/// Interpret the four-byte operation tag: as a little-endian signed 32-bit
/// integer, `0` requests an encryption, `1` a decryption, and any other value
/// is rejected and terminates the connection.
pub fn parse_operation(tag: &Vec<u8>) -> (r: Result<Operation, ServiceError>)
    requires
        tag@.len() == 4,
    ensures
        i32_of_le(tag@) == 0 ==> r == Ok::<Operation, ServiceError>(Operation::Encrypt),
        i32_of_le(tag@) == 1 ==> r == Ok::<Operation, ServiceError>(Operation::Decrypt),
        !(i32_of_le(tag@) == 0 || i32_of_le(tag@) == 1) ==> r == Err::<Operation, ServiceError>(
            ServiceError::InvalidOperation,
        ),
{
    let v = u32_from_le_bytes(tag);
    if v == 0 {
        Ok(Operation::Encrypt)
    } else if v == 1 {
        Ok(Operation::Decrypt)
    } else {
        Err(ServiceError::InvalidOperation)
    }
}

/// The i-th plaintext field of an encrypt payload: four little-endian bytes,
/// signed.
pub open spec fn field_at(payload: Seq<u8>, i: int) -> int {
    i32_of_le(payload.subrange(4 * i, 4 * i + 4))
}

/// Read the signed 32-bit field stored at byte offset `off`.
pub fn read_i32_le(b: &Vec<u8>, off: usize) -> (x: i32)
    requires
        off + 4 <= b@.len(),
    ensures
        x as int == i32_of_le(b@.subrange(off as int, off as int + 4)),
{
    let n: usize = b.len();
    proof {
        assert(off + 4 <= n);
    }
    let u: u32 = (b[off] as u32) + (b[off + 1] as u32) * 0x100 + (b[off + 2] as u32) * 0x1_0000 + (
    b[off + 3] as u32) * 0x100_0000;
    proof {
        assert(u as nat == u32_of_le(b@.subrange(off as int, off as int + 4)));
    }
    if u < 0x8000_0000 {
        u as i32
    } else {
        ((u as i64) - 0x1_0000_0000) as i32
    }
}

/// Decode the fixed plaintext record of an encrypt request: `FIELD_COUNT`
/// signed 32-bit fields, little-endian, in their fixed order.
pub fn parse_fields(payload: &Vec<u8>) -> (r: Vec<i32>)
    requires
        payload@.len() == 4 * FIELD_COUNT,
    ensures
        r@.len() == FIELD_COUNT,
        forall|i: int| 0 <= i < FIELD_COUNT ==> r@[i] as int == field_at(payload@, i),
{
    let mut r: Vec<i32> = Vec::new();
    let mut i: usize = 0;
    while i < FIELD_COUNT
        invariant
            i <= FIELD_COUNT,
            payload@.len() == 4 * FIELD_COUNT,
            r@.len() == i,
            forall|k: int| 0 <= k < i ==> r@[k] as int == field_at(payload@, k),
        decreases FIELD_COUNT - i,
    {
        let x = read_i32_le(payload, 4 * i);
        r.push(x);
        i = i + 1;
    }
    r
}

/// All blobs in the batch have byte length `l`.
pub open spec fn uniform_len(bs: Seq<Seq<u8>>, l: nat) -> bool {
    forall|i: int| 0 <= i < bs.len() ==> (#[trigger] bs[i]).len() == l
}

/// The batch blobs laid back-to-back, with no delimiters.
pub open spec fn concat_blobs(bs: Seq<Seq<u8>>) -> Seq<u8>
    decreases bs.len(),
{
    if bs.len() == 0 {
        Seq::empty()
    } else {
        bs[0] + concat_blobs(bs.subrange(1, bs.len() as int))
    }
}

/// A whole encrypt response: the shared blob length as eight big-endian
/// bytes, then every blob in field order.
pub open spec fn encrypt_response(bs: Seq<Seq<u8>>, l: u64) -> Seq<u8> {
    u64_be_bytes(l) + concat_blobs(bs)
}

proof fn lemma_concat_push(s: Seq<Seq<u8>>, x: Seq<u8>)
    ensures
        concat_blobs(s.push(x)) == concat_blobs(s) + x,
    decreases s.len(),
{
    let sp = s.push(x);
    assert(concat_blobs(sp) == sp[0] + concat_blobs(sp.subrange(1, sp.len() as int)));
    if s.len() == 0 {
        assert(sp[0] == x);
        assert(sp.subrange(1, sp.len() as int) =~= Seq::<Seq<u8>>::empty());
        assert(concat_blobs(sp.subrange(1, sp.len() as int)) == Seq::<u8>::empty());
        assert(concat_blobs(sp) =~= x);
        assert(concat_blobs(s) + x =~= x);
    } else {
        let st = s.subrange(1, s.len() as int);
        assert(sp.subrange(1, sp.len() as int) =~= st.push(x));
        lemma_concat_push(st, x);
        assert(sp[0] == s[0]);
        assert(concat_blobs(s) == s[0] + concat_blobs(st));
        assert(s[0] + (concat_blobs(st) + x) =~= (s[0] + concat_blobs(st)) + x);
    }
}

proof fn lemma_concat_len_uniform(bs: Seq<Seq<u8>>, l: nat)
    requires
        uniform_len(bs, l),
    ensures
        concat_blobs(bs).len() == bs.len() * l,
    decreases bs.len(),
{
    if bs.len() == 0 {
    } else {
        let tail = bs.subrange(1, bs.len() as int);
        assert(uniform_len(tail, l));
        lemma_concat_len_uniform(tail, l);
        assert(bs.len() * l == l + (bs.len() - 1) * l) by (nonlinear_arith);
    }
}

proof fn lemma_concat_chunk(bs: Seq<Seq<u8>>, l: nat, i: int)
    requires
        uniform_len(bs, l),
        0 <= i < bs.len(),
    ensures
        concat_blobs(bs).subrange(i * l, (i + 1) * l) == bs[i],
    decreases i,
{
    lemma_concat_len_uniform(bs, l);
    assert(concat_blobs(bs) == bs[0] + concat_blobs(bs.subrange(1, bs.len() as int)));
    if i == 0 {
        let tail = bs.subrange(1, bs.len() as int);
        assert(uniform_len(tail, l));
        lemma_concat_len_uniform(tail, l);
        assert(bs[0].len() == l);
        assert(i * l == 0 && (i + 1) * l == l as int) by (nonlinear_arith)
            requires
                i == 0,
                0 <= l,
        ;
        assert(concat_blobs(bs).subrange(0, l as int) =~= bs[0]);
    } else {
        let tail = bs.subrange(1, bs.len() as int);
        assert(uniform_len(tail, l));
        lemma_concat_chunk(tail, l, i - 1);
        lemma_concat_len_uniform(tail, l);
        assert(bs[0].len() == l);
        assert(0 <= (i - 1) * l && (i - 1) * l + l == i * l && i * l + l == (i + 1) * l) by (nonlinear_arith)
            requires
                1 <= i,
                0 <= l,
        ;
        assert(i * l <= concat_blobs(tail).len()) by (nonlinear_arith)
            requires
                i < bs.len(),
                concat_blobs(tail).len() == (bs.len() - 1) * l,
                0 <= l,
        ;
        assert(concat_blobs(bs).subrange(i * l, (i + 1) * l) =~= concat_blobs(tail).subrange(
            (i - 1) * l,
            i * l,
        ));
        assert(concat_blobs(tail).subrange((i - 1) * l, i * l) == tail[i - 1]);
        assert(tail[i - 1] == bs[i]);
    }
}

/// A vector of byte vectors viewed deeply is exactly its elements' views.
pub proof fn lemma_nested_view(v: Vec<Vec<u8>>)
    ensures
        v.deep_view().len() == v@.len(),
        forall|k: int| 0 <= k < v@.len() ==> #[trigger] v.deep_view()[k] == v@[k]@,
{
    assert forall|k: int| 0 <= k < v@.len() implies #[trigger] v.deep_view()[k] == v@[k]@ by {
        assert(v.deep_view()[k] =~= v@[k]@);
    }
}

/// Frame a batch of ciphertext blobs as one encrypt response. The blobs of a
/// batch all share one byte length under fixed scheme parameters; a batch
/// that violates that cannot be framed and is rejected.
pub fn build_encrypt_response(blobs: &Vec<Vec<u8>>) -> (r: Result<Vec<u8>, ServiceError>)
    requires
        blobs@.len() >= 1,
    ensures
        r is Ok <==> uniform_len(blobs.deep_view(), blobs@[0]@.len()),
        r matches Ok(out) ==> out@ == encrypt_response(
            blobs.deep_view(),
            blobs@[0]@.len() as u64,
        ),
        r matches Err(e) ==> e == ServiceError::Serialization,
{
    let l = blobs[0].len();
    let mut i: usize = 1;
    while i < blobs.len()
        invariant
            1 <= i <= blobs@.len(),
            l == blobs@[0]@.len(),
            forall|k: int| 0 <= k < i ==> (#[trigger] blobs.deep_view()[k]).len() == l,
        decreases blobs@.len() - i,
    {
        if blobs[i].len() != l {
            proof {
                assert(blobs.deep_view()[i as int].len() != l);
            }
            return Err(ServiceError::Serialization);
        }
        i = i + 1;
    }
    let mut out = u64_to_be_bytes(l as u64);
    let mut b: usize = 0;
    while b < blobs.len()
        invariant
            b <= blobs@.len(),
            l == blobs@[0]@.len(),
            uniform_len(blobs.deep_view(), l as nat),
            out@ == u64_be_bytes(l as u64) + concat_blobs(blobs.deep_view().subrange(0, b as int)),
        decreases blobs@.len() - b,
    {
        let blob = &blobs[b];
        let mut j: usize = 0;
        while j < blob.len()
            invariant
                j <= blob@.len(),
                blob@ == blobs.deep_view()[b as int],
                b < blobs@.len(),
                out@ == u64_be_bytes(l as u64) + concat_blobs(
                    blobs.deep_view().subrange(0, b as int),
                ) + blob@.subrange(0, j as int),
            decreases blob@.len() - j,
        {
            out.push(blob[j]);
            proof {
                assert(blob@.subrange(0, j + 1) =~= blob@.subrange(0, j as int).push(blob@[j as int]));
                assert(out@ =~= u64_be_bytes(l as u64) + concat_blobs(
                    blobs.deep_view().subrange(0, b as int),
                ) + blob@.subrange(0, j + 1));
            }
            j = j + 1;
        }
        proof {
            lemma_concat_push(blobs.deep_view().subrange(0, b as int), blob@);
            assert(blobs.deep_view().subrange(0, b + 1) =~= blobs.deep_view().subrange(
                0,
                b as int,
            ).push(blob@));
            assert(blob@.subrange(0, blob@.len() as int) =~= blob@);
            assert(out@ =~= u64_be_bytes(l as u64) + concat_blobs(
                blobs.deep_view().subrange(0, b + 1),
            ));
        }
        b = b + 1;
    }
    proof {
        assert(blobs.deep_view().subrange(0, blobs@.len() as int) =~= blobs.deep_view());
    }
    Ok(out)
}

/// Whether a byte string is a well-framed encrypt response for `count` blobs:
/// the eight-byte prefix states the shared length, and exactly `count` blobs
/// of that length follow. A corrupted length shows up as a truncated or
/// overlong body.
pub open spec fn well_framed(bytes: Seq<u8>, count: nat) -> bool {
    bytes.len() >= 8 && bytes.len() - 8 == count * u64_of_be(bytes.subrange(0, 8))
}

/// What splitting a framed response yields: the `count` blobs, in order, or
/// nothing where the framing does not hold.
pub open spec fn split_response(bytes: Seq<u8>, count: nat) -> Option<Seq<Seq<u8>>> {
    let l = u64_of_be(bytes.subrange(0, 8));
    if well_framed(bytes, count) {
        Some(Seq::new(count, |i: int| bytes.subrange(8 + i * l, 8 + (i + 1) * l)))
    } else {
        None
    }
}

/// Split an encrypt response into its `count` equal-length blobs, rejecting
/// any byte string whose length prefix does not match its body.
pub fn split_encrypt_response(bytes: &Vec<u8>, count: usize) -> (r: Result<
    Vec<Vec<u8>>,
    ServiceError,
>)
    requires
        count >= 1,
    ensures
        r is Ok <==> split_response(bytes@, count as nat) is Some,
        r matches Ok(bs) ==> Some(bs.deep_view()) == split_response(bytes@, count as nat),
        r matches Err(e) ==> e == ServiceError::Serialization,
{
    if bytes.len() < 8 {
        return Err(ServiceError::Serialization);
    }
    let l = crate::bytes::u64_from_be_bytes(bytes);
    let body: usize = bytes.len() - 8;
    if (body as u64) % (count as u64) != 0 || (body as u64) / (count as u64) != l {
        proof {
            vstd::arithmetic::div_mod::lemma_fundamental_div_mod(body as int, count as int);
            if body as nat == count as nat * (l as nat) {
                vstd::arithmetic::div_mod::lemma_div_multiples_vanish(
                    l as int,
                    count as int,
                );
                assert((body as u64) % (count as u64) == 0 && (body as u64) / (count as u64) == l);
            }
            assert(!well_framed(bytes@, count as nat));
        }
        return Err(ServiceError::Serialization);
    }
    proof {
        vstd::arithmetic::div_mod::lemma_fundamental_div_mod(body as int, count as int);
        assert(body as nat == count as nat * (l as nat));
        assert(well_framed(bytes@, count as nat));
        assert(l as nat <= body as nat) by (nonlinear_arith)
            requires
                body as nat == count as nat * (l as nat),
                count >= 1,
                l >= 0,
        ;
    }
    let lu: usize = l as usize;
    let mut bs: Vec<Vec<u8>> = Vec::new();
    let mut i: usize = 0;
    while i < count
        invariant
            i <= count,
            count >= 1,
            bytes@.len() <= usize::MAX,
            bytes@.len() == 8 + body,
            body == count * lu,
            lu as nat == u64_of_be(bytes@.subrange(0, 8)),
            bs@.len() == i,
            forall|k: int| 0 <= k < i ==> #[trigger] bs@[k]@ == bytes@.subrange(
                8 + k * lu,
                8 + (k + 1) * lu,
            ),
        decreases count - i,
    {
        proof {
            assert(i * lu + lu <= count * lu) by (nonlinear_arith)
                requires
                    i < count,
                    0 <= lu,
            ;
            assert(0 <= i * lu) by (nonlinear_arith)
                requires
                    0 <= i,
                    0 <= lu,
            ;
        }
        let base: usize = 8 + i * lu;
        let mut chunk: Vec<u8> = Vec::new();
        let mut j: usize = 0;
        while j < lu
            invariant
                j <= lu,
                base == 8 + i * lu,
                i * lu + lu <= count * lu,
                0 <= i * lu,
                bytes@.len() <= usize::MAX,
                bytes@.len() == 8 + count * lu,
                chunk@ == bytes@.subrange(base as int, base + j),
            decreases lu - j,
        {
            chunk.push(bytes[base + j]);
            proof {
                assert(chunk@ =~= bytes@.subrange(base as int, base + j + 1));
            }
            j = j + 1;
        }
        bs.push(chunk);
        proof {
            assert(bs@[i as int]@ == bytes@.subrange(8 + i * lu, 8 + i * lu + lu));
            assert(8 + (i + 1) * lu == 8 + i * lu + lu) by (nonlinear_arith);
        }
        i = i + 1;
    }
    proof {
        lemma_nested_view(bs);
        let expect = split_response(bytes@, count as nat).unwrap();
        assert(bs.deep_view() =~~= expect);
    }
    Ok(bs)
}

/// Framing integrity, both ways: a response framed from a uniform batch of
/// blobs splits back into exactly that batch.
pub proof fn lemma_frame_round_trip(bs: Seq<Seq<u8>>, l: u64)
    requires
        bs.len() >= 1,
        uniform_len(bs, l as nat),
    ensures
        split_response(encrypt_response(bs, l), bs.len()) == Some(bs),
{
    let bytes = encrypt_response(bs, l);
    crate::bytes::lemma_u64_be_round_trip(l);
    assert(u64_be_bytes(l).len() == 8);
    assert(bytes.subrange(0, 8) =~= u64_be_bytes(l));
    lemma_concat_len_uniform(bs, l as nat);
    assert(well_framed(bytes, bs.len()));
    let got = split_response(bytes, bs.len()).unwrap();
    assert forall|i: int| 0 <= i < bs.len() implies got[i] == bs[i] by {
        lemma_concat_chunk(bs, l as nat, i);
        assert(0 <= i * l && (i + 1) * l == i * l + l && (i + 1) * l <= bs.len() * l)
            by (nonlinear_arith)
            requires
                0 <= i < bs.len(),
                0 <= l,
        ;
        assert(bytes.subrange(8 + i * l, 8 + (i + 1) * l) =~= concat_blobs(bs).subrange(
            i * l,
            (i + 1) * l,
        ));
    }
    assert(got =~= bs);
}

} // verus!
