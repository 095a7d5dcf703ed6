use vstd::prelude::*;

verus! {

/// A run of `n` zero bytes.
pub open spec fn zeros(n: nat) -> Seq<u8> {
    Seq::new(n, |i: int| 0u8)
}

/// The four bytes of `value`, the least significant first.
pub open spec fn u32_le(value: u32) -> Seq<u8> {
    let q0 = value as nat;
    let q1 = q0 / 256;
    let q2 = q1 / 256;
    let q3 = q2 / 256;
    seq![(q0 % 256) as u8, (q1 % 256) as u8, (q2 % 256) as u8, (q3 % 256) as u8]
}

/// The number that four bytes spell, the least significant first.
pub open spec fn u32_from_le(bytes: Seq<u8>) -> u32
    recommends
        bytes.len() == 4,
{
    (bytes[0] + 256 * (bytes[1] + 256 * (bytes[2] + 256 * bytes[3]))) as u32
}

/// The eight bytes of `value`, the least significant first.
pub open spec fn u64_le(value: u64) -> Seq<u8> {
    let q0 = value as nat;
    let q1 = q0 / 256;
    let q2 = q1 / 256;
    let q3 = q2 / 256;
    let q4 = q3 / 256;
    let q5 = q4 / 256;
    let q6 = q5 / 256;
    let q7 = q6 / 256;
    seq![
        (q0 % 256) as u8,
        (q1 % 256) as u8,
        (q2 % 256) as u8,
        (q3 % 256) as u8,
        (q4 % 256) as u8,
        (q5 % 256) as u8,
        (q6 % 256) as u8,
        (q7 % 256) as u8,
    ]
}

/// The number that eight bytes spell, the least significant first.
pub open spec fn u64_from_le(bytes: Seq<u8>) -> u64
    recommends
        bytes.len() == 8,
{
    (bytes[0] + 256 * (bytes[1] + 256 * (bytes[2] + 256 * (bytes[3] + 256 * (bytes[4] + 256 * (
        bytes[5] + 256 * (bytes[6] + 256 * bytes[7]))))))) as u64
}

/// Four bytes spell the number that they were made of, and a number gives
/// the bytes that spell it.
pub proof fn lemma_u32_le(value: u32, bytes: Seq<u8>)
    ensures
        u32_le(value).len() == 4,
        u32_from_le(u32_le(value)) == value,
        bytes.len() == 4 ==> u32_le(u32_from_le(bytes)) == bytes,
{
    if bytes.len() == 4 {
        assert(u32_le(u32_from_le(bytes)) =~= bytes);
    }
}

/// Eight bytes spell the number that they were made of, and a number gives
/// the bytes that spell it.
pub proof fn lemma_u64_le(value: u64, bytes: Seq<u8>)
    ensures
        u64_le(value).len() == 8,
        u64_from_le(u64_le(value)) == value,
        bytes.len() == 8 ==> u64_le(u64_from_le(bytes)) == bytes,
{
    if bytes.len() == 8 {
        assert(u64_le(u64_from_le(bytes)) =~= bytes);
    }
}

/// Appends `src` to `out`.
pub(crate) fn extend(out: &mut Vec<u8>, src: &[u8])
    ensures
        final(out)@ == old(out)@ + src@,
{
    let mut i: usize = 0;
    while i < src.len()
        invariant
            i <= src@.len(),
            out@ == old(out)@ + src@.subrange(0, i as int),
        decreases src@.len() - i,
    {
        out.push(src[i]);
        i += 1;
        assert(out@ =~= old(out)@ + src@.subrange(0, i as int));
    }
    assert(src@.subrange(0, src@.len() as int) =~= src@);
}

/// Appends `n` zero bytes to `out`.
pub(crate) fn extend_zeros(out: &mut Vec<u8>, n: usize)
    ensures
        final(out)@ == old(out)@ + zeros(n as nat),
{
    let mut i: usize = 0;
    while i < n
        invariant
            i <= n,
            out@ == old(out)@ + zeros(i as nat),
        decreases n - i,
    {
        out.push(0u8);
        i += 1;
        assert(out@ =~= old(out)@ + zeros(i as nat));
    }
}

/// Appends the four bytes of `value`, the least significant first.
pub(crate) fn extend_u32_le(out: &mut Vec<u8>, value: u32)
    ensures
        final(out)@ == old(out)@ + u32_le(value),
{
    let mut rest: u32 = value;
    let mut i: usize = 0;
    while i < 4
        invariant
            i <= 4,
            out@.len() == old(out)@.len() + i,
            out@.subrange(0, old(out)@.len() as int) == old(out)@,
            forall|j: int| 0 <= j < i ==> out@[old(out)@.len() + j] == u32_le(value)[j],
            i == 0 ==> rest == value,
            i == 1 ==> rest == value as nat / 256,
            i == 2 ==> rest == value as nat / 256 / 256,
            i == 3 ==> rest == value as nat / 256 / 256 / 256,
        decreases 4 - i,
    {
        out.push((rest % 256) as u8);
        rest = rest / 256;
        i += 1;
    }
    assert(out@ =~= old(out)@ + u32_le(value));
}

/// Appends the eight bytes of `value`, the least significant first.
pub(crate) fn extend_u64_le(out: &mut Vec<u8>, value: u64)
    ensures
        final(out)@ == old(out)@ + u64_le(value),
{
    let mut rest: u64 = value;
    let mut i: usize = 0;
    while i < 8
        invariant
            i <= 8,
            out@.len() == old(out)@.len() + i,
            out@.subrange(0, old(out)@.len() as int) == old(out)@,
            forall|j: int| 0 <= j < i ==> out@[old(out)@.len() + j] == u64_le(value)[j],
            i == 0 ==> rest == value,
            i == 1 ==> rest == value as nat / 256,
            i == 2 ==> rest == value as nat / 256 / 256,
            i == 3 ==> rest == value as nat / 256 / 256 / 256,
            i == 4 ==> rest == value as nat / 256 / 256 / 256 / 256,
            i == 5 ==> rest == value as nat / 256 / 256 / 256 / 256 / 256,
            i == 6 ==> rest == value as nat / 256 / 256 / 256 / 256 / 256 / 256,
            i == 7 ==> rest == value as nat / 256 / 256 / 256 / 256 / 256 / 256 / 256,
        decreases 8 - i,
    {
        out.push((rest % 256) as u8);
        rest = rest / 256;
        i += 1;
    }
    assert(out@ =~= old(out)@ + u64_le(value));
}

/// Reads the number that the four bytes from `at` on spell.
pub(crate) fn read_u32_le(data: &[u8], at: usize) -> (value: u32)
    requires
        at + 4 <= data@.len(),
    ensures
        value == u32_from_le(data@.subrange(at as int, at + 4)),
{
    let b0: u32 = data[at] as u32;
    let b1: u32 = data[at + 1] as u32;
    let b2: u32 = data[at + 2] as u32;
    let b3: u32 = data[at + 3] as u32;
    b0 + 256 * (b1 + 256 * (b2 + 256 * b3))
}

/// Reads the number that the eight bytes from `at` on spell.
pub(crate) fn read_u64_le(data: &[u8], at: usize) -> (value: u64)
    requires
        at + 8 <= data@.len(),
    ensures
        value == u64_from_le(data@.subrange(at as int, at + 8)),
{
    let b0: u64 = data[at] as u64;
    let b1: u64 = data[at + 1] as u64;
    let b2: u64 = data[at + 2] as u64;
    let b3: u64 = data[at + 3] as u64;
    let b4: u64 = data[at + 4] as u64;
    let b5: u64 = data[at + 5] as u64;
    let b6: u64 = data[at + 6] as u64;
    let b7: u64 = data[at + 7] as u64;
    b0 + 256 * (b1 + 256 * (b2 + 256 * (b3 + 256 * (b4 + 256 * (b5 + 256 * (b6 + 256 * b7))))))
}

} // verus!
