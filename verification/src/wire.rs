//! Byte-level pieces of the wire format: big-endian length fields, UTF-8
//! text, and why a received buffer holds no message.
use vstd::prelude::*;

verus! {

/// Why a received buffer does not hold a message.
pub enum WireError {
    /// The buffer ends before the message does.
    Incomplete,
    /// A text field is not UTF-8; the message is `String::from_utf8`'s error text.
    InvalidUtf8(String),
}

/// A [`WireError`] as a mathematical value.
pub enum WireErrorView {
    Incomplete,
    InvalidUtf8(Seq<char>),
}

impl View for WireError {
    type V = WireErrorView;

    open spec fn view(&self) -> WireErrorView {
        match self {
            WireError::Incomplete => WireErrorView::Incomplete,
            WireError::InvalidUtf8(m) => WireErrorView::InvalidUtf8(m@),
        }
    }
}

/// The UTF-8 bytes of a text.
pub open spec fn utf8(s: Seq<char>) -> Seq<u8> {
    vstd::utf8::encode_utf8(s)
}

/// Appends the bytes of `src` to `out`.
pub fn extend_bytes(out: &mut Vec<u8>, src: &[u8])
    ensures
        final(out)@ == old(out)@ + src@,
{
    out.extend_from_slice(src);
    proof {
        assert(out@ =~= old(out)@ + src@) by {
            assert forall|i: int| 0 <= i < out@.len() implies #[trigger] out@[i] == (
            old(out)@ + src@)[i] by {
                if i >= old(out)@.len() {
                    assert(cloned::<u8>(src@[i - old(out)@.len()], out@[i]));
                }
            }
        }
    }
}

/// A copy of `src[start..end]`.
pub fn copy_range(src: &[u8], start: usize, end: usize) -> (res: Vec<u8>)
    requires
        start <= end <= src@.len(),
    ensures
        res@ == src@.subrange(start as int, end as int),
{
    let mut out: Vec<u8> = Vec::new();
    extend_bytes(&mut out, &src[start..end]);
    proof {
        assert(out@ =~= src@.subrange(start as int, end as int));
    }
    out
}

/// Number of bytes used for every length field on the wire.
pub const LEN_FIELD_BYTES: usize = 8;

/// `256` to the power `n`.
pub open spec fn pow256(n: nat) -> nat
    decreases n,
{
    if n == 0 {
        1
    } else {
        256 * pow256((n - 1) as nat)
    }
}

/// The number denoted by `s` read as big-endian base-256 digits.
pub open spec fn be_value(s: Seq<u8>) -> nat
    decreases s.len(),
{
    if s.len() == 0 {
        0
    } else {
        be_value(s.drop_last()) * 256 + s.last() as nat
    }
}

/// The `n` lowest base-256 digits of `v`, most significant first.
pub open spec fn be_bytes(v: nat, n: nat) -> Seq<u8>
    decreases n,
{
    if n == 0 {
        Seq::empty()
    } else {
        be_bytes(v / 256, (n - 1) as nat).push((v % 256) as u8)
    }
}

/// A big-endian value of `s.len()` digits is below `256^len`.
pub proof fn lemma_be_value_bound(s: Seq<u8>)
    ensures
        be_value(s) < pow256(s.len()),
    decreases s.len(),
{
    if s.len() > 0 {
        lemma_be_value_bound(s.drop_last());
    }
}

/// Encoding a value that fits in `n` digits and reading it back gives the value.
pub proof fn lemma_be_value_of_bytes(v: nat, n: nat)
    requires
        v < pow256(n),
    ensures
        be_bytes(v, n).len() == n,
        be_value(be_bytes(v, n)) == v,
    decreases n,
{
    if n > 0 {
        lemma_be_value_of_bytes(v / 256, (n - 1) as nat);
        assert(be_bytes(v, n).drop_last() =~= be_bytes(v / 256, (n - 1) as nat));
    }
}

/// Reading `s` as a number and encoding it in `s.len()` digits gives back `s`.
pub proof fn lemma_be_bytes_of_value(s: Seq<u8>)
    ensures
        be_bytes(be_value(s), s.len()) == s,
    decreases s.len(),
{
    if s.len() > 0 {
        let x = be_value(s.drop_last());
        let b = s.last() as nat;
        assert((x * 256 + b) / 256 == x);
        assert((x * 256 + b) % 256 == b);
        lemma_be_bytes_of_value(s.drop_last());
        assert(s =~= s.drop_last().push(s.last()));
    }
}

pub proof fn lemma_pow256_8()
    ensures
        pow256(8) == 0x1_0000_0000_0000_0000,
{
    reveal_with_fuel(pow256, 9);
}

/// Appends the `n` lowest big-endian digits of `v` to `out`.
fn push_be_digits(v: u64, n: usize, out: &mut Vec<u8>)
    ensures
        final(out)@ == old(out)@ + be_bytes(v as nat, n as nat),
    decreases n,
{
    if n > 0 {
        push_be_digits(v / 256, n - 1, out);
        out.push((v % 256) as u8);
    }
}

/// Appends the eight big-endian bytes of `v` to `out` (what `u64::to_be_bytes` writes).
pub fn put_u64_be(out: &mut Vec<u8>, v: u64)
    ensures
        final(out)@ == old(out)@ + be_bytes(v as nat, 8),
        be_bytes(v as nat, 8).len() == 8,
        be_value(be_bytes(v as nat, 8)) == v,
{
    push_be_digits(v, LEN_FIELD_BYTES, out);
    proof {
        lemma_len_field(v as nat);
    }
}

/// The eight big-endian bytes of `v`.
pub fn encode_u64_be(v: u64) -> (res: Vec<u8>)
    ensures
        res@ == be_bytes(v as nat, 8),
        res@.len() == 8,
{
    let mut out: Vec<u8> = Vec::new();
    put_u64_be(&mut out, v);
    out
}

/// Reads the eight bytes of `bytes` starting at `start` as a big-endian number
/// (what `u64::from_be_bytes` computes).
pub fn decode_u64_be_at(bytes: &[u8], start: usize) -> (res: u64)
    requires
        start + 8 <= bytes@.len(),
    ensures
        res == be_value(bytes@.subrange(start as int, start + 8)),
{
    let mut acc: u64 = 0;
    let mut i: usize = 0;
    proof {
        lemma_pow256_8();
    }
    while i < 8
        invariant
            i <= 8,
            start + 8 <= bytes.len(),
            pow256(8) == 0x1_0000_0000_0000_0000,
            acc == be_value(bytes@.subrange(start as int, start + i)),
        decreases 8 - i,
    {
        let ghost prefix = bytes@.subrange(start as int, start + i);
        let ghost next = bytes@.subrange(start as int, start + i + 1);
        proof {
            assert(next.drop_last() =~= prefix);
            lemma_be_value_bound(next);
            assert(pow256(next.len()) <= pow256(8)) by {
                lemma_pow256_mono(next.len(), 8);
            }
        }
        acc = acc * 256 + bytes[start + i] as u64;
        i = i + 1;
    }
    acc
}

/// Reads an eight-byte big-endian number.
pub fn decode_u64_be(bytes: &[u8]) -> (res: u64)
    requires
        bytes@.len() == 8,
    ensures
        res == be_value(bytes@),
{
    let r = decode_u64_be_at(bytes, 0);
    assert(bytes@.subrange(0, 8) =~= bytes@);
    r
}

proof fn lemma_pow256_mono(a: nat, b: nat)
    requires
        a <= b,
    ensures
        pow256(a) <= pow256(b),
    decreases b,
{
    if a < b {
        lemma_pow256_mono(a, (b - 1) as nat);
    }
}

/// Decoding what `encode_u64_be` wrote gives back the number.
pub proof fn law_u64_be_roundtrip(v: u64)
    ensures
        be_value(be_bytes(v as nat, 8)) == v,
        be_bytes(v as nat, 8).len() == 8,
{
    lemma_len_field(v as nat);
}

/// Every eight-byte field decodes to a number that encodes back to the same bytes.
pub proof fn law_u64_be_bytes_roundtrip(s: Seq<u8>)
    requires
        s.len() == 8,
    ensures
        be_value(s) <= u64::MAX,
        be_bytes(be_value(s), 8) == s,
{
    lemma_pow256_8();
    lemma_be_value_bound(s);
    lemma_be_bytes_of_value(s);
}


/// An eight-byte length field is read most significant byte first.
pub proof fn law_be_value_eight(s: Seq<u8>)
    requires
        s.len() == 8,
    ensures
        be_value(s) == s[0] as nat * 0x100_0000_0000_0000 + s[1] as nat * 0x1_0000_0000_0000
            + s[2] as nat * 0x100_0000_0000 + s[3] as nat * 0x1_0000_0000 + s[4] as nat
            * 0x100_0000 + s[5] as nat * 0x1_0000 + s[6] as nat * 0x100 + s[7] as nat,
{
    assert(s.take(0) =~= Seq::<u8>::empty());
    assert(be_value(s.take(0)) == 0);
    assert(s.take(1).drop_last() =~= s.take(0));
    assert(s.take(2).drop_last() =~= s.take(1));
    assert(s.take(3).drop_last() =~= s.take(2));
    assert(s.take(4).drop_last() =~= s.take(3));
    assert(s.take(5).drop_last() =~= s.take(4));
    assert(s.take(6).drop_last() =~= s.take(5));
    assert(s.take(7).drop_last() =~= s.take(6));
    assert(s.drop_last() =~= s.take(7));
    assert(be_value(s.take(1)) == be_value(s.take(0)) * 256 + s[0] as nat);
    assert(be_value(s.take(2)) == be_value(s.take(1)) * 256 + s[1] as nat);
    assert(be_value(s.take(3)) == be_value(s.take(2)) * 256 + s[2] as nat);
    assert(be_value(s.take(4)) == be_value(s.take(3)) * 256 + s[3] as nat);
    assert(be_value(s.take(5)) == be_value(s.take(4)) * 256 + s[4] as nat);
    assert(be_value(s.take(6)) == be_value(s.take(5)) * 256 + s[5] as nat);
    assert(be_value(s.take(7)) == be_value(s.take(6)) * 256 + s[6] as nat);
    assert(be_value(s) == be_value(s.take(7)) * 256 + s[7] as nat);
}

/// Reading back the eight-byte field that `be_bytes` wrote for `v`.
pub proof fn lemma_len_field(v: nat)
    requires
        v <= u64::MAX,
    ensures
        be_bytes(v, 8).len() == 8,
        be_value(be_bytes(v, 8)) == v,
{
    lemma_pow256_8();
    lemma_be_value_of_bytes(v, 8);
}

/// UTF-8 text decodes to itself.
pub proof fn lemma_utf8_roundtrip(s: Seq<char>)
    ensures
        vstd::utf8::valid_utf8(utf8(s)),
        vstd::utf8::decode_utf8(utf8(s)) == s,
{
    vstd::utf8::encode_utf8_valid_utf8(s);
    vstd::utf8::encode_utf8_decode_utf8(s);
}

/// Valid UTF-8 bytes are the encoding of what they decode to.
pub proof fn lemma_utf8_bytes_roundtrip(b: Seq<u8>)
    requires
        vstd::utf8::valid_utf8(b),
    ensures
        utf8(vstd::utf8::decode_utf8(b)) == b,
{
    vstd::utf8::decode_utf8_encode_utf8(b);
}

} // verus!
