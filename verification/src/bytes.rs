//! Byte strings, little-endian fields and fixed-size blocks.

use vstd::prelude::*;

verus! {

/// `n` zero bytes.
pub open spec fn zeros(n: nat) -> Seq<u8> {
    Seq::new(n, |i: int| 0u8)
}

/// The two bytes of `value`, least significant first.
pub open spec fn le16(value: u16) -> Seq<u8> {
    seq![(value % 256) as u8, (value / 256) as u8]
}

/// The two bytes of `value`, most significant first.
pub open spec fn be16(value: u16) -> Seq<u8> {
    seq![(value / 256) as u8, (value % 256) as u8]
}

/// The four bytes of `value`, least significant first.
pub open spec fn le32(value: u32) -> Seq<u8> {
    seq![
        (value % 256) as u8,
        (value / 256 % 256) as u8,
        (value / 65536 % 256) as u8,
        (value / 16777216) as u8,
    ]
}

/// The number whose little-endian byte string is `bytes`.
pub open spec fn le_value(bytes: Seq<u8>) -> nat
    decreases bytes.len(),
{
    if bytes.len() == 0 {
        0
    } else {
        bytes[0] as nat + 256 * le_value(bytes.skip(1))
    }
}

/// The 16-bit word that two bytes spell, least significant first.
pub open spec fn word16(b0: u8, b1: u8) -> u16 {
    (b0 as int + 256 * b1 as int) as u16
}

/// The 32-bit word that four bytes spell, least significant first.
pub open spec fn word32(b0: u8, b1: u8, b2: u8, b3: u8) -> u32 {
    (b0 as int + 256 * b1 as int + 65536 * b2 as int + 16777216 * b3 as int) as u32
}

/// `whole` with the bytes from `at` on replaced by `part`.
pub open spec fn overwritten(whole: Seq<u8>, at: int, part: Seq<u8>) -> Seq<u8> {
    whole.subrange(0, at) + part + whole.subrange(at + part.len(), whole.len() as int)
}

/// The first `width` bytes of `value`, filled up with zero bytes to `width`.
pub open spec fn fitted(value: Seq<u8>, width: nat) -> Seq<u8> {
    Seq::new(width, |i: int| if i < value.len() { value[i] } else { 0u8 })
}

/// The bytes of `value` in front of its first zero byte, or all of them.
pub open spec fn until_nul(value: Seq<u8>) -> Seq<u8>
    decreases value.len(),
{
    if value.len() == 0 || value[0] == 0 {
        Seq::empty()
    } else {
        seq![value[0]] + until_nul(value.skip(1))
    }
}

/// At most the first `limit` bytes of `value`.
pub open spec fn at_most(value: Seq<u8>, limit: nat) -> Seq<u8> {
    if value.len() <= limit {
        value
    } else {
        value.take(limit as int)
    }
}

/// `until_nul` is the longest prefix of `value` without a zero byte.
pub proof fn lemma_until_nul(value: Seq<u8>, n: int)
    requires
        0 <= n <= value.len(),
        forall|i: int| 0 <= i < n ==> value[i] != 0,
        n == value.len() || value[n] == 0,
    ensures
        until_nul(value) == value.take(n),
    decreases value.len(),
{
    if n > 0 {
        let rest = value.skip(1);
        assert forall|i: int| 0 <= i < n - 1 implies rest[i] != 0 by {
            assert(rest[i] == value[i + 1]);
        }
        assert(n - 1 == rest.len() || rest[n - 1] == value[n]);
        lemma_until_nul(rest, n - 1);
        assert(seq![value[0]] + rest.take(n - 1) =~= value.take(n));
    } else {
        assert(value.take(0) =~= Seq::<u8>::empty());
    }
}

/// Reading the little-endian bytes of a 32-bit word gives the word back.
pub proof fn lemma_le32_roundtrip(value: u32)
    ensures
        le32(value).len() == 4,
        word32(le32(value)[0], le32(value)[1], le32(value)[2], le32(value)[3]) == value,
        le_value(le32(value)) == value,
{
    let bytes = le32(value);
    assert(value % 256 + 256 * (value / 256 % 256) + 65536 * (value / 65536 % 256) + 16777216 * (
    value / 16777216) == value);
    reveal_with_fuel(le_value, 5);
    assert(bytes.skip(1).skip(1).skip(1).skip(1).len() == 0);
    assert(bytes.skip(1)[0] == bytes[1]);
    assert(bytes.skip(1).skip(1)[0] == bytes[2]);
    assert(bytes.skip(1).skip(1).skip(1)[0] == bytes[3]);
}

/// Writing the word that four bytes spell gives the bytes back.
pub proof fn lemma_word32_roundtrip(b0: u8, b1: u8, b2: u8, b3: u8)
    ensures
        le32(word32(b0, b1, b2, b3)) == seq![b0, b1, b2, b3],
{
    let w = word32(b0, b1, b2, b3);
    let c0 = b0 as u32;
    let c1 = b1 as u32;
    let c2 = b2 as u32;
    let c3 = b3 as u32;
    assert(w % 256 == c0 && w / 256 % 256 == c1 && w / 65536 % 256 == c2 && w / 16777216 == c3)
        by (bit_vector)
        requires
            c0 < 256,
            c1 < 256,
            c2 < 256,
            c3 < 256,
            w == c0 + 256 * c1 + 65536 * c2 + 16777216 * c3,
    ;
    assert(le32(w) =~= seq![b0, b1, b2, b3]);
}

/// Appends `part` to `out`.
pub fn append(out: &mut Vec<u8>, part: &[u8])
    ensures
        final(out)@ == old(out)@ + part@,
{
    let mut i: usize = 0;
    while i < part.len()
        invariant
            i <= part@.len(),
            out@ == old(out)@ + part@.take(i as int),
        decreases part@.len() - i,
    {
        out.push(part[i]);
        assert(part@.take(i + 1) =~= part@.take(i as int).push(part@[i as int]));
        i += 1;
    }
    assert(part@.take(part@.len() as int) =~= part@);
}

/// Appends `count` zero bytes to `out`.
pub fn append_zeros(out: &mut Vec<u8>, count: usize)
    ensures
        final(out)@ == old(out)@ + zeros(count as nat),
{
    let mut i: usize = 0;
    while i < count
        invariant
            i <= count,
            out@ == old(out)@ + zeros(i as nat),
        decreases count - i,
    {
        out.push(0);
        assert(zeros((i + 1) as nat) =~= zeros(i as nat).push(0u8));
        i += 1;
    }
}

/// The little-endian bytes of `value`.
pub fn le16_bytes(value: u16) -> (bytes: [u8; 2])
    ensures
        bytes@ == le16(value),
{
    [(value % 256) as u8, (value / 256) as u8]
}

/// The big-endian bytes of `value`.
pub fn be16_bytes(value: u16) -> (bytes: [u8; 2])
    ensures
        bytes@ == be16(value),
{
    [(value / 256) as u8, (value % 256) as u8]
}

/// The little-endian bytes of `value`.
pub fn le32_bytes(value: u32) -> (bytes: [u8; 4])
    ensures
        bytes@ == le32(value),
{
    [
        (value % 256) as u8,
        (value / 256 % 256) as u8,
        (value / 65536 % 256) as u8,
        (value / 16777216) as u8,
    ]
}

/// The 16-bit word that two bytes spell, least significant first.
pub fn word16_of(b0: u8, b1: u8) -> (word: u16)
    ensures
        word == word16(b0, b1),
{
    b0 as u16 + 256 * b1 as u16
}

/// The 32-bit word that four bytes spell, least significant first.
pub fn word32_of(b0: u8, b1: u8, b2: u8, b3: u8) -> (word: u32)
    ensures
        word == word32(b0, b1, b2, b3),
{
    b0 as u32 + 256 * b1 as u32 + 65536 * b2 as u32 + 16777216 * b3 as u32
}

/// A copy of `bytes` as a fixed-size array.
pub fn to_array<const N: usize>(bytes: &[u8]) -> (array: [u8; N])
    requires
        bytes@.len() == N,
    ensures
        array@ == bytes@,
{
    let mut array: [u8; N] = [0u8; N];
    let mut i: usize = 0;
    while i < N
        invariant
            bytes@.len() == N,
            i <= N,
            forall|j: int| 0 <= j < i ==> array@[j] == bytes@[j],
        decreases N - i,
    {
        array[i] = bytes[i];
        i += 1;
    }
    assert(array@ =~= bytes@);
    array
}

/// The `N` bytes of `bytes` from `from` on, as a fixed-size array.
pub fn array_at<const N: usize>(bytes: &[u8], from: usize) -> (array: [u8; N])
    requires
        from + N <= bytes@.len(),
    ensures
        array@ == bytes@.subrange(from as int, from + N),
{
    let total: usize = bytes.len();
    assert(from + N <= total);
    to_array::<N>(vstd::slice::slice_subrange(bytes, from, from + N))
}

/// Replaces the bytes of `whole` from `at` on by `part`.
pub fn overwrite(whole: &mut [u8], at: usize, part: &[u8])
    requires
        at + part@.len() <= old(whole)@.len(),
    ensures
        final(whole)@ == overwritten(old(whole)@, at as int, part@),
{
    let total: usize = whole.len();
    let mut i: usize = 0;
    while i < part.len()
        invariant
            total == whole@.len(),
            at + part@.len() <= total,
            i <= part@.len(),
            whole@.len() == old(whole)@.len(),
            forall|j: int|
                0 <= j < total ==> whole@[j] == (if at <= j < at + i {
                    part@[j - at]
                } else {
                    old(whole)@[j]
                }),
        decreases part@.len() - i,
    {
        whole[at + i] = part[i];
        i += 1;
    }
    assert(whole@ =~= overwritten(old(whole)@, at as int, part@));
}

/// The number of bytes of `value` in front of its first zero byte.
pub fn nul_position(value: &[u8]) -> (n: usize)
    ensures
        n <= value@.len(),
        until_nul(value@) == value@.take(n as int),
{
    let mut n: usize = 0;
    while n < value.len() && value[n] != 0
        invariant
            n <= value@.len(),
            forall|i: int| 0 <= i < n ==> value@[i] != 0,
        decreases value@.len() - n,
    {
        n += 1;
    }
    proof {
        lemma_until_nul(value@, n as int);
    }
    n
}

/// `value` cut or zero-filled to `width` bytes.
pub fn fit(value: &[u8], width: usize) -> (field: Vec<u8>)
    ensures
        field@ == fitted(value@, width as nat),
{
    let mut field: Vec<u8> = Vec::new();
    let mut i: usize = 0;
    while i < width
        invariant
            i <= width,
            field@ == fitted(value@, i as nat),
        decreases width - i,
    {
        let byte: u8 = if i < value.len() {
            value[i]
        } else {
            0
        };
        field.push(byte);
        assert(fitted(value@, (i + 1) as nat) =~= fitted(value@, i as nat).push(byte));
        i += 1;
    }
    field
}

/// The bytes of a number count up to it, least significant first or most significant first.
pub proof fn law_the_bytes_of_numbers(short: u16, long: u32)
    ensures
        le16(short).len() == 2 && be16(short).len() == 2 && le32(long).len() == 4,
        short == le16(short)[0] + le16(short)[1] * 0x100,
        short == be16(short)[0] * 0x100 + be16(short)[1],
        long == le32(long)[0] + le32(long)[1] * 0x100 + le32(long)[2] * 0x1_0000 + le32(long)[3]
            * 0x100_0000,
{
    lemma_le32_roundtrip(long);
}

/// The words that bytes spell count the first byte least.
pub proof fn law_the_words_of_bytes(b0: u8, b1: u8, b2: u8, b3: u8)
    ensures
        word16(b0, b1) % 256 == b0,
        word16(b0, b1) / 256 == b1,
        word32(b0, b1, b2, b3) % 0x1_0000 == b0 + b1 * 0x100,
        word32(b0, b1, b2, b3) / 0x1_0000 == b2 + b3 * 0x100,
        le_value(seq![b0, b1, b2, b3]) == b0 + b1 * 0x100 + b2 * 0x1_0000 + b3 * 0x100_0000,
{
    lemma_word32_roundtrip(b0, b1, b2, b3);
    lemma_le32_roundtrip(word32(b0, b1, b2, b3));
}

/// Writing a part changes the bytes that it covers and no others.
pub proof fn law_writing_touches_nothing_else(whole: Seq<u8>, at: int, part: Seq<u8>, i: int)
    requires
        0 <= at,
        at + part.len() <= whole.len(),
        0 <= i < whole.len(),
    ensures
        overwritten(whole, at, part).len() == whole.len(),
        at <= i < at + part.len() ==> overwritten(whole, at, part)[i] == part[i - at],
        i < at || at + part.len() <= i ==> overwritten(whole, at, part)[i] == whole[i],
{
}

/// A value in a field of fixed width begins the field; zeros fill it up, and what is too long is
/// cut off at the end.
pub proof fn law_a_field_has_its_width(value: Seq<u8>, width: nat, i: int)
    requires
        0 <= i < width,
    ensures
        fitted(value, width).len() == width,
        i < value.len() ==> fitted(value, width)[i] == value[i],
        i >= value.len() ==> fitted(value, width)[i] == 0,
        at_most(value, width).len() <= width,
        at_most(value, width).len() == width || at_most(value, width) == value,
        i < at_most(value, width).len() ==> at_most(value, width)[i] == value[i],
{
}

/// What stands before the first zero byte is kept whole, and nothing behind it counts.
pub proof fn law_the_first_zero_byte_ends_the_text(text: Seq<u8>, behind: Seq<u8>)
    requires
        forall|i: int| 0 <= i < text.len() ==> #[trigger] text[i] != 0,
    ensures
        until_nul(text) == text,
        until_nul(text + seq![0u8] + behind) == text,
{
    let whole = text + seq![0u8] + behind;
    lemma_until_nul(text, text.len() as int);
    assert(text.take(text.len() as int) =~= text);
    assert forall|i: int| 0 <= i < text.len() implies whole[i] != 0 by {
        assert(whole[i] == text[i]);
    }
    lemma_until_nul(whole, text.len() as int);
    assert(whole.take(text.len() as int) =~= text);
}

} // verus!
