//! The MD5 message digest (RFC 1321), used for wire compatibility only.

use vstd::prelude::*;

use crate::bytes;

verus! {

/// Left rotation of each of the 64 steps.
pub const ROTATIONS: [u32; 64] = [
    7, 12, 17, 22, 7, 12, 17, 22, 7, 12, 17, 22, 7, 12, 17, 22, 5, 9, 14, 20, 5, 9, 14, 20, 5, 9,
    14, 20, 5, 9, 14, 20, 4, 11, 16, 23, 4, 11, 16, 23, 4, 11, 16, 23, 4, 11, 16, 23, 6, 10, 15,
    21, 6, 10, 15, 21, 6, 10, 15, 21, 6, 10, 15, 21,
];

/// The sine table: entry `i` is the integer part of `2^32 * |sin(i + 1)|`.
pub const CONSTANTS: [u32; 64] = [
    0xd76aa478, 0xe8c7b756, 0x242070db, 0xc1bdceee, 0xf57c0faf, 0x4787c62a, 0xa8304613, 0xfd469501,
    0x698098d8, 0x8b44f7af, 0xffff5bb1, 0x895cd7be, 0x6b901122, 0xfd987193, 0xa679438e, 0x49b40821,
    0xf61e2562, 0xc040b340, 0x265e5a51, 0xe9b6c7aa, 0xd62f105d, 0x02441453, 0xd8a1e681, 0xe7d3fbc8,
    0x21e1cde6, 0xc33707d6, 0xf4d50d87, 0x455a14ed, 0xa9e3e905, 0xfcefa3f8, 0x676f02d9, 0x8d2a4c8a,
    0xfffa3942, 0x8771f681, 0x6d9d6122, 0xfde5380c, 0xa4beea44, 0x4bdecfa9, 0xf6bb4b60, 0xbebfbc70,
    0x289b7ec6, 0xeaa127fa, 0xd4ef3085, 0x04881d05, 0xd9d4d039, 0xe6db99e5, 0x1fa27cf8, 0xc4ac5665,
    0xf4292244, 0x432aff97, 0xab9423a7, 0xfc93a039, 0x655b59c3, 0x8f0ccc92, 0xffeff47d, 0x85845dd1,
    0x6fa87e4f, 0xfe2ce6e0, 0xa3014314, 0x4e0811a1, 0xf7537e82, 0xbd3af235, 0x2ad7d2bb, 0xeb86d391,
];

/// The four chaining words.
#[derive(Clone, Copy)]
pub struct Chain {
    pub a: u32,
    pub b: u32,
    pub c: u32,
    pub d: u32,
}

/// The chaining words before the first block.
pub open spec fn initial() -> Chain {
    Chain { a: 0x67452301, b: 0xefcdab89, c: 0x98badcfe, d: 0x10325476 }
}

/// The eight bytes of `value`, least significant first.
pub open spec fn le64(value: u64) -> Seq<u8> {
    bytes::le32((value % 0x1_0000_0000) as u32) + bytes::le32((value / 0x1_0000_0000) as u32)
}

/// How many zero bytes bring `len + 1` bytes to 56 modulo 64.
pub open spec fn fill(len: nat) -> nat {
    ((55 - len as int) % 64) as nat
}

/// `data`, the end marker, zero bytes and the bit length modulo `2^64`: a whole number of
/// 64-byte blocks.
pub open spec fn padded(data: Seq<u8>) -> Seq<u8> {
    data + seq![0x80u8] + bytes::zeros(fill(data.len())) + le64(
        (8 * data.len() % 0x1_0000_0000_0000_0000) as u64,
    )
}

/// The sixteen little-endian words of block `n`.
pub open spec fn words(padded: Seq<u8>, n: int) -> Seq<u32> {
    Seq::new(
        16,
        |i: int|
            bytes::word32(
                padded[64 * n + 4 * i],
                padded[64 * n + 4 * i + 1],
                padded[64 * n + 4 * i + 2],
                padded[64 * n + 4 * i + 3],
            ),
    )
}

/// The auxiliary function of step `i`.
pub open spec fn mix(i: int, b: u32, c: u32, d: u32) -> u32 {
    if i < 16 {
        (b & c) | (!b & d)
    } else if i < 32 {
        (d & b) | (!d & c)
    } else if i < 48 {
        b ^ c ^ d
    } else {
        c ^ (b | !d)
    }
}

/// The word that step `i` reads.
pub open spec fn word_index(i: int) -> int {
    if i < 16 {
        i
    } else if i < 32 {
        (5 * i + 1) % 16
    } else if i < 48 {
        (3 * i + 5) % 16
    } else {
        (7 * i) % 16
    }
}

/// `value` rotated left by `count` bits.
pub open spec fn rotated(value: u32, count: u32) -> u32 {
    (value << count) | (value >> ((32 - count) as u32))
}

/// Step `i` on the chaining words.
pub open spec fn step(chain: Chain, words: Seq<u32>, i: int) -> Chain {
    let sum = chain.a.wrapping_add(mix(i, chain.b, chain.c, chain.d)).wrapping_add(
        CONSTANTS@[i],
    ).wrapping_add(words[word_index(i)]);
    Chain {
        a: chain.d,
        b: chain.b.wrapping_add(rotated(sum, ROTATIONS@[i])),
        c: chain.b,
        d: chain.c,
    }
}

/// The first `n` steps on the chaining words.
pub open spec fn steps(chain: Chain, words: Seq<u32>, n: nat) -> Chain
    decreases n,
{
    if n == 0 {
        chain
    } else {
        step(steps(chain, words, (n - 1) as nat), words, n - 1)
    }
}

/// The chaining words after the first `n` blocks.
pub open spec fn chained(padded: Seq<u8>, n: nat) -> Chain
    decreases n,
{
    if n == 0 {
        initial()
    } else {
        let before = chained(padded, (n - 1) as nat);
        let after = steps(before, words(padded, n - 1), 64);
        Chain {
            a: before.a.wrapping_add(after.a),
            b: before.b.wrapping_add(after.b),
            c: before.c.wrapping_add(after.c),
            d: before.d.wrapping_add(after.d),
        }
    }
}

/// The chaining words as bytes.
pub open spec fn chain_bytes(chain: Chain) -> Seq<u8> {
    bytes::le32(chain.a) + bytes::le32(chain.b) + bytes::le32(chain.c) + bytes::le32(chain.d)
}

/// The MD5 digest of `data`.
#[verifier::opaque]
pub open spec fn md5(data: Seq<u8>) -> Seq<u8> {
    chain_bytes(chained(padded(data), padded(data).len() / 64))
}

/// A padded message is a whole number of blocks, and at least one.
pub proof fn law_padding_fills_whole_blocks(data: Seq<u8>)
    ensures
        padded(data).len() % 64 == 0,
        padded(data).len() >= 64,
{
}

/// A digest is sixteen bytes long.
pub proof fn lemma_md5_len(data: Seq<u8>)
    ensures
        md5(data).len() == 16,
{
    reveal(md5);
}

fn rotate(value: u32, count: u32) -> (result: u32)
    requires
        0 < count < 32,
    ensures
        result == rotated(value, count),
{
    (value << count) | (value >> (32 - count))
}

fn block_words(padded: &[u8], n: usize) -> (block: [u32; 16])
    requires
        64 * n + 64 <= padded@.len(),
    ensures
        block@ == words(padded@, n as int),
{
    let total: usize = padded.len();
    let mut block = [0u32; 16];
    let mut i: usize = 0;
    while i < 16
        invariant
            total == padded@.len(),
            64 * n + 64 <= total,
            i <= 16,
            forall|j: int| 0 <= j < i ==> block@[j] == words(padded@, n as int)[j],
        decreases 16 - i,
    {
        let at: usize = 64 * n + 4 * i;
        block[i] = bytes::word32_of(padded[at], padded[at + 1], padded[at + 2], padded[at + 3]);
        i += 1;
    }
    assert(block@ =~= words(padded@, n as int));
    block
}

proof fn lemma_rotations()
    ensures
        forall|i: int| 0 <= i < 64 ==> 0 < #[trigger] ROTATIONS@[i] < 32,
{
}

fn run_steps(start: Chain, block: &[u32; 16]) -> (chain: Chain)
    ensures
        chain == steps(start, block@, 64),
{
    let mut chain = start;
    let mut i: usize = 0;
    while i < 64
        invariant
            i <= 64,
            chain == steps(start, block@, i as nat),
        decreases 64 - i,
    {
        let Chain { a, b, c, d } = chain;
        let f: u32 = if i < 16 {
            (b & c) | (!b & d)
        } else if i < 32 {
            (d & b) | (!d & c)
        } else if i < 48 {
            b ^ c ^ d
        } else {
            c ^ (b | !d)
        };
        let g: usize = if i < 16 {
            i
        } else if i < 32 {
            (5 * i + 1) % 16
        } else if i < 48 {
            (3 * i + 5) % 16
        } else {
            (7 * i) % 16
        };
        let sum: u32 = a.wrapping_add(f).wrapping_add(CONSTANTS[i]).wrapping_add(block[g]);
        proof {
            lemma_rotations();
        }
        chain = Chain { a: d, b: b.wrapping_add(rotate(sum, ROTATIONS[i])), c: b, d: c };
        i += 1;
    }
    chain
}

fn padded_message(data: &[u8]) -> (message: Vec<u8>)
    ensures
        message@ == padded(data@),
{
    let len: usize = data.len();
    let bit_len: u64 = (len as u64).wrapping_mul(8);
    let rest: usize = len % 64;
    let zero_count: usize = if rest <= 55 {
        55 - rest
    } else {
        119 - rest
    };
    let mut message: Vec<u8> = Vec::new();
    bytes::append(&mut message, data);
    message.push(0x80);
    bytes::append_zeros(&mut message, zero_count);
    assert(message@ =~= data@ + seq![0x80u8] + bytes::zeros(fill(data@.len())));
    let mut length_field: Vec<u8> = Vec::new();
    bytes::append(&mut length_field, &bytes::le32_bytes((bit_len % 0x1_0000_0000) as u32));
    bytes::append(&mut length_field, &bytes::le32_bytes((bit_len / 0x1_0000_0000) as u32));
    assert(length_field@ =~= le64(bit_len));
    bytes::append(&mut message, &length_field);
    message
}

fn digest_bytes(chain: Chain) -> (result: [u8; 16])
    ensures
        result@ == chain_bytes(chain),
{
    let mut out: Vec<u8> = Vec::new();
    bytes::append(&mut out, &bytes::le32_bytes(chain.a));
    bytes::append(&mut out, &bytes::le32_bytes(chain.b));
    bytes::append(&mut out, &bytes::le32_bytes(chain.c));
    bytes::append(&mut out, &bytes::le32_bytes(chain.d));
    assert(out@ =~= chain_bytes(chain));
    bytes::to_array::<16>(&out)
}

/// The MD5 digest of `data`.
pub fn digest(data: &[u8]) -> (result: [u8; 16])
    ensures
        result@ == md5(data@),
{
    let message = padded_message(data);
    let mut chain = Chain { a: 0x67452301, b: 0xefcdab89, c: 0x98badcfe, d: 0x10325476 };
    let blocks: usize = message.len() / 64;
    let mut n: usize = 0;
    while n < blocks
        invariant
            n <= blocks,
            blocks == message@.len() / 64,
            chain == chained(message@, n as nat),
        decreases blocks - n,
    {
        let block = block_words(&message, n);
        let after = run_steps(chain, &block);
        chain = Chain {
            a: chain.a.wrapping_add(after.a),
            b: chain.b.wrapping_add(after.b),
            c: chain.c.wrapping_add(after.c),
            d: chain.d.wrapping_add(after.d),
        };
        n += 1;
    }
    proof {
        reveal(md5);
    }
    digest_bytes(chain)
}

/// A padded message is the message, one byte `0x80`, fewer than 64 zero bytes, and eight bytes more,
/// which make it a whole number of blocks.
pub proof fn law_the_layout_of_a_padded_message(data: Seq<u8>)
    requires
        data.len() < 0x1000_0000_0000_0000,
    ensures
        padded(data).len() % 64 == 0,
        data.len() + 9 <= padded(data).len() < data.len() + 9 + 64,
        forall|i: int| 0 <= i < data.len() ==> #[trigger] padded(data)[i] == data[i],
        padded(data)[data.len() as int] == 0x80,
        forall|i: int|
            data.len() < i < padded(data).len() - 8 ==> #[trigger] padded(data)[i] == 0,
{
    let low = low_bits(data.len());
    let high = high_bits(data.len());
    lemma_padded(data);
    lemma_front(data, low, high);
}

/// The last eight bytes of a padded message count the bits of the message, the first one least.
pub proof fn law_the_length_ends_a_padded_message(data: Seq<u8>)
    requires
        data.len() < 0x1000_0000_0000_0000,
    ensures
        ({
            let whole = padded(data);
            let end = whole.len() as int;
            8 * data.len() == whole[end - 8] + whole[end - 7] * 0x100 + whole[end - 6] * 0x1_0000
                + whole[end - 5] * 0x100_0000 + whole[end - 4] * 0x1_0000_0000 + whole[end - 3]
                * 0x100_0000_0000 + whole[end - 2] * 0x1_0000_0000_0000 + whole[end - 1]
                * 0x100_0000_0000_0000
        }),
{
    lemma_padded(data);
    lemma_back(
        data + seq![0x80u8] + bytes::zeros(fill(data.len())),
        low_bits(data.len()),
        high_bits(data.len()),
    );
}

spec fn low_bits(len: nat) -> u32 {
    (8 * len % 0x1_0000_0000) as u32
}

spec fn high_bits(len: nat) -> u32 {
    (8 * len / 0x1_0000_0000) as u32
}

proof fn lemma_padded(data: Seq<u8>)
    requires
        data.len() < 0x1000_0000_0000_0000,
    ensures
        padded(data) == data + seq![0x80u8] + bytes::zeros(fill(data.len())) + bytes::le32(
            low_bits(data.len()),
        ) + bytes::le32(high_bits(data.len())),
        low_bits(data.len()) + high_bits(data.len()) * 0x1_0000_0000 == 8 * data.len(),
{
    assert(8 * data.len() % 0x1_0000_0000_0000_0000 == 8 * data.len());
    assert(padded(data) =~= data + seq![0x80u8] + bytes::zeros(fill(data.len())) + bytes::le32(
        low_bits(data.len()),
    ) + bytes::le32(high_bits(data.len())));
}

proof fn lemma_front(data: Seq<u8>, low: u32, high: u32)
    ensures
        ({
            let front = data + seq![0x80u8] + bytes::zeros(fill(data.len()));
            let whole = front + bytes::le32(low) + bytes::le32(high);
            &&& whole.len() == front.len() + 8
            &&& whole.len() % 64 == 0
            &&& data.len() + 9 <= whole.len() < data.len() + 9 + 64
            &&& forall|i: int| 0 <= i < data.len() ==> #[trigger] whole[i] == data[i]
            &&& whole[data.len() as int] == 0x80
            &&& forall|i: int| data.len() < i < whole.len() - 8 ==> #[trigger] whole[i] == 0
        }),
{
}

proof fn lemma_back(front: Seq<u8>, low: u32, high: u32)
    ensures
        ({
            let whole = front + bytes::le32(low) + bytes::le32(high);
            let end = whole.len() as int;
            low + high * 0x1_0000_0000 == whole[end - 8] + whole[end - 7] * 0x100 + whole[end - 6]
                * 0x1_0000 + whole[end - 5] * 0x100_0000 + whole[end - 4] * 0x1_0000_0000
                + whole[end - 3] * 0x100_0000_0000 + whole[end - 2] * 0x1_0000_0000_0000
                + whole[end - 1] * 0x100_0000_0000_0000
        }),
{
    let whole = front + bytes::le32(low) + bytes::le32(high);
    lemma_word_at_the_end(front, bytes::le32(high), low);
    lemma_word_at_the_end(front + bytes::le32(low), Seq::empty(), high);
    assert(whole =~= whole + Seq::<u8>::empty());
    assert(whole.len() == front.len() + 8);
}

/// The four bytes of a number count up to it, the first one least, wherever they stand.
proof fn lemma_word_at_the_end(front: Seq<u8>, behind: Seq<u8>, word: u32)
    ensures
        ({
            let whole = front + bytes::le32(word) + behind;
            let at = front.len() as int;
            word == whole[at] + whole[at + 1] * 0x100 + whole[at + 2] * 0x1_0000 + whole[at + 3]
                * 0x100_0000
        }),
{
    bytes::lemma_le32_roundtrip(word);
    let whole = front + bytes::le32(word) + behind;
    let at = front.len() as int;
    let b0 = bytes::le32(word)[0];
    let b1 = bytes::le32(word)[1];
    let b2 = bytes::le32(word)[2];
    let b3 = bytes::le32(word)[3];
    assert(whole[at] == b0);
    assert(whole[at + 1] == b1);
    assert(whole[at + 2] == b2);
    assert(whole[at + 3] == b3);
    assert(bytes::word32(b0, b1, b2, b3) == b0 + 256 * b1 + 65536 * b2 + 16777216 * b3);
}

/// The words of a block are its bytes four by four, the first of four counting least.
pub proof fn law_the_words_of_a_block(padded: Seq<u8>, n: int, i: int)
    requires
        0 <= n,
        64 * n + 64 <= padded.len(),
        0 <= i < 16,
    ensures
        words(padded, n).len() == 16,
        words(padded, n)[i] == padded[64 * n + 4 * i] + padded[64 * n + 4 * i + 1] * 0x100
            + padded[64 * n + 4 * i + 2] * 0x1_0000 + padded[64 * n + 4 * i + 3] * 0x100_0000,
{
}

/// Every block counts, and in order: the chaining words after a block depend on those before it
/// and on that block alone, in the same way for each block.
pub proof fn law_every_block_counts_alike(one: Seq<u8>, other: Seq<u8>, m: nat, n: nat)
    requires
        64 * m + 64 <= one.len(),
        64 * n + 64 <= other.len(),
        forall|i: int| 0 <= i < 64 ==> #[trigger] one[64 * m + i] == other[64 * n + i],
        chained(one, m) == chained(other, n),
    ensures
        chained(one, m + 1) == chained(other, n + 1),
{
    assert forall|i: int| 0 <= i < 16 implies words(one, m as int)[i] == words(other, n as int)[i]
        by {
        assert(one[64 * m + 4 * i] == other[64 * n + 4 * i]);
        assert(one[64 * m + (4 * i + 1)] == other[64 * n + (4 * i + 1)]);
        assert(one[64 * m + (4 * i + 2)] == other[64 * n + (4 * i + 2)]);
        assert(one[64 * m + (4 * i + 3)] == other[64 * n + (4 * i + 3)]);
    }
    assert(words(one, m as int) =~= words(other, n as int));
}

/// The digest is the four chaining words after the last block, each with its least significant
/// byte first.
pub proof fn law_the_bytes_of_a_digest(data: Seq<u8>, i: int)
    requires
        0 <= i < 4,
    ensures
        ({
            let chain = chained(padded(data), padded(data).len() / 64);
            let digest = md5(data);
            digest[4 * i] + digest[4 * i + 1] * 0x100 + digest[4 * i + 2] * 0x1_0000 + digest[4 * i
                + 3] * 0x100_0000 == (if i == 0 {
                chain.a
            } else if i == 1 {
                chain.b
            } else if i == 2 {
                chain.c
            } else {
                chain.d
            })
        }),
{
    reveal(md5);
    let chain = chained(padded(data), padded(data).len() / 64);
    lemma_words_of_a_chain(chain);
}

proof fn lemma_words_of_a_chain(chain: Chain)
    ensures
        ({
            let digest = chain_bytes(chain);
            &&& chain.a == digest[0] + digest[1] * 0x100 + digest[2] * 0x1_0000 + digest[3]
                * 0x100_0000
            &&& chain.b == digest[4] + digest[5] * 0x100 + digest[6] * 0x1_0000 + digest[7]
                * 0x100_0000
            &&& chain.c == digest[8] + digest[9] * 0x100 + digest[10] * 0x1_0000 + digest[11]
                * 0x100_0000
            &&& chain.d == digest[12] + digest[13] * 0x100 + digest[14] * 0x1_0000 + digest[15]
                * 0x100_0000
        }),
{
    let a = bytes::le32(chain.a);
    let b = bytes::le32(chain.b);
    let c = bytes::le32(chain.c);
    let d = bytes::le32(chain.d);
    lemma_word_at_the_end(Seq::empty(), b + c + d, chain.a);
    assert(Seq::<u8>::empty() + a + (b + c + d) =~= chain_bytes(chain));
    lemma_word_at_the_end(a, c + d, chain.b);
    assert(a + b + (c + d) =~= chain_bytes(chain));
    lemma_word_at_the_end(a + b, d, chain.c);
    lemma_word_at_the_end(a + b + c, Seq::empty(), chain.d);
    assert(a + b + c + d + Seq::<u8>::empty() =~= chain_bytes(chain));
}

} // verus!
