//! The content digest of a block and the difficulty predicate on it.

use vstd::prelude::*;
use vstd::string::StringExecFns;
use vstd::string::StrSliceExecFns;
use crypto::digest::Digest;
use crypto::sha2::Sha256;
use crate::decimal::{
    decimal, lemma_decimal_injective, lemma_decimal_len_of_fields,
    lemma_signed_decimal_injective, render_decimal, render_signed, signed_decimal,
};

verus! {

/// The SHA-256 digest of a text's UTF-8 bytes, as lowercase hexadecimal text.
pub uninterp spec fn sha256_hex(text: Seq<char>) -> Seq<char>;

/// The most characters that a digested text may have. A character takes at
/// most four bytes, and the digest counts its input's bits in 64 bits.
pub const MAX_TEXT_LEN: u64 = 0x0400_0000_0000_0000;

/// The number of characters in a digest.
pub const DIGEST_LEN: usize = 64;

/// Trusted: a fresh `crypto::sha2::Sha256` is fed `text` with
/// `Digest::input_str` and read out with `Digest::result_str`. The contract
/// claims that the outcome is a function of the text, and that it has two
/// characters for each of the digest's 32 bytes. The outside code stops on
/// an input of 2^61 bytes or more, which the bound on `text` leaves out.
#[verifier::external_body]
fn sha256_hex_of(text: &str) -> (r: String)
    requires
        text@.len() <= MAX_TEXT_LEN,
    ensures
        r@ == sha256_hex(text@),
        r@.len() == DIGEST_LEN,
{
    let mut hasher = Sha256::new();
    hasher.input_str(text);
    hasher.result_str()
}

/// The text that is digested for a block: the decimal index, the decimal
/// timestamp, the transaction data, the predecessor's hash and the decimal
/// nonce, in that order and with nothing between them.
pub open spec fn hash_input(
    index: u32,
    timestamp: i64,
    data: Seq<char>,
    prev_hash: Seq<char>,
    nonce: u32,
) -> Seq<char> {
    decimal(index as nat) + signed_decimal(timestamp as int) + data + prev_hash + decimal(
        nonce as nat,
    )
}

/// The digest of a block with the given fields.
pub open spec fn block_digest(
    index: u32,
    timestamp: i64,
    data: Seq<char>,
    prev_hash: Seq<char>,
    nonce: u32,
) -> Seq<char> {
    sha256_hex(hash_input(index, timestamp, data, prev_hash, nonce))
}

/// Whether a block with this transaction data and predecessor hash can be
/// digested: the two texts and the three numbers, of at most 40 characters
/// together, stay within the longest text that is digested.
pub open spec fn digestible(data: Seq<char>, prev_hash: Seq<char>) -> bool {
    data.len() + prev_hash.len() + 40 <= MAX_TEXT_LEN
}

/// Whether `text` begins with `count` characters `'0'`.
pub open spec fn has_leading_zeros(text: Seq<char>, count: nat) -> bool {
    &&& count <= text.len()
    &&& forall|i: int| 0 <= i < count ==> text[i] == '0'
}

/// A text between a fixed beginning and a fixed end can be read back: if
/// `a + x + b` and `a + y + b` are the same text, `x` and `y` are.
pub proof fn lemma_middle_is_determined(a: Seq<char>, x: Seq<char>, y: Seq<char>, b: Seq<char>)
    requires
        a + x + b == a + y + b,
    ensures
        x == y,
{
    let left = a + x + b;
    let right = a + y + b;
    assert(left.len() == a.len() + x.len() + b.len());
    assert(right.len() == a.len() + y.len() + b.len());
    assert(x =~= left.subrange(a.len() as int, (a.len() + x.len()) as int));
    assert(y =~= right.subrange(a.len() as int, (a.len() + y.len()) as int));
}

/// Two blocks at the same index that differ in exactly one of timestamp,
/// transaction data, predecessor hash and nonce are digested from different
/// texts. Stated the other way round: where the texts are equal and three
/// of the four fields are, the fourth is equal too.
pub proof fn lemma_hash_input_separates_fields(
    index: u32,
    timestamp1: i64,
    data1: Seq<char>,
    prev_hash1: Seq<char>,
    nonce1: u32,
    timestamp2: i64,
    data2: Seq<char>,
    prev_hash2: Seq<char>,
    nonce2: u32,
)
    requires
        hash_input(index, timestamp1, data1, prev_hash1, nonce1) == hash_input(
            index,
            timestamp2,
            data2,
            prev_hash2,
            nonce2,
        ),
    ensures
        data1 == data2 && prev_hash1 == prev_hash2 && nonce1 == nonce2 ==> timestamp1
            == timestamp2,
        timestamp1 == timestamp2 && prev_hash1 == prev_hash2 && nonce1 == nonce2 ==> data1
            == data2,
        timestamp1 == timestamp2 && data1 == data2 && nonce1 == nonce2 ==> prev_hash1
            == prev_hash2,
        timestamp1 == timestamp2 && data1 == data2 && prev_hash1 == prev_hash2 ==> nonce1
            == nonce2,
{
    let i = decimal(index as nat);
    let t1 = signed_decimal(timestamp1 as int);
    let t2 = signed_decimal(timestamp2 as int);
    let n1 = decimal(nonce1 as nat);
    let n2 = decimal(nonce2 as nat);
    let none = Seq::<char>::empty();
    let text1 = hash_input(index, timestamp1, data1, prev_hash1, nonce1);
    let text2 = hash_input(index, timestamp2, data2, prev_hash2, nonce2);
    if data1 == data2 && prev_hash1 == prev_hash2 && nonce1 == nonce2 {
        let rest = data1 + prev_hash1 + n1;
        assert(text1 =~= i + t1 + rest);
        assert(text2 =~= i + t2 + rest);
        lemma_middle_is_determined(i, t1, t2, rest);
        lemma_signed_decimal_injective(timestamp1 as int, timestamp2 as int);
    }
    if timestamp1 == timestamp2 && prev_hash1 == prev_hash2 && nonce1 == nonce2 {
        let rest = prev_hash1 + n1;
        assert(text1 =~= (i + t1) + data1 + rest);
        assert(text2 =~= (i + t1) + data2 + rest);
        lemma_middle_is_determined(i + t1, data1, data2, rest);
    }
    if timestamp1 == timestamp2 && data1 == data2 && nonce1 == nonce2 {
        assert(text1 =~= (i + t1 + data1) + prev_hash1 + n1);
        assert(text2 =~= (i + t1 + data1) + prev_hash2 + n1);
        lemma_middle_is_determined(i + t1 + data1, prev_hash1, prev_hash2, n1);
    }
    if timestamp1 == timestamp2 && data1 == data2 && prev_hash1 == prev_hash2 {
        let before = i + t1 + data1 + prev_hash1;
        assert(text1 =~= before + n1 + none);
        assert(text2 =~= before + n2 + none);
        lemma_middle_is_determined(before, n1, n2, none);
        lemma_decimal_injective(nonce1 as nat, nonce2 as nat);
    }
}

/// Computes the digest of a block's fields. The result depends on the
/// arguments alone.
pub fn calculate_hash(index: u32, timestamp: i64, data: &str, prev_hash: &str, nonce: u32) -> (r:
    String)
    requires
        digestible(data@, prev_hash@),
    ensures
        r@ == block_digest(index, timestamp, data@, prev_hash@, nonce),
        r@.len() == DIGEST_LEN,
{
    proof {
        lemma_decimal_len_of_fields(index, timestamp);
        lemma_decimal_len_of_fields(nonce, timestamp);
    }
    let mut text = render_decimal(index as u64);
    let stamp = render_signed(timestamp);
    text.append(stamp.as_str());
    text.append(data);
    text.append(prev_hash);
    let counter = render_decimal(nonce as u64);
    text.append(counter.as_str());
    sha256_hex_of(text.as_str())
}

/// Tests whether a block with this transaction data and predecessor hash
/// can be digested.
pub fn can_digest(data: &str, prev_hash: &str) -> (r: bool)
    ensures
        r == digestible(data@, prev_hash@),
{
    let room: u64 = MAX_TEXT_LEN - 40;
    let data_len = data.unicode_len() as u64;
    if data_len > room {
        return false;
    }
    prev_hash.unicode_len() as u64 <= room - data_len
}

/// Tests the difficulty predicate: does `hash` begin with `difficulty`
/// characters `'0'`?
pub fn meets_difficulty(hash: &str, difficulty: u8) -> (r: bool)
    ensures
        r == has_leading_zeros(hash@, difficulty as nat),
{
    let len = hash.unicode_len();
    if len < difficulty as usize {
        return false;
    }
    let mut i: usize = 0;
    while i < difficulty as usize
        invariant
            i <= difficulty,
            difficulty <= len,
            len == hash@.len(),
            forall|j: int| 0 <= j < i ==> hash@[j] == '0',
        decreases difficulty - i,
    {
        if hash.get_char(i) != '0' {
            return false;
        }
        i += 1;
    }
    true
}

} // verus!
