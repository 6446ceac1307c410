//! SHA-1 digests, by which model files are told sound from corrupt.
use crate::error::AppError;
use crate::text::same_text;
use sha1::{Digest, Sha1};
use vstd::prelude::*;
use vstd::string::*;

verus! {

/// The SHA-1 digest of `content`.
pub uninterp spec fn sha1_digest(content: Seq<u8>) -> Seq<u8>;

/// The bytes that a hasher has been given so far, in order.
pub uninterp spec fn hashed_bytes(hasher: Hasher) -> Seq<u8>;

/// The hasher of the `sha1` crate.
#[verifier::external_body]
pub struct Hasher {
    state: Sha1,
}

/// `Sha1::new`: a hasher that has been given nothing.
#[verifier::external_body]
fn new_hasher() -> (hasher: Hasher)
    ensures
        hashed_bytes(hasher) == Seq::<u8>::empty(),
{
    Hasher { state: Sha1::new() }
}

/// `Digest::update`: `data` is put behind what the hasher has been given.
#[verifier::external_body]
fn feed_hasher(hasher: &mut Hasher, data: &[u8])
    ensures
        hashed_bytes(*final(hasher)) == hashed_bytes(*old(hasher)) + data@,
{
    hasher.state.update(data);
}

/// `Digest::finalize`: the digest of what the hasher has been given, twenty
/// bytes.
#[verifier::external_body]
fn finish_hasher(hasher: Hasher) -> (digest: Vec<u8>)
    ensures
        digest@ == sha1_digest(hashed_bytes(hasher)),
        digest@.len() == 20,
{
    hasher.state.finalize().to_vec()
}

/// The hexadecimal digit of a number below sixteen.
pub open spec fn hex_digit(value: int) -> char {
    if value < 10 {
        ('0' as u32 + value) as char
    } else {
        ('a' as u32 + (value - 10)) as char
    }
}

/// `bytes` in lower-case hexadecimal, two digits for each.
pub open spec fn hex_text(bytes: Seq<u8>) -> Seq<char>
    decreases bytes.len(),
{
    if bytes.len() == 0 {
        Seq::empty()
    } else {
        hex_text(bytes.drop_last()).push(hex_digit(bytes.last() as int / 16)).push(
            hex_digit(bytes.last() as int % 16),
        )
    }
}

/// The SHA-1 digest of `content` as it is written: forty hexadecimal digits.
pub open spec fn sha1_hex(content: Seq<u8>) -> Seq<char> {
    hex_text(sha1_digest(content))
}

proof fn lemma_hex_length(bytes: Seq<u8>)
    ensures
        hex_text(bytes).len() == 2 * bytes.len(),
    decreases bytes.len(),
{
    if bytes.len() > 0 {
        lemma_hex_length(bytes.drop_last());
    }
}

/// The hexadecimal digit of a number below sixteen, as text.
pub fn hex_digit_text(value: u8) -> (text: &'static str)
    requires
        value < 16,
    ensures
        text@ == seq![hex_digit(value as int)],
{
    proof {
        reveal_strlit("0");
        reveal_strlit("1");
        reveal_strlit("2");
        reveal_strlit("3");
        reveal_strlit("4");
        reveal_strlit("5");
        reveal_strlit("6");
        reveal_strlit("7");
        reveal_strlit("8");
        reveal_strlit("9");
        reveal_strlit("a");
        reveal_strlit("b");
        reveal_strlit("c");
        reveal_strlit("d");
        reveal_strlit("e");
        reveal_strlit("f");
    }
    if value < 8 {
        if value == 0 {
            "0"
        } else if value == 1 {
            "1"
        } else if value == 2 {
            "2"
        } else if value == 3 {
            "3"
        } else if value == 4 {
            "4"
        } else if value == 5 {
            "5"
        } else if value == 6 {
            "6"
        } else {
            "7"
        }
    } else if value == 8 {
        "8"
    } else if value == 9 {
        "9"
    } else if value == 10 {
        "a"
    } else if value == 11 {
        "b"
    } else if value == 12 {
        "c"
    } else if value == 13 {
        "d"
    } else if value == 14 {
        "e"
    } else {
        "f"
    }
}

/// Writes `bytes` in lower-case hexadecimal.
pub fn lower_hex(bytes: &Vec<u8>) -> (text: String)
    ensures
        text@ == hex_text(bytes@),
{
    let mut text = String::new();
    let mut next: usize = 0;
    while next < bytes.len()
        invariant
            next <= bytes@.len(),
            text@ == hex_text(bytes@.take(next as int)),
        decreases bytes@.len() - next,
    {
        let byte: u8 = bytes[next];
        text.append(hex_digit_text(byte / 16));
        text.append(hex_digit_text(byte % 16));
        next = next + 1;
        proof {
            let taken = bytes@.take(next as int);
            assert(taken.drop_last() =~= bytes@.take(next - 1));
            assert(taken.last() == byte);
            assert(text@ =~= hex_text(taken));
        }
    }
    assert(bytes@.take(next as int) =~= bytes@);
    text
}

/// A SHA-1 computation over content that comes in pieces.
pub struct Checksum {
    hasher: Hasher,
}

impl View for Checksum {
    type V = Seq<u8>;

    /// The content so far.
    closed spec fn view(&self) -> Seq<u8> {
        hashed_bytes(self.hasher)
    }
}

impl Checksum {
    /// Starts with no content.
    pub fn new() -> (checksum: Checksum)
        ensures
            checksum@ == Seq::<u8>::empty(),
    {
        Checksum { hasher: new_hasher() }
    }

    /// Takes the next piece of the content.
    pub fn update(&mut self, data: &[u8])
        ensures
            final(self)@ == old(self)@ + data@,
    {
        feed_hasher(&mut self.hasher, data);
    }

    /// Writes the digest of the whole content.
    pub fn finish(self) -> (digest: String)
        ensures
            digest@ == sha1_hex(self@),
            digest@.len() == 40,
    {
        let digest = finish_hasher(self.hasher);
        proof {
            lemma_hex_length(digest@);
        }
        lower_hex(&digest)
    }
}

/// Compares the digest of `subject` with the one that is expected of it.
pub fn compare_digest(subject: &str, expected: &str, actual: &str) -> (outcome: Result<(), AppError>)
    ensures
        outcome is Ok <==> actual@ == expected@,
        outcome matches Err(error) ==> (error matches AppError::Sha1Mismatch {
            subject: named,
            expected: wanted,
            actual: found,
        } && named@ == subject@ && wanted@ == expected@ && found@ == actual@),
{
    if same_text(actual, expected) {
        Ok(())
    } else {
        Err(
            AppError::Sha1Mismatch {
                subject: String::from_str(subject),
                expected: String::from_str(expected),
                actual: String::from_str(actual),
            },
        )
    }
}

/// Checks that `content`, which is that of `subject`, has the expected digest.
pub fn verify_sha1(subject: &str, content: &[u8], expected: &str) -> (outcome: Result<(), AppError>)
    ensures
        outcome is Ok <==> sha1_hex(content@) == expected@,
        outcome matches Err(error) ==> (error matches AppError::Sha1Mismatch {
            subject: named,
            expected: wanted,
            actual: found,
        } && named@ == subject@ && wanted@ == expected@ && found@ == sha1_hex(content@)
            && found@.len() == 40),
        outcome is Ok ==> expected@.len() == 40,
{
    let mut checksum = Checksum::new();
    checksum.update(content);
    assert(checksum@ =~= content@);
    let actual = checksum.finish();
    compare_digest(subject, expected, actual.as_str())
}

/// Bytes in hexadecimal are written with two digits each, the high one first: a
/// digit below ten as the numeral, and the others as the letters from `a` on.
pub proof fn law_hexadecimal_shows_every_byte(bytes: Seq<u8>)
    ensures
        hex_text(bytes).len() == 2 * bytes.len(),
        forall|i: int|
            0 <= i < bytes.len() ==> {
                let high = #[trigger] bytes[i] as int / 16;
                let low = bytes[i] as int % 16;
                &&& hex_text(bytes)[2 * i] as int == if high < 10 {
                    48 + high
                } else {
                    87 + high
                }
                &&& hex_text(bytes)[2 * i + 1] as int == if low < 10 {
                    48 + low
                } else {
                    87 + low
                }
            },
    decreases bytes.len(),
{
    lemma_hex_length(bytes);
    if bytes.len() > 0 {
        let front = bytes.drop_last();
        law_hexadecimal_shows_every_byte(front);
        lemma_hex_length(front);
        let text = hex_text(bytes);
        assert forall|i: int| 0 <= i < bytes.len() implies {
            let high = #[trigger] bytes[i] as int / 16;
            let low = bytes[i] as int % 16;
            &&& text[2 * i] as int == if high < 10 {
                48 + high
            } else {
                87 + high
            }
            &&& text[2 * i + 1] as int == if low < 10 {
                48 + low
            } else {
                87 + low
            }
        } by {
            if i < front.len() {
                assert(front[i] == bytes[i]);
                assert(text[2 * i] == hex_text(front)[2 * i]);
                assert(text[2 * i + 1] == hex_text(front)[2 * i + 1]);
            } else {
                let high = bytes[i] as int / 16;
                let low = bytes[i] as int % 16;
                assert(0 <= high < 16 && 0 <= low < 16);
                assert(text[2 * i] == hex_digit(high));
                assert(text[2 * i + 1] == hex_digit(low));
            }
        }
    }
}

/// The digest that content is known by has the two digits of every byte of its
/// SHA-1 digest: content with another digest is known by another text.
pub proof fn law_digests_are_written_in_full(content: Seq<u8>, other: Seq<u8>)
    ensures
        sha1_hex(content).len() == 2 * sha1_digest(content).len(),
        sha1_hex(content) == sha1_hex(other) ==> sha1_digest(content) == sha1_digest(other),
{
    let left = sha1_digest(content);
    let right = sha1_digest(other);
    law_hexadecimal_shows_every_byte(left);
    law_hexadecimal_shows_every_byte(right);
    if sha1_hex(content) == sha1_hex(other) {
        assert forall|i: int| 0 <= i < left.len() implies left[i] == right[i] by {
            assert(left[i] as int / 16 == right[i] as int / 16);
            assert(left[i] as int % 16 == right[i] as int % 16);
        }
        assert(left =~= right);
    }
}

} // verus!
