//! SAME header validation and bit-level encoding.
//!
//! A SAME burst carries an ASCII header framed as `ZCZC-...-` (or the
//! end-of-message sentinel `NNNN`).  Transmission prepends sixteen
//! preamble bytes of `0xD5`; each preamble byte is sent most significant
//! bit first, and each header byte least significant bit first.

use crate::util::str_eq;
use vstd::prelude::*;
use vstd::string::is_ascii;
use vstd::string::StringSliceAdditionalSpecFns;

verus! {

/// Declares `std::io::Error` so that `HeaderError` can carry one.
#[verifier::external_type_specification]
#[verifier::external_body]
pub struct ExIoError(std::io::Error);

#[derive(Debug)]
pub enum HeaderError {
    InvalidConfig(&'static str),
    Io(std::io::Error),
}

impl From<std::io::Error> for HeaderError {
    fn from(err: std::io::Error) -> (r: Self) {
        HeaderError::Io(err)
    }
}

impl vstd::std_specs::convert::FromSpecImpl<std::io::Error> for HeaderError {
    open spec fn obeys_from_spec() -> bool {
        true
    }

    open spec fn from_spec(err: std::io::Error) -> Self {
        HeaderError::Io(err)
    }
}

impl HeaderError {
    /// A short description of the error.
    pub fn message(&self) -> (r: &'static str)
        ensures
            self matches HeaderError::InvalidConfig(m) ==> r == m,
            self matches HeaderError::Io(_) ==> r@ == "I/O error"@,
    {
        match self {
            HeaderError::InvalidConfig(m) => m,
            HeaderError::Io(_) => "I/O error",
        }
    }
}

/// A header is acceptable when it is the end-of-message sentinel `NNNN`,
/// or when it starts with `ZCZC-`, ends with `-`, and is ASCII.
pub open spec fn spec_valid_header(s: &str) -> bool {
    ||| s@ == "NNNN"@
    ||| (s@.len() >= 5 && s@.subrange(0, 5) == "ZCZC-"@ && s@.last() == '-' && is_ascii(s))
}

/// The message reported for an unacceptable header, following the order
/// in which the checks are made.
pub open spec fn spec_header_error_msg(s: &str) -> Seq<char> {
    if !(s@.len() >= 5 && s@.subrange(0, 5) == "ZCZC-"@) {
        "Header must start with 'ZCZC-'"@
    } else if s@.last() != '-' {
        "Header must end with '-'"@
    } else {
        "Header must be ASCII"@
    }
}

pub fn validate_header(header: &str) -> (r: Result<(), HeaderError>)
    ensures
        r is Ok <==> spec_valid_header(header),
        r matches Err(e) ==> (e matches HeaderError::InvalidConfig(m) && m@
            == spec_header_error_msg(header)),
{
    let len = header.unicode_len();
    if len == 4 && str_eq(header, "NNNN") {
        return Ok(());
    }
    proof {
        // A four-character header that failed the comparison is not "NNNN",
        // and no other length can be.
        reveal_strlit("NNNN");
    }
    let starts = if len >= 5 {
        str_eq(header.substring_char(0, 5), "ZCZC-")
    } else {
        false
    };
    if !starts {
        return Err(HeaderError::InvalidConfig("Header must start with 'ZCZC-'"));
    }
    if header.get_char(len - 1) != '-' {
        proof {
            reveal_strlit("ZCZC-");
            assert(header@.last() != '-');
        }
        return Err(HeaderError::InvalidConfig("Header must end with '-'"));
    }
    if !header.is_ascii() {
        return Err(HeaderError::InvalidConfig("Header must be ASCII"));
    }
    Ok(())
}

/// Bit `i` (counting from the least significant end) of a byte.
pub open spec fn bit_of(b: u8, i: nat) -> u8 {
    (b >> (i as u8)) & 1
}

/// The eight bits of a byte, most significant first.
pub open spec fn byte_bits_msb(b: u8) -> Seq<u8> {
    Seq::new(8, |i: int| bit_of(b, (7 - i) as nat))
}

/// The eight bits of a byte, least significant first.
pub open spec fn byte_bits_lsb(b: u8) -> Seq<u8> {
    Seq::new(8, |i: int| bit_of(b, i as nat))
}

/// `n` repetitions of the preamble byte `0xD5`, each sent msb first.
pub open spec fn repeat_preamble(n: nat) -> Seq<u8>
    decreases n,
{
    if n == 0 {
        Seq::empty()
    } else {
        repeat_preamble((n - 1) as nat) + byte_bits_msb(0xD5)
    }
}

/// Each byte of the payload, sent lsb first.
pub open spec fn bytes_bits_lsb(bs: Seq<u8>) -> Seq<u8>
    decreases bs.len(),
{
    if bs.len() == 0 {
        Seq::empty()
    } else {
        bytes_bits_lsb(bs.drop_last()) + byte_bits_lsb(bs.last())
    }
}

/// The full burst bit stream: sixteen preamble bytes, then the payload.
pub open spec fn spec_same_bits(bytes: Seq<u8>) -> Seq<u8> {
    repeat_preamble(16) + bytes_bits_lsb(bytes)
}

pub fn byte_to_bits_msb_first(b: u8) -> (bits: [u8; 8])
    ensures
        bits@ == byte_bits_msb(b),
{
    let bits: [u8; 8] = [
        (b >> 7u8) & 1,
        (b >> 6u8) & 1,
        (b >> 5u8) & 1,
        (b >> 4u8) & 1,
        (b >> 3u8) & 1,
        (b >> 2u8) & 1,
        (b >> 1u8) & 1,
        b & 1,
    ];
    proof {
        assert(bit_of(b, 0) == b & 1) by (bit_vector);
        assert(bits@ =~= byte_bits_msb(b));
    }
    bits
}

pub fn byte_to_bits_lsb_first(b: u8) -> (bits: [u8; 8])
    ensures
        bits@ == byte_bits_lsb(b),
{
    let bits: [u8; 8] = [
        b & 1,
        (b >> 1u8) & 1,
        (b >> 2u8) & 1,
        (b >> 3u8) & 1,
        (b >> 4u8) & 1,
        (b >> 5u8) & 1,
        (b >> 6u8) & 1,
        (b >> 7u8) & 1,
    ];
    proof {
        assert(bit_of(b, 0) == b & 1) by (bit_vector);
        assert(bits@ =~= byte_bits_lsb(b));
    }
    bits
}

/// The bit stream sent for a header: the sixteen-byte preamble, then the
/// header's bytes.
pub fn build_same_bits(header: &str) -> (bits: Vec<u8>)
    ensures
        bits@ == spec_same_bits(header.spec_bytes()),
{
    let mut bits: Vec<u8> = Vec::new();
    let mut k: usize = 0;
    while k < 16
        invariant
            k <= 16,
            bits@ == repeat_preamble(k as nat),
        decreases 16 - k,
    {
        let arr = byte_to_bits_msb_first(0xD5);
        let mut j: usize = 0;
        while j < 8
            invariant
                j <= 8,
                arr@ == byte_bits_msb(0xD5),
                bits@ == repeat_preamble(k as nat) + arr@.take(j as int),
            decreases 8 - j,
        {
            bits.push(arr[j]);
            proof {
                assert(arr@.take(j + 1) =~= arr@.take(j as int).push(arr@[j as int]));
            }
            j = j + 1;
        }
        proof {
            assert(arr@.take(8) =~= arr@);
        }
        k = k + 1;
    }
    let bs = header.as_bytes();
    let mut m: usize = 0;
    while m < bs.len()
        invariant
            m <= bs@.len(),
            bs@ == header.spec_bytes(),
            bits@ == repeat_preamble(16) + bytes_bits_lsb(bs@.take(m as int)),
        decreases bs@.len() - m,
    {
        let arr = byte_to_bits_lsb_first(bs[m]);
        let mut j: usize = 0;
        while j < 8
            invariant
                j <= 8,
                m < bs@.len(),
                bs@ == header.spec_bytes(),
                arr@ == byte_bits_lsb(bs@[m as int]),
                bits@ == repeat_preamble(16) + bytes_bits_lsb(bs@.take(m as int)) + arr@.take(
                    j as int,
                ),
            decreases 8 - j,
        {
            bits.push(arr[j]);
            proof {
                assert(arr@.take(j + 1) =~= arr@.take(j as int).push(arr@[j as int]));
            }
            j = j + 1;
        }
        proof {
            let taken = bs@.take(m + 1);
            assert(taken.drop_last() =~= bs@.take(m as int));
            assert(taken.last() == bs@[m as int]);
            assert(bits@ =~= repeat_preamble(16) + bytes_bits_lsb(bs@.take(m + 1)));
        }
        m = m + 1;
    }
    proof {
        assert(bs@.take(bs@.len() as int) =~= bs@);
    }
    bits
}

/// The byte whose bits, least significant first, are `bits`.
pub open spec fn byte_of_bits_lsb(bits: Seq<u8>) -> u8
    recommends
        bits.len() == 8,
{
    (bits[0] + 2 * bits[1] + 4 * bits[2] + 8 * bits[3] + 16 * bits[4] + 32 * bits[5] + 64
        * bits[6] + 128 * bits[7]) as u8
}

/// The bytes recovered by reading a bit stream eight bits at a time,
/// least significant bit first.
pub open spec fn decode_bits_lsb(bits: Seq<u8>) -> Seq<u8>
    decreases bits.len(),
{
    if bits.len() < 8 {
        Seq::empty()
    } else {
        decode_bits_lsb(bits.subrange(0, bits.len() - 8)).push(
            byte_of_bits_lsb(bits.subrange(bits.len() - 8, bits.len() as int)),
        )
    }
}

pub fn bits_to_byte_lsb_first(bits: &[u8; 8]) -> (b: u8)
    requires
        forall|i: int| 0 <= i < 8 ==> bits@[i] <= 1,
    ensures
        b == byte_of_bits_lsb(bits@),
{
    bits[0] + 2 * bits[1] + 4 * bits[2] + 8 * bits[3] + 16 * bits[4] + 32 * bits[5] + 64 * bits[6]
        + 128 * bits[7]
}

/// Sending a byte least significant bit first and reading the eight bits
/// back yields the byte again.
pub proof fn lemma_byte_bits_round_trip(b: u8)
    ensures
        byte_of_bits_lsb(byte_bits_lsb(b)) == b,
{
    assert(((b >> 0u8) & 1) <= 1 && ((b >> 1u8) & 1) <= 1 && ((b >> 2u8) & 1) <= 1 && ((b >> 3u8)
        & 1) <= 1 && ((b >> 4u8) & 1) <= 1 && ((b >> 5u8) & 1) <= 1 && ((b >> 6u8) & 1) <= 1 && ((b
        >> 7u8) & 1) <= 1) by (bit_vector);
    assert(b == ((b >> 0u8) & 1) + 2 * ((b >> 1u8) & 1) + 4 * ((b >> 2u8) & 1) + 8 * ((b >> 3u8)
        & 1) + 16 * ((b >> 4u8) & 1) + 32 * ((b >> 5u8) & 1) + 64 * ((b >> 6u8) & 1) + 128 * ((b
        >> 7u8) & 1)) by (bit_vector);
}

/// Every bit the encoder emits is 0 or 1.
pub proof fn lemma_bits_are_binary(bs: Seq<u8>)
    ensures
        forall|i: int| 0 <= i < bytes_bits_lsb(bs).len() ==> #[trigger] bytes_bits_lsb(bs)[i] <= 1,
    decreases bs.len(),
{
    assert forall|b: u8, k: nat| k < 8 implies bit_of(b, k) <= 1 by {
        let ku8 = k as u8;
        assert(ku8 < 8 ==> ((b >> ku8) & 1) <= 1) by (bit_vector);
    }
    if bs.len() > 0 {
        let front = bs.drop_last();
        let tail = byte_bits_lsb(bs.last());
        lemma_bits_are_binary(front);
        assert forall|i: int| 0 <= i < bytes_bits_lsb(bs).len() implies #[trigger] bytes_bits_lsb(
            bs,
        )[i] <= 1 by {
            if i < bytes_bits_lsb(front).len() {
                assert(bytes_bits_lsb(bs)[i] == bytes_bits_lsb(front)[i]);
            } else {
                assert(bytes_bits_lsb(bs)[i] == tail[i - bytes_bits_lsb(front).len()]);
            }
        }
    }
}

/// The payload of a burst is eight bits per byte.
pub proof fn lemma_bytes_bits_len(bs: Seq<u8>)
    ensures
        bytes_bits_lsb(bs).len() == 8 * bs.len(),
    decreases bs.len(),
{
    if bs.len() > 0 {
        lemma_bytes_bits_len(bs.drop_last());
    }
}

/// The preamble is eight bits per repetition.
pub proof fn lemma_preamble_len(n: nat)
    ensures
        repeat_preamble(n).len() == 8 * n,
    decreases n,
{
    if n > 0 {
        lemma_preamble_len((n - 1) as nat);
    }
}

/// Encoding a payload and decoding the resulting bit stream yields the
/// payload again: the header behind a burst, and with it the event code,
/// survives the round trip.
pub proof fn lemma_payload_round_trip(bs: Seq<u8>)
    ensures
        decode_bits_lsb(bytes_bits_lsb(bs)) == bs,
    decreases bs.len(),
{
    lemma_bytes_bits_len(bs);
    if bs.len() == 0 {
        assert(decode_bits_lsb(bytes_bits_lsb(bs)) =~= bs);
    } else {
        let bits = bytes_bits_lsb(bs);
        let front = bs.drop_last();
        lemma_bytes_bits_len(front);
        assert(bits.subrange(0, bits.len() - 8) =~= bytes_bits_lsb(front));
        assert(bits.subrange(bits.len() - 8, bits.len() as int) =~= byte_bits_lsb(bs.last()));
        lemma_payload_round_trip(front);
        lemma_byte_bits_round_trip(bs.last());
        assert(decode_bits_lsb(bits) =~= bs);
    }
}

/// The whole burst round-trips: skipping the preamble of the encoder's
/// output and decoding the rest gives back the header's bytes.
pub proof fn lemma_same_bits_round_trip(bytes: Seq<u8>)
    ensures
        decode_bits_lsb(spec_same_bits(bytes).skip(128)) == bytes,
{
    lemma_preamble_len(16);
    assert(spec_same_bits(bytes).skip(128) =~= bytes_bits_lsb(bytes));
    lemma_payload_round_trip(bytes);
}

/// Decodes a burst produced by [`build_same_bits`]: checks the shape of
/// the stream, skips the preamble, and reads the payload bytes back.
pub fn decode_same_bits(bits: &Vec<u8>) -> (r: Option<Vec<u8>>)
    requires
        forall|i: int| 0 <= i < bits@.len() ==> bits@[i] <= 1,
    ensures
        bits@.len() >= 128 && bits@.len() % 8 == 0 ==> (r matches Some(bs) && bs@
            == decode_bits_lsb(bits@.skip(128))),
        !(bits@.len() >= 128 && bits@.len() % 8 == 0) ==> r is None,
{
    let n = bits.len();
    if n < 128 || n % 8 != 0 {
        return None;
    }
    let mut out: Vec<u8> = Vec::new();
    let mut pos: usize = 128;
    while pos < n
        invariant
            128 <= pos <= n,
            pos % 8 == 0,
            n % 8 == 0,
            n == bits@.len(),
            forall|i: int| 0 <= i < bits@.len() ==> bits@[i] <= 1,
            out@ == decode_bits_lsb(bits@.subrange(128, pos as int)),
        decreases n - pos,
    {
        let chunk: [u8; 8] = [
            bits[pos],
            bits[pos + 1],
            bits[pos + 2],
            bits[pos + 3],
            bits[pos + 4],
            bits[pos + 5],
            bits[pos + 6],
            bits[pos + 7],
        ];
        let b = bits_to_byte_lsb_first(&chunk);
        out.push(b);
        proof {
            let upto = bits@.subrange(128, pos + 8);
            assert(upto.subrange(0, upto.len() - 8) =~= bits@.subrange(128, pos as int));
            assert(upto.subrange(upto.len() - 8, upto.len() as int) =~= chunk@);
            assert(out@ =~= decode_bits_lsb(bits@.subrange(128, pos + 8)));
        }
        pos = pos + 8;
    }
    proof {
        assert(bits@.subrange(128, n as int) =~= bits@.skip(128));
    }
    Some(out)
}

} // verus!
