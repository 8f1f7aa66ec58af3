//! The decoder-side bookkeeping of the audio pipeline: the fixed-size
//! sample chunker feeding the SAME receiver, the byte-buffer hand-off
//! from the network reader, the format hint, the inactivity window, and
//! the rate limiter for repeated log lines.
//!
//! The pipeline itself (HTTP pull, container probing, PCM decoding,
//! resampling, SAME demodulation) runs outside the library and hands
//! these functions plain values.

use vstd::prelude::*;

verus! {

/// The SAME receiver consumes chunks of exactly this many samples.
pub const SAME_CHUNK_SIZE: usize = 2048;

/// Seconds without a network chunk after which a stream counts as dead.
pub fn stream_inactivity_timeout() -> (secs: u64)
    ensures
        secs == 120,
{
    120
}

/// Accumulates decoded mono samples and hands them out in chunks of
/// exactly [`SAME_CHUNK_SIZE`], preserving order across chunk borders.
pub struct SampleChunker<T> {
    buffer: Vec<T>,
}

impl<T: Copy> View for SampleChunker<T> {
    type V = Seq<T>;

    closed spec fn view(&self) -> Seq<T> {
        self.buffer@
    }
}

impl<T: Copy> SampleChunker<T> {
    pub fn new() -> (r: SampleChunker<T>)
        ensures
            r@ == Seq::<T>::empty(),
    {
        SampleChunker { buffer: Vec::new() }
    }

    /// The number of buffered samples not yet handed out.
    pub fn pending(&self) -> (n: usize)
        ensures
            n == self@.len(),
    {
        self.buffer.len()
    }

    /// Appends decoded samples behind the ones already buffered.
    pub fn push_samples(&mut self, samples: &Vec<T>)
        requires
            old(self)@.len() + samples@.len() <= usize::MAX,
        ensures
            final(self)@ == old(self)@ + samples@,
    {
        let n = samples.len();
        let mut i: usize = 0;
        while i < n
            invariant
                n == samples@.len(),
                i <= n,
                self@ == old(self)@ + samples@.take(i as int),
            decreases n - i,
        {
            self.buffer.push(samples[i]);
            proof {
                assert(samples@.take(i + 1) =~= samples@.take(i as int).push(samples@[i as int]));
                assert(self@ =~= old(self)@ + samples@.take(i + 1));
            }
            i = i + 1;
        }
        proof {
            assert(samples@.take(n as int) =~= samples@);
        }
    }

    /// Removes and returns the oldest [`SAME_CHUNK_SIZE`] samples, or
    /// nothing while fewer are buffered.  Exactly one chunk becomes due
    /// the moment the buffer reaches the chunk size.
    pub fn take_chunk(&mut self) -> (r: Option<Vec<T>>)
        ensures
            old(self)@.len() >= SAME_CHUNK_SIZE ==> (r matches Some(chunk) && chunk@ == old(
                self,
            )@.take(SAME_CHUNK_SIZE as int) && final(self)@ == old(self)@.skip(
                SAME_CHUNK_SIZE as int,
            )),
            old(self)@.len() < SAME_CHUNK_SIZE ==> (r is None && final(self)@ == old(self)@),
    {
        if self.buffer.len() < SAME_CHUNK_SIZE {
            return None;
        }
        let mut chunk: Vec<T> = Vec::new();
        let mut i: usize = 0;
        while i < SAME_CHUNK_SIZE
            invariant
                self@ == old(self)@,
                old(self)@.len() >= SAME_CHUNK_SIZE,
                i <= SAME_CHUNK_SIZE,
                chunk@ == old(self)@.take(i as int),
            decreases SAME_CHUNK_SIZE - i,
        {
            chunk.push(self.buffer[i]);
            proof {
                assert(old(self)@.take(i + 1) =~= old(self)@.take(i as int).push(
                    old(self)@[i as int],
                ));
            }
            i = i + 1;
        }
        let mut rest: Vec<T> = Vec::new();
        let mut j: usize = SAME_CHUNK_SIZE;
        let total = self.buffer.len();
        while j < total
            invariant
                self@ == old(self)@,
                total == old(self)@.len(),
                SAME_CHUNK_SIZE <= j <= total,
                rest@ == old(self)@.subrange(SAME_CHUNK_SIZE as int, j as int),
            decreases total - j,
        {
            rest.push(self.buffer[j]);
            proof {
                assert(old(self)@.subrange(SAME_CHUNK_SIZE as int, j + 1) =~= old(self)@.subrange(
                    SAME_CHUNK_SIZE as int,
                    j as int,
                ).push(old(self)@[j as int]));
            }
            j = j + 1;
        }
        self.buffer = rest;
        proof {
            assert(final(self)@ =~= old(self)@.skip(SAME_CHUNK_SIZE as int));
        }
        Some(chunk)
    }
}

/// The bytes a buffered reader hands to a caller that asked for at most
/// `dest_cap` bytes: the unread tail of the buffer, capped at the
/// caller's capacity.
pub fn copy_chunk_bytes(buffer: &Vec<u8>, pos: usize, dest_cap: usize) -> (out: Vec<u8>)
    requires
        pos <= buffer@.len(),
    ensures
        out@ == buffer@.subrange(pos as int, pos + (if buffer@.len() - pos < dest_cap {
            buffer@.len() - pos
        } else {
            dest_cap as int
        })),
{
    let avail = buffer.len() - pos;
    let count = if avail < dest_cap {
        avail
    } else {
        dest_cap
    };
    let mut out: Vec<u8> = Vec::new();
    let mut i: usize = 0;
    while i < count
        invariant
            pos + count <= buffer@.len(),
            buffer@.len() <= usize::MAX,
            i <= count,
            out@ == buffer@.subrange(pos as int, pos + i),
        decreases count - i,
    {
        out.push(buffer[pos + i]);
        proof {
            assert(buffer@.subrange(pos as int, pos + i + 1) =~= buffer@.subrange(
                pos as int,
                pos + i,
            ).push(buffer@[pos + i]));
        }
        i = i + 1;
    }
    out
}

/// Whether `needle` occurs contiguously in `haystack`.
pub open spec fn spec_contains_sub(haystack: Seq<char>, needle: Seq<char>) -> bool {
    exists|k: int|
        0 <= k <= haystack.len() - needle.len() && #[trigger] haystack.subrange(
            k,
            k + needle.len(),
        ) == needle
}

/// Substring search by direct comparison at every offset.
pub fn contains_sub(haystack: &str, needle: &str) -> (r: bool)
    ensures
        r == spec_contains_sub(haystack@, needle@),
{
    let hlen = haystack.unicode_len();
    let nlen = needle.unicode_len();
    if nlen > hlen {
        return false;
    }
    if nlen == 0 {
        proof {
            assert(haystack@.subrange(0, 0 + needle@.len() as int) =~= needle@);
            assert(spec_contains_sub(haystack@, needle@));
        }
        return true;
    }
    let mut k: usize = 0;
    while k <= hlen - nlen
        invariant
            hlen == haystack@.len(),
            nlen == needle@.len(),
            1 <= nlen <= hlen,
            k <= hlen - nlen + 1,
            forall|p: int|
                0 <= p < k ==> #[trigger] haystack@.subrange(p, p + needle@.len()) != needle@,
        decreases hlen + 1 - k,
    {
        let sub = haystack.substring_char(k, k + nlen);
        if crate::util::str_eq(sub, needle) {
            return true;
        }
        k = k + 1;
    }
    proof {
        if spec_contains_sub(haystack@, needle@) {
            let p = choose|p: int|
                0 <= p <= haystack@.len() - needle@.len() && #[trigger] haystack@.subrange(
                    p,
                    p + needle@.len(),
                ) == needle@;
            assert(haystack@.subrange(p, p + needle@.len()) != needle@);
        }
    }
    false
}

/// Whether the probe should be biased toward MP3: the stream declared a
/// content type containing `audio/mpeg`.
pub fn mp3_hint(content_type: &Option<String>) -> (r: bool)
    ensures
        r == (content_type matches Some(ct) && spec_contains_sub(ct@, "audio/mpeg"@)),
{
    match content_type {
        Some(ct) => contains_sub(ct.as_str(), "audio/mpeg"),
        None => false,
    }
}

/// Limits repeated log lines to one per period: `should_fire` answers
/// yes only when at least `period_secs` have passed since the last
/// accepted call, or none was accepted yet.
pub struct RateLimiter {
    last_fired: Option<u64>,
}

impl View for RateLimiter {
    type V = Option<u64>;

    closed spec fn view(&self) -> Option<u64> {
        self.last_fired
    }
}

impl RateLimiter {
    pub fn new() -> (r: RateLimiter)
        ensures
            r@ is None,
    {
        RateLimiter { last_fired: None }
    }

    pub fn should_fire(&mut self, now: u64, period_secs: u64) -> (fire: bool)
        ensures
            fire == (old(self)@ is None || now >= spec_next_allowed(old(self)@->0, period_secs)),
            fire ==> final(self)@ == Some(now),
            !fire ==> final(self)@ == old(self)@,
    {
        let fire = match self.last_fired {
            None => true,
            Some(last) => {
                if period_secs > u64::MAX - last {
                    false
                } else {
                    now >= last + period_secs
                }
            },
        };
        if fire {
            self.last_fired = Some(now);
        }
        fire
    }
}

/// The earliest time the limiter may fire again; past the largest
/// representable time it never does.
pub open spec fn spec_next_allowed(last: u64, period_secs: u64) -> int {
    if last + period_secs > u64::MAX {
        u64::MAX + 1
    } else {
        last + period_secs
    }
}

} // verus!
