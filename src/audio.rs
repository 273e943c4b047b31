use vstd::prelude::*;

use crate::frame::AudioFrame;
use crate::tone_map::round_ratio;

verus! {

/// Samples per output chunk: 20 ms of 16 kHz mono audio.
pub const AUDIO_FRAME_SAMPLES: usize = 320;

/// Why an audio payload was not taken.
#[derive(Clone, Copy, Debug, PartialEq, Eq, Structural)]
pub enum AudioFrameError {
    /// The payload length is not a whole number of 32-bit samples.
    UnalignedLength,
}

// ---------------------------------------------------------------------------
// Payload decoding

/// The little-endian 32-bit word at byte offset `i`.
pub open spec fn le_word(b: Seq<u8>, i: int) -> u32 {
    (b[i] as int + 256 * b[i + 1] as int + 65536 * b[i + 2] as int + 16777216 * b[i + 3] as int) as u32
}

/// The sample words of a payload: one per four bytes, in order.
pub open spec fn words_of(b: Seq<u8>) -> Seq<u32> {
    Seq::new(b.len() / 4, |i: int| le_word(b, 4 * i))
}

/// Reads a payload of little-endian 32-bit float samples as their bit
/// patterns; rejects a payload whose length is not a multiple of four.
pub fn decode_samples(bytes: &Vec<u8>) -> (r: Result<Vec<u32>, AudioFrameError>)
    ensures
        r is Ok <==> bytes@.len() % 4 == 0,
        r matches Ok(w) ==> w@ == words_of(bytes@),
{
    let n = bytes.len();
    if n % 4 != 0 {
        return Err(AudioFrameError::UnalignedLength);
    }
    let mut words: Vec<u32> = Vec::with_capacity(n / 4);
    let mut i: usize = 0;
    while i < n / 4
        invariant
            n == bytes@.len(),
            n % 4 == 0,
            i <= n / 4,
            words@.len() == i,
            forall|j: int| 0 <= j < i ==> words@[j] == le_word(bytes@, 4 * j),
        decreases n / 4 - i,
    {
        let k = 4 * i;
        let w: u32 = bytes[k] as u32 + 256 * (bytes[k + 1] as u32) + 65536 * (bytes[k + 2] as u32)
            + 16777216 * (bytes[k + 3] as u32);
        words.push(w);
        i = i + 1;
    }
    assert(words@ =~= words_of(bytes@));
    Ok(words)
}

// ---------------------------------------------------------------------------
// Sample conversion

/// Two to the power `k`.
pub open spec fn two_to(k: nat) -> nat
    decreases k,
{
    if k == 0 {
        1
    } else {
        2 * two_to((k - 1) as nat)
    }
}

/// The 16-bit value of a 32-bit float sample given by its bit pattern:
/// `round(clamp(x, -1, 1) * 32767)`, halves away from zero. A finite `x` is
/// `±mantissa / 2^shift`; beyond 1 in size, infinities included, the sample
/// clamps to ±32767, and a NaN gives 0.
pub open spec fn s16_of_sample(bits: u32) -> int {
    let negative = bits / 0x8000_0000 == 1;
    let exponent = (bits / 0x80_0000) % 256;
    let fraction = bits % 0x80_0000;
    let magnitude = if exponent == 255 && fraction != 0 {
        0
    } else if exponent >= 127 {
        32767
    } else if exponent == 0 {
        round_ratio(32767 * fraction, two_to(149) as int)
    } else {
        round_ratio(32767 * (fraction + 0x80_0000), two_to((150 - exponent) as nat) as int)
    };
    if negative {
        -magnitude
    } else {
        magnitude
    }
}

proof fn lemma_two_to_monotone(a: nat, b: nat)
    requires
        a <= b,
    ensures
        two_to(a) <= two_to(b),
        two_to(a) >= 1,
    decreases b,
{
    if a < b {
        lemma_two_to_monotone(a, (b - 1) as nat);
    } else if a > 0 {
        lemma_two_to_monotone((a - 1) as nat, (a - 1) as nat);
    }
}

proof fn lemma_two_to_values()
    ensures
        two_to(23) == 0x80_0000,
        two_to(24) == 0x100_0000,
        two_to(39) == 0x80_0000_0000,
        two_to(40) == 0x100_0000_0000,
{
    reveal_with_fuel(two_to, 41);
}

/// For a mantissa below `2^shift` the rounded magnitude is at most 32767, and
/// it is 0 once `shift` reaches 40.
proof fn lemma_magnitude_bounds(mant: int, shift: nat)
    requires
        0 <= mant < two_to(shift),
        mant < 0x100_0000,
    ensures
        0 <= round_ratio(32767 * mant, two_to(shift) as int) <= 32767,
        shift >= 40 ==> round_ratio(32767 * mant, two_to(shift) as int) == 0,
{
    let p = two_to(shift) as int;
    lemma_two_to_monotone(0, shift);
    assert(2 * (32767 * mant) + p < 32768 * (2 * p));
    assert((2 * (32767 * mant) + p) / (2 * p) < 32768) by (nonlinear_arith)
        requires
            2 * (32767 * mant) + p < 32768 * (2 * p),
            p >= 1,
    ;
    assert((2 * (32767 * mant) + p) / (2 * p) >= 0) by (nonlinear_arith)
        requires
            mant >= 0,
            p >= 1,
    ;
    if shift >= 40 {
        lemma_two_to_values();
        lemma_two_to_monotone(40, shift);
        assert(2 * (32767 * mant) + p < 2 * p);
        assert((2 * (32767 * mant) + p) / (2 * p) == 0) by (nonlinear_arith)
            requires
                0 <= 2 * (32767 * mant) + p < 2 * p,
        ;
    }
}

/// Converts one float sample, given by its bit pattern, to a signed 16-bit
/// sample: clamp to [-1, 1], scale by 32767, round.
pub fn sample_to_i16(bits: u32) -> (r: i16)
    ensures
        r as int == s16_of_sample(bits),
{
    let negative = bits / 0x8000_0000 == 1;
    let exponent = (bits / 0x80_0000) % 256;
    let fraction = bits % 0x80_0000;
    let magnitude: u64 = if exponent == 255 && fraction != 0 {
        0
    } else if exponent >= 127 {
        32767
    } else {
        let mant: u64 = if exponent == 0 {
            fraction as u64
        } else {
            fraction as u64 + 0x80_0000
        };
        let shift: u32 = if exponent == 0 {
            149
        } else {
            150 - exponent
        };
        proof {
            lemma_two_to_values();
            if exponent == 0 {
                lemma_two_to_monotone(23, shift as nat);
            } else {
                lemma_two_to_monotone(24, shift as nat);
            }
            lemma_magnitude_bounds(mant as int, shift as nat);
        }
        if shift >= 40 {
            0
        } else {
            let mut d: u64 = 1;
            let mut k: u32 = 0;
            while k < shift
                invariant
                    k <= shift,
                    shift < 40,
                    d == two_to(k as nat),
                decreases shift - k,
            {
                proof {
                    lemma_two_to_monotone(k as nat, 39);
                    lemma_two_to_values();
                }
                d = d * 2;
                k = k + 1;
            }
            proof {
                lemma_two_to_monotone(shift as nat, 39);
                lemma_two_to_values();
                assert(mant < 0x100_0000);
                assert(65534 * mant <= 65534 * 0x100_0000) by (nonlinear_arith)
                    requires
                        mant < 0x100_0000,
                ;
            }
            let m = (65534 * mant + d) / (2 * d);
            assert(m == round_ratio(32767 * mant, two_to(shift as nat) as int));
            m
        }
    };
    if negative {
        -(magnitude as i16)
    } else {
        magnitude as i16
    }
}

/// The 16-bit two's-complement pattern of a converted sample.
pub open spec fn s16_pattern(bits: u32) -> int {
    if s16_of_sample(bits) < 0 {
        s16_of_sample(bits) + 65536
    } else {
        s16_of_sample(bits)
    }
}

/// Converted samples as little-endian signed 16-bit bytes.
pub open spec fn s16le_of(samples: Seq<u32>) -> Seq<u8> {
    Seq::new(
        2 * samples.len(),
        |i: int|
            if i % 2 == 0 {
                (s16_pattern(samples[i / 2]) % 256) as u8
            } else {
                (s16_pattern(samples[i / 2]) / 256) as u8
            },
    )
}

/// Converts a chunk of float samples to the sink's signed 16-bit
/// little-endian byte layout.
pub fn samples_to_s16le(samples: &Vec<u32>) -> (r: Vec<u8>)
    ensures
        r@ == s16le_of(samples@),
{
    let n = samples.len();
    let mut out: Vec<u8> = Vec::new();
    let mut i: usize = 0;
    while i < n
        invariant
            n == samples@.len(),
            i <= n,
            out@.len() == 2 * i,
            forall|j: int| 0 <= j < 2 * i ==> out@[j] == s16le_of(samples@)[j],
        decreases n - i,
    {
        let v = sample_to_i16(samples[i]);
        let u: u32 = if v < 0 {
            (v as i32 + 65536) as u32
        } else {
            v as u32
        };
        out.push((u % 256) as u8);
        out.push((u / 256) as u8);
        proof {
            assert forall|j: int| 2 * i <= j < 2 * i + 2 implies out@[j] == s16le_of(samples@)[j] by {
                assert(j / 2 == i as int);
            }
        }
        i = i + 1;
    }
    assert(out@ =~= s16le_of(samples@));
    out
}

// ---------------------------------------------------------------------------
// Re-framing

/// The full chunks of `n` samples at the front of `s`, in order.
pub open spec fn frames_of(s: Seq<u32>, n: nat) -> Seq<Seq<u32>>
    decreases s.len(),
{
    if n == 0 || s.len() < n {
        Seq::empty()
    } else {
        seq![s.take(n as int)] + frames_of(s.skip(n as int), n)
    }
}

/// What is left of `s` after its full chunks of `n` samples are taken.
pub open spec fn rest_of(s: Seq<u32>, n: nat) -> Seq<u32>
    decreases s.len(),
{
    if n == 0 || s.len() < n {
        s
    } else {
        rest_of(s.skip(n as int), n)
    }
}

/// The chunks of `chunks` laid end to end.
pub open spec fn concat(chunks: Seq<Seq<u32>>) -> Seq<u32>
    decreases chunks.len(),
{
    if chunks.len() == 0 {
        Seq::empty()
    } else {
        chunks[0] + concat(chunks.drop_first())
    }
}

/// Draining a queue gives chunks of exactly `n` samples and a remainder
/// shorter than `n` that, laid end to end, are the queue itself.
pub proof fn lemma_drain_reassembles(s: Seq<u32>, n: nat)
    requires
        n > 0,
    ensures
        concat(frames_of(s, n)) + rest_of(s, n) == s,
        forall|i: int| 0 <= i < frames_of(s, n).len() ==> (#[trigger] frames_of(s, n)[i]).len() == n,
        rest_of(s, n).len() < n,
        frames_of(s, n).len() == (s.len() as int) / (n as int),
    decreases s.len(),
{
    if s.len() >= n {
        let t = s.skip(n as int);
        lemma_drain_reassembles(t, n);
        let f = frames_of(s, n);
        assert(f == seq![s.take(n as int)] + frames_of(t, n));
        assert(f.drop_first() =~= frames_of(t, n));
        assert(concat(f) == s.take(n as int) + concat(frames_of(t, n)));
        assert(s.take(n as int) + (concat(frames_of(t, n)) + rest_of(t, n)) =~= s);
        assert(concat(f) + rest_of(s, n) =~= s.take(n as int) + (concat(frames_of(t, n)) + rest_of(t, n)));
        assert forall|i: int| 0 <= i < f.len() implies (#[trigger] f[i]).len() == n by {
            if i > 0 {
                assert(f[i] == frames_of(t, n)[i - 1]);
            }
        }
        assert((s.len() as int) / (n as int) == 1 + (t.len() as int) / (n as int)) by {
            vstd::arithmetic::div_mod::lemma_div_plus_one(t.len() as int, n as int);
        }
    } else {
        vstd::arithmetic::div_mod::lemma_basic_div(s.len() as int, n as int);
    }
}

/// Turns variable-length runs of samples into chunks of a fixed size, in
/// arrival order, holding any partial remainder until more samples come.
pub struct AudioReframer {
    pending: Vec<u32>,
    frame_size: usize,
}

impl View for AudioReframer {
    type V = Seq<u32>;

    closed spec fn view(&self) -> Seq<u32> {
        self.pending@
    }
}

impl AudioReframer {
    pub closed spec fn frame_size_spec(&self) -> nat {
        self.frame_size as nat
    }

    /// An empty re-framer that emits chunks of `frame_size` samples.
    pub fn new(frame_size: usize) -> (r: Self)
        requires
            frame_size > 0,
        ensures
            r@ == Seq::<u32>::empty(),
            r.frame_size_spec() == frame_size,
    {
        AudioReframer { pending: Vec::new(), frame_size }
    }

    /// The chunk size.
    pub fn frame_size(&self) -> (r: usize)
        ensures
            r == self.frame_size_spec(),
    {
        self.frame_size
    }

    /// Number of samples buffered.
    pub fn len(&self) -> (r: usize)
        ensures
            r == self@.len(),
    {
        self.pending.len()
    }

    /// Queues `samples` after those already buffered.
    pub fn append_samples(&mut self, samples: &Vec<u32>)
        ensures
            final(self)@ == old(self)@ + samples@,
            final(self).frame_size_spec() == old(self).frame_size_spec(),
    {
        let n = samples.len();
        let mut i: usize = 0;
        while i < n
            invariant
                n == samples@.len(),
                i <= n,
                self.frame_size == old(self).frame_size,
                self.pending@ == old(self).pending@ + samples@.take(i as int),
            decreases n - i,
        {
            self.pending.push(samples[i]);
            i = i + 1;
            assert(self.pending@ =~= old(self).pending@ + samples@.take(i as int));
        }
        assert(samples@.take(n as int) =~= samples@);
    }

    /// Takes the oldest full chunk, or `None` while fewer samples than a chunk
    /// are buffered.
    pub fn pop_frame(&mut self) -> (r: Option<Vec<u32>>)
        ensures
            final(self).frame_size_spec() == old(self).frame_size_spec(),
            r is Some <==> old(self)@.len() >= old(self).frame_size_spec(),
            r matches Some(c) ==> c@ == old(self)@.take(old(self).frame_size_spec() as int)
                && final(self)@ == old(self)@.skip(old(self).frame_size_spec() as int),
            r is None ==> final(self)@ == old(self)@,
    {
        if self.pending.len() < self.frame_size {
            return None;
        }
        let mut rest = self.pending.split_off(self.frame_size);
        std::mem::swap(&mut self.pending, &mut rest);
        assert(rest@ =~= old(self).pending@.take(self.frame_size as int));
        assert(self.pending@ =~= old(self).pending@.skip(self.frame_size as int));
        Some(rest)
    }

    /// Discards every buffered sample.
    pub fn reset(&mut self)
        ensures
            final(self)@ == Seq::<u32>::empty(),
            final(self).frame_size_spec() == old(self).frame_size_spec(),
    {
        self.pending.clear();
    }
}

/// Publish-side state of the audio stream: payloads in, sink-ready chunks
/// out. Alongside the buffer it keeps, as ghost state, every sample taken in
/// and every sample sent out, so that the order law can be stated.
pub struct AudioPublisher {
    reframer: AudioReframer,
    fed: Ghost<Seq<u32>>,
    emitted: Ghost<Seq<u32>>,
}

impl AudioPublisher {
    /// Samples buffered and not yet sent.
    pub closed spec fn pending_spec(&self) -> Seq<u32> {
        self.reframer@
    }

    /// Every sample taken in, in arrival order.
    pub closed spec fn fed_spec(&self) -> Seq<u32> {
        self.fed@
    }

    /// Every sample sent out, chunk after chunk.
    pub closed spec fn emitted_spec(&self) -> Seq<u32> {
        self.emitted@
    }

    /// Chunks are 320 samples, less than a chunk stays buffered, and what was
    /// sent followed by what is buffered is what was taken in.
    pub closed spec fn wf(&self) -> bool {
        &&& self.reframer.frame_size_spec() == AUDIO_FRAME_SAMPLES
        &&& self.reframer@.len() < AUDIO_FRAME_SAMPLES
        &&& self.emitted@ + self.reframer@ == self.fed@
    }

    /// A publisher with nothing buffered, emitting 320-sample chunks.
    pub fn new() -> (r: Self)
        ensures
            r.wf(),
            r.pending_spec() == Seq::<u32>::empty(),
            r.fed_spec() == Seq::<u32>::empty(),
            r.emitted_spec() == Seq::<u32>::empty(),
    {
        let r = AudioPublisher {
            reframer: AudioReframer::new(AUDIO_FRAME_SAMPLES),
            fed: Ghost(Seq::empty()),
            emitted: Ghost(Seq::empty()),
        };
        assert(r.emitted@ + r.reframer@ =~= r.fed@);
        r
    }

    /// Takes one captured payload: its samples join the buffer and every full
    /// chunk leaves it, converted to signed 16-bit little-endian bytes. A
    /// payload that is not a whole number of samples is rejected and nothing
    /// changes; an empty payload emits nothing.
    pub fn accept(&mut self, frame: &AudioFrame) -> (r: Result<Vec<Vec<u8>>, AudioFrameError>)
        requires
            old(self).wf(),
        ensures
            final(self).wf(),
            r is Ok <==> frame.data@.len() % 4 == 0,
            r is Err ==> final(self).pending_spec() == old(self).pending_spec()
                && final(self).fed_spec() == old(self).fed_spec()
                && final(self).emitted_spec() == old(self).emitted_spec(),
            r matches Ok(chunks) ==> ({
                let queue = old(self).pending_spec() + words_of(frame.data@);
                let frames = frames_of(queue, AUDIO_FRAME_SAMPLES as nat);
                &&& chunks@.len() == frames.len()
                &&& forall|i: int| 0 <= i < chunks@.len() ==> (#[trigger] chunks@[i])@ == s16le_of(frames[i])
                &&& final(self).pending_spec() == rest_of(queue, AUDIO_FRAME_SAMPLES as nat)
                &&& final(self).fed_spec() == old(self).fed_spec() + words_of(frame.data@)
                &&& final(self).emitted_spec() == old(self).emitted_spec() + concat(frames)
            }),
            frame.data@.len() == 0 ==> (r matches Ok(chunks) && chunks@.len() == 0),
    {
        let words = match decode_samples(&frame.data) {
            Ok(w) => w,
            Err(e) => {
                return Err(e);
            },
        };
        self.reframer.append_samples(&words);
        let ghost queue = self.reframer@;
        assert(queue == old(self).pending_spec() + words_of(frame.data@));
        let ghost n = AUDIO_FRAME_SAMPLES as nat;
        let mut chunks: Vec<Vec<u8>> = Vec::new();
        loop
            invariant
                self.reframer.frame_size_spec() == AUDIO_FRAME_SAMPLES,
                self.fed == old(self).fed,
                self.emitted == old(self).emitted,
                n == AUDIO_FRAME_SAMPLES,
                queue == old(self).pending_spec() + words_of(frame.data@),
                frames_of(queue, n) == Seq::new(chunks@.len() as nat, |i: int| frames_of(queue, n)[i])
                    + frames_of(self.reframer@, n),
                forall|i: int| 0 <= i < chunks@.len() ==> (#[trigger] chunks@[i])@ == s16le_of(frames_of(queue, n)[i]),
                rest_of(self.reframer@, n) == rest_of(queue, n),
                chunks@.len() <= frames_of(queue, n).len(),
            ensures
                self.reframer.frame_size_spec() == AUDIO_FRAME_SAMPLES,
                self.fed == old(self).fed,
                self.emitted == old(self).emitted,
                chunks@.len() == frames_of(queue, n).len(),
                forall|i: int| 0 <= i < chunks@.len() ==> (#[trigger] chunks@[i])@ == s16le_of(frames_of(queue, n)[i]),
                self.reframer@ == rest_of(queue, n),
            decreases self.reframer@.len(),
        {
            let ghost before = self.reframer@;
            match self.reframer.pop_frame() {
                Some(c) => {
                    proof {
                        assert(before.len() >= n);
                        assert(frames_of(before, n) == seq![before.take(n as int)] + frames_of(before.skip(n as int), n));
                    }
                    let bytes = samples_to_s16le(&c);
                    chunks.push(bytes);
                    proof {
                        let k = chunks@.len() - 1;
                        assert(frames_of(queue, n)[k] == before.take(n as int));
                        assert(frames_of(queue, n) =~= Seq::new(chunks@.len() as nat, |i: int| frames_of(queue, n)[i])
                            + frames_of(self.reframer@, n));
                    }
                },
                None => {
                    proof {
                        assert(before.len() < n);
                        assert(frames_of(before, n) == Seq::<Seq<u32>>::empty());
                        assert(frames_of(queue, n) =~= Seq::new(chunks@.len() as nat, |i: int| frames_of(queue, n)[i]));
                        assert(rest_of(before, n) == before);
                    }
                    break;
                },
            }
        }
        proof {
            lemma_drain_reassembles(queue, n);
            if frame.data@.len() == 0 {
                assert(words_of(frame.data@) =~= Seq::<u32>::empty());
                assert(queue =~= old(self).pending_spec());
                assert(frames_of(queue, n) == Seq::<Seq<u32>>::empty());
            }
        }
        self.fed = Ghost(self.fed@ + words_of(frame.data@));
        self.emitted = Ghost(self.emitted@ + concat(frames_of(queue, n)));
        proof {
            let old_emitted = old(self).emitted@;
            assert(self.emitted@ + self.reframer@ =~= old_emitted + (concat(frames_of(queue, n))
                + rest_of(queue, n)));
            assert(old_emitted + queue =~= (old_emitted + old(self).reframer@) + words_of(frame.data@));
        }
        Ok(chunks)
    }
}

/// Re-framing keeps every sample in arrival order over any sequence of
/// payloads: what an audio publisher has sent, chunk after chunk, followed by
/// what it still buffers, is exactly what it was fed, and less than one
/// chunk stays buffered.
pub proof fn lemma_publisher_keeps_order(p: &AudioPublisher)
    requires
        p.wf(),
    ensures
        p.emitted_spec() + p.pending_spec() == p.fed_spec(),
        p.pending_spec().len() < AUDIO_FRAME_SAMPLES,
{
}

} // verus!
