//! The cassette protocol: frequency-shift bit modulation, byte
//! serialization, segment framing and the two-segment program encoding.
//!
//! A logical bit is one full sine cycle — 1000 Hz for `true`, 2000 Hz for
//! `false` (the higher frequency carries the zero; that inversion is a
//! protocol invariant). A byte is its eight bits, most significant first. A
//! segment is a 770 Hz leader tone of four seconds, a sync marker of two
//! half cycles (2500 Hz high, then 2000 Hz low), the payload bytes, and one
//! footer bit, always `true`. A complete encoding is a metadata segment
//! (little-endian length minus one, a load-mode flag, an XOR checksum), a
//! program segment (the program bytes plus their XOR checksum), and a tenth
//! of a second of trailing silence.

use crate::sound::{
    all_in_range, cycle, cycle_len, half_cycle, half_cycle_len, lemma_concat_in_range,
    lemma_silence_in_range, lemma_wave_in_range, silence, silence_samples, tone, tone_len, wave,
    HalfCycle, Waveform,
};
use crate::STANDARD_RATE;
use vstd::arithmetic::div_mod::lemma_fundamental_div_mod;
use vstd::prelude::*;

verus! {

/// Frequency of the leader tone, in hertz.
pub const LEADER_FREQ: u32 = 770;

/// Duration of the leader tone, in milliseconds.
pub const LEADER_MS: u64 = 4000;

/// Frequency of the first, positive half cycle of the sync marker.
pub const SYNC_HIGH_FREQ: u32 = 2500;

/// Frequency of the second, negated half cycle of the sync marker.
pub const SYNC_LOW_FREQ: u32 = 2000;

/// Frequency of the cycle that encodes a `true` bit.
pub const BIT_ONE_FREQ: u32 = 1000;

/// Frequency of the cycle that encodes a `false` bit.
pub const BIT_ZERO_FREQ: u32 = 2000;

/// Duration of the trailing silence, in milliseconds.
pub const TRAILING_SILENCE_MS: u64 = 100;

/// Largest program the protocol can carry: the metadata segment encodes
/// `length - 1` in sixteen bits, so a length may reach one past the
/// sixteen-bit maximum, and a program can never be empty.
pub const MAX_PROGRAM_LEN: usize = 65536;

/// Why an encoding was rejected.
#[derive(Clone, Copy, Debug, PartialEq, Eq, Structural)]
pub enum EncodeError {
    /// The program was empty; the protocol cannot represent a zero length.
    LengthZero,
    /// The program held more than [`MAX_PROGRAM_LEN`] bytes.
    LengthTooLarge,
}

/// The load-mode flag carried in the metadata segment.
#[derive(Clone, Copy, Debug, PartialEq, Eq, Structural)]
pub enum LoadMode {
    /// The receiving machine only loads the program.
    LoadOnly,
    /// The receiving machine loads the program and runs it at once.
    LoadAndRun,
}

impl LoadMode {
    /// The flag byte a mode puts into the metadata segment.
    pub open spec fn spec_flag(self) -> u8 {
        match self {
            LoadMode::LoadOnly => 0x55,
            LoadMode::LoadAndRun => 0xD5,
        }
    }

    /// The flag byte a mode puts into the metadata segment.
    pub fn flag(self) -> (r: u8)
        ensures
            r == self.spec_flag(),
    {
        match self {
            LoadMode::LoadOnly => 0x55,
            LoadMode::LoadAndRun => 0xD5,
        }
    }
}

impl Default for LoadMode {
    /// The configuration's default: only load the program.
    fn default() -> (r: Self)
        ensures
            r == LoadMode::LoadOnly,
    {
        LoadMode::LoadOnly
    }
}

/// The frequency that carries one logical bit.
pub open spec fn bit_freq(value: bool) -> nat {
    if value {
        BIT_ONE_FREQ as nat
    } else {
        BIT_ZERO_FREQ as nat
    }
}

/// The samples of one modulated bit: one full cycle at the bit's frequency.
pub open spec fn bit_samples(w: Waveform, value: bool) -> Seq<i8> {
    wave(w, bit_freq(value), cycle_len(w, bit_freq(value)), false)
}

/// Bit `i` of a byte, bit 7 the most significant.
pub open spec fn bit_of(b: u8, i: nat) -> bool {
    (b >> i as u8) & 1 == 1
}

/// A byte's bits in transmission order: most significant first.
pub open spec fn bits_of_byte(b: u8) -> Seq<bool> {
    Seq::new(8, |k: int| bit_of(b, (7 - k) as nat))
}

/// The samples of a run of bits, each one modulated cycle, in order.
pub open spec fn bits_samples(w: Waveform, bits: Seq<bool>) -> Seq<i8>
    decreases bits.len(),
{
    if bits.len() == 0 {
        Seq::empty()
    } else {
        bits_samples(w, bits.drop_last()) + bit_samples(w, bits.last())
    }
}

/// The samples of one serialized byte: its eight bits, most significant
/// first.
pub open spec fn byte_samples(w: Waveform, b: u8) -> Seq<i8> {
    bits_samples(w, bits_of_byte(b))
}

/// The samples of a run of bytes, serialized in order.
pub open spec fn bytes_samples(w: Waveform, bs: Seq<u8>) -> Seq<i8>
    decreases bs.len(),
{
    if bs.len() == 0 {
        Seq::empty()
    } else {
        bytes_samples(w, bs.drop_last()) + byte_samples(w, bs.last())
    }
}

/// The samples of the sync marker: a positive half cycle at 2500 Hz, then a
/// negated half cycle at 2000 Hz.
pub open spec fn sync_samples(w: Waveform) -> Seq<i8> {
    wave(w, SYNC_HIGH_FREQ as nat, half_cycle_len(w, SYNC_HIGH_FREQ as nat), false) + wave(
        w,
        SYNC_LOW_FREQ as nat,
        half_cycle_len(w, SYNC_LOW_FREQ as nat),
        true,
    )
}

/// The samples of a segment header: the leader tone, then the sync marker.
pub open spec fn header_samples(w: Waveform) -> Seq<i8> {
    wave(w, LEADER_FREQ as nat, tone_len(w, LEADER_MS as nat), false) + sync_samples(w)
}

/// The samples of one framed segment: header, payload bytes, footer bit.
pub open spec fn segment_samples(w: Waveform, payload: Seq<u8>) -> Seq<i8> {
    header_samples(w) + bytes_samples(w, payload) + bit_samples(w, true)
}

/// A byte sequence folded with XOR from the given seed.
pub open spec fn xor_fold(seed: u8, bs: Seq<u8>) -> u8
    decreases bs.len(),
{
    if bs.len() == 0 {
        seed
    } else {
        xor_fold(seed, bs.drop_last()) ^ bs.last()
    }
}

/// The protocol checksum of a payload: XOR of all its bytes, seeded at 0xFF.
pub open spec fn checksum_of(bs: Seq<u8>) -> u8 {
    xor_fold(0xFF, bs)
}

/// The plain XOR of a byte sequence, seeded at zero.
pub open spec fn xor_of(bs: Seq<u8>) -> u8 {
    xor_fold(0, bs)
}

/// The low byte of the metadata length field: `length - 1`, little-endian.
pub open spec fn len_low(len: nat) -> u8 {
    ((len - 1) % 256) as u8
}

/// The high byte of the metadata length field: `length - 1`, little-endian.
pub open spec fn len_high(len: nat) -> u8 {
    (((len - 1) / 256) % 256) as u8
}

/// The checksum of the first three metadata bytes.
pub open spec fn meta_checksum(len: nat, flag: u8) -> u8 {
    0xFF ^ len_low(len) ^ len_high(len) ^ flag
}

/// The metadata segment's payload: the length field, the load-mode flag and
/// their checksum.
pub open spec fn meta_payload(len: nat, flag: u8) -> Seq<u8> {
    seq![len_low(len), len_high(len), flag, meta_checksum(len, flag)]
}

/// The samples of the metadata segment for a program of `len` bytes.
pub open spec fn first_segment_samples(w: Waveform, len: nat, flag: u8) -> Seq<i8> {
    segment_samples(w, meta_payload(len, flag))
}

/// The samples of the program segment: the program bytes plus their
/// checksum, framed.
pub open spec fn second_segment_samples(w: Waveform, bs: Seq<u8>) -> Seq<i8> {
    segment_samples(w, bs + seq![checksum_of(bs)])
}

/// The samples of a complete encoding: metadata segment, program segment,
/// trailing silence.
pub open spec fn encode_samples(w: Waveform, program: Seq<u8>, flag: u8) -> Seq<i8> {
    first_segment_samples(w, program.len(), flag) + second_segment_samples(w, program)
        + silence_samples(w, TRAILING_SILENCE_MS as nat)
}

/// One modulated bit: a full cycle at 1000 Hz for `true`, at 2000 Hz for
/// `false`.
pub fn bit(w: &Waveform, value: bool, out: &mut Vec<i8>)
    requires
        w.wf(),
    ensures
        final(out)@ == old(out)@ + bit_samples(*w, value),
{
    if value {
        cycle(w, BIT_ONE_FREQ, out);
    } else {
        cycle(w, BIT_ZERO_FREQ, out);
    }
}

/// One serialized byte: eight modulated bits, most significant first.
pub fn byte(w: &Waveform, value: u8, out: &mut Vec<i8>)
    requires
        w.wf(),
    ensures
        final(out)@ == old(out)@ + byte_samples(*w, value),
{
    let mut i: u8 = 0;
    while i < 8
        invariant
            w.wf(),
            i <= 8,
            out@ == old(out)@ + bits_samples(*w, bits_of_byte(value).take(i as int)),
        decreases 8 - i,
    {
        let is_set = (value >> (7 - i)) & 1 == 1;
        bit(w, is_set, out);
        proof {
            let bits = bits_of_byte(value);
            assert(bits.take(i as int + 1).drop_last() =~= bits.take(i as int));
            assert(bits.take(i as int + 1).last() == bits[i as int]);
            assert(is_set == bits[i as int]);
            assert(out@ =~= old(out)@ + bits_samples(*w, bits.take(i as int + 1)));
        }
        i = i + 1;
    }
    proof {
        assert(bits_of_byte(value).take(8) =~= bits_of_byte(value));
    }
}

/// The sync marker: a positive 2500 Hz half cycle, then a negated 2000 Hz
/// half cycle.
pub fn sync_bit(w: &Waveform, out: &mut Vec<i8>)
    requires
        w.wf(),
    ensures
        final(out)@ == old(out)@ + sync_samples(*w),
{
    half_cycle(w, SYNC_HIGH_FREQ, HalfCycle::High, out);
    half_cycle(w, SYNC_LOW_FREQ, HalfCycle::Low, out);
    proof {
        assert(out@ =~= old(out)@ + sync_samples(*w));
    }
}

/// A segment header: the four-second 770 Hz leader tone, then the sync
/// marker.
pub fn segment_header(w: &Waveform, out: &mut Vec<i8>)
    requires
        w.wf(),
        LEADER_MS as nat * w.rate() <= usize::MAX as nat,
    ensures
        final(out)@ == old(out)@ + header_samples(*w),
{
    tone(w, LEADER_FREQ, LEADER_MS, out);
    sync_bit(w, out);
    proof {
        assert(out@ =~= old(out)@ + header_samples(*w));
    }
}

/// The segment footer: one `true` bit, emitted after every segment. Only
/// the final segment strictly needs it for the receiver to terminate, but
/// framing stays uniform and the extra bit is ignored.
pub fn segment_footer(w: &Waveform, out: &mut Vec<i8>)
    requires
        w.wf(),
    ensures
        final(out)@ == old(out)@ + bit_samples(*w, true),
{
    bit(w, true, out);
}

/// One framed segment: header, every payload byte in order, footer bit.
pub fn frame(w: &Waveform, payload: &Vec<u8>, out: &mut Vec<i8>)
    requires
        w.wf(),
        LEADER_MS as nat * w.rate() <= usize::MAX as nat,
    ensures
        final(out)@ == old(out)@ + segment_samples(*w, payload@),
{
    segment_header(w, out);
    proof {
        assert(bytes_samples(*w, payload@.take(0)) =~= Seq::<i8>::empty());
        assert(out@ =~= old(out)@ + header_samples(*w) + bytes_samples(*w, payload@.take(0)));
    }
    let mut i: usize = 0;
    while i < payload.len()
        invariant
            w.wf(),
            i <= payload@.len(),
            out@ == old(out)@ + header_samples(*w) + bytes_samples(*w, payload@.take(i as int)),
        decreases payload@.len() - i,
    {
        byte(w, payload[i], out);
        proof {
            assert(payload@.take(i as int + 1).drop_last() =~= payload@.take(i as int));
            assert(payload@.take(i as int + 1).last() == payload@[i as int]);
            assert(out@ =~= old(out)@ + header_samples(*w) + bytes_samples(
                *w,
                payload@.take(i as int + 1),
            ));
        }
        i = i + 1;
    }
    segment_footer(w, out);
    proof {
        assert(payload@.take(payload@.len() as int) =~= payload@);
        assert(out@ =~= old(out)@ + segment_samples(*w, payload@));
    }
}

/// The protocol checksum of the bytes: XOR of all of them, seeded at 0xFF.
pub fn checksum(bytes: &Vec<u8>) -> (r: u8)
    ensures
        r == checksum_of(bytes@),
{
    let mut cks: u8 = 0xFF;
    let mut i: usize = 0;
    while i < bytes.len()
        invariant
            i <= bytes@.len(),
            cks == xor_fold(0xFF, bytes@.take(i as int)),
        decreases bytes@.len() - i,
    {
        cks = cks ^ bytes[i];
        proof {
            assert(bytes@.take(i as int + 1).drop_last() =~= bytes@.take(i as int));
            assert(bytes@.take(i as int + 1).last() == bytes@[i as int]);
        }
        i = i + 1;
    }
    proof {
        assert(bytes@.take(bytes@.len() as int) =~= bytes@);
    }
    cks
}

/// The metadata segment's payload for a program of `len` bytes: the
/// little-endian length field holding `len - 1`, the load-mode flag and
/// their checksum. Rejects the lengths the protocol cannot represent.
pub fn metadata_payload(len: usize, mode: LoadMode) -> (r: Result<Vec<u8>, EncodeError>)
    ensures
        r is Ok <==> 1 <= len <= MAX_PROGRAM_LEN,
        r is Ok ==> r->Ok_0@ == meta_payload(len as nat, mode.spec_flag()),
        len == 0 ==> r matches Err(EncodeError::LengthZero),
        len > MAX_PROGRAM_LEN ==> r matches Err(EncodeError::LengthTooLarge),
{
    if len == 0 {
        return Err(EncodeError::LengthZero);
    }
    if len > MAX_PROGRAM_LEN {
        return Err(EncodeError::LengthTooLarge);
    }
    let len_minus_one: u16 = (len - 1) as u16;
    let low: u8 = (len_minus_one % 256) as u8;
    let high: u8 = (len_minus_one / 256) as u8;
    let flag: u8 = mode.flag();
    let cks: u8 = 0xFF ^ low ^ high ^ flag;
    let mut p: Vec<u8> = Vec::new();
    p.push(low);
    p.push(high);
    p.push(flag);
    p.push(cks);
    proof {
        assert(p@ =~= meta_payload(len as nat, mode.spec_flag()));
    }
    Ok(p)
}

/// The metadata segment: validates the program length, then frames the
/// metadata payload. On rejection nothing is emitted.
pub fn first_segment(w: &Waveform, len: usize, mode: LoadMode, out: &mut Vec<i8>) -> (r: Result<
    (),
    EncodeError,
>)
    requires
        w.wf(),
        LEADER_MS as nat * w.rate() <= usize::MAX as nat,
    ensures
        r is Ok <==> 1 <= len <= MAX_PROGRAM_LEN,
        r is Ok ==> final(out)@ == old(out)@ + first_segment_samples(
            *w,
            len as nat,
            mode.spec_flag(),
        ),
        r is Err ==> final(out)@ == old(out)@,
        len == 0 ==> r matches Err(EncodeError::LengthZero),
        len > MAX_PROGRAM_LEN ==> r matches Err(EncodeError::LengthTooLarge),
{
    let payload = match metadata_payload(len, mode) {
        Ok(p) => p,
        Err(e) => {
            return Err(e);
        },
    };
    frame(w, &payload, out);
    Ok(())
}

/// The program segment: the program bytes followed by their checksum,
/// framed.
pub fn second_segment(w: &Waveform, bytes: &Vec<u8>, out: &mut Vec<i8>)
    requires
        w.wf(),
        LEADER_MS as nat * w.rate() <= usize::MAX as nat,
    ensures
        final(out)@ == old(out)@ + second_segment_samples(*w, bytes@),
{
    let cks = checksum(bytes);
    let mut payload: Vec<u8> = Vec::new();
    let mut i: usize = 0;
    while i < bytes.len()
        invariant
            i <= bytes@.len(),
            payload@ == bytes@.take(i as int),
        decreases bytes@.len() - i,
    {
        payload.push(bytes[i]);
        proof {
            assert(bytes@.take(i as int + 1) =~= bytes@.take(i as int).push(bytes@[i as int]));
        }
        i = i + 1;
    }
    proof {
        assert(bytes@.take(bytes@.len() as int) =~= bytes@);
    }
    payload.push(cks);
    proof {
        assert(payload@ =~= bytes@ + seq![checksum_of(bytes@)]);
    }
    frame(w, &payload, out);
}

/// A complete encoding: the metadata segment, the program segment and the
/// trailing silence. Rejects an empty program and one of more than
/// [`MAX_PROGRAM_LEN`] bytes before emitting anything.
pub fn encode(w: &Waveform, program: &Vec<u8>, mode: LoadMode) -> (r: Result<Vec<i8>, EncodeError>)
    requires
        w.wf(),
        LEADER_MS as nat * w.rate() <= usize::MAX as nat,
    ensures
        r is Ok <==> 1 <= program@.len() <= MAX_PROGRAM_LEN,
        r is Ok ==> r->Ok_0@ == encode_samples(*w, program@, mode.spec_flag()),
        program@.len() == 0 ==> r matches Err(EncodeError::LengthZero),
        program@.len() > MAX_PROGRAM_LEN ==> r matches Err(EncodeError::LengthTooLarge),
{
    let mut out: Vec<i8> = Vec::new();
    match first_segment(w, program.len(), mode, &mut out) {
        Ok(()) => {},
        Err(e) => {
            return Err(e);
        },
    }
    second_segment(w, program, &mut out);
    silence(w, TRAILING_SILENCE_MS, &mut out);
    proof {
        assert(out@ =~= encode_samples(*w, program@, mode.spec_flag()));
    }
    Ok(out)
}

/// Metadata checksum law: the seed, the three metadata bytes and their
/// checksum XOR to zero, for every representable length and any flag.
pub proof fn lemma_metadata_checksum(len: nat, flag: u8)
    requires
        1 <= len <= MAX_PROGRAM_LEN as nat,
    ensures
        0xFF ^ len_low(len) ^ len_high(len) ^ flag ^ meta_checksum(len, flag) == 0,
{
    let l = len_low(len);
    let h = len_high(len);
    assert(0xFF ^ l ^ h ^ flag ^ (0xFF ^ l ^ h ^ flag) == 0) by (bit_vector);
}

/// Folding from a seed is the seed XORed onto the plain fold.
proof fn lemma_xor_fold_seed(seed: u8, bs: Seq<u8>)
    ensures
        xor_fold(seed, bs) == seed ^ xor_of(bs),
    decreases bs.len(),
{
    if bs.len() == 0 {
        assert(seed ^ 0 == seed) by (bit_vector);
    } else {
        lemma_xor_fold_seed(seed, bs.drop_last());
        lemma_xor_fold_seed(0, bs.drop_last());
        let a = xor_of(bs.drop_last());
        let b = bs.last();
        let s = seed;
        assert((s ^ a) ^ b == s ^ ((0 ^ a) ^ b)) by (bit_vector);
    }
}

/// Program checksum law: the seed, the XOR of all program bytes and the
/// payload checksum XOR to zero, for any program the protocol accepts.
pub proof fn lemma_program_checksum(bs: Seq<u8>)
    requires
        1 <= bs.len() <= MAX_PROGRAM_LEN as nat,
    ensures
        0xFF ^ xor_of(bs) ^ checksum_of(bs) == 0,
{
    lemma_xor_fold_seed(0xFF, bs);
    let x = xor_of(bs);
    assert(0xFF ^ x ^ (0xFF ^ x) == 0) by (bit_vector);
}

/// Length encoding law: the two metadata length bytes hold `len - 1` in
/// little-endian order.
pub proof fn lemma_length_encoding(len: nat)
    requires
        1 <= len <= MAX_PROGRAM_LEN as nat,
    ensures
        len_low(len) as nat + 256 * (len_high(len) as nat) == (len - 1) as nat,
{
    lemma_fundamental_div_mod((len - 1) as int, 256);
    assert((len - 1) / 256 < 256);
}

/// A modulated bit stays within the amplitude range.
proof fn lemma_bit_samples_in_range(w: Waveform, value: bool)
    requires
        w.wf(),
    ensures
        all_in_range(bit_samples(w, value)),
{
    lemma_wave_in_range(w, bit_freq(value), cycle_len(w, bit_freq(value)), false);
}

/// A run of modulated bits stays within the amplitude range.
proof fn lemma_bits_samples_in_range(w: Waveform, bits: Seq<bool>)
    requires
        w.wf(),
    ensures
        all_in_range(bits_samples(w, bits)),
    decreases bits.len(),
{
    if bits.len() > 0 {
        lemma_bits_samples_in_range(w, bits.drop_last());
        lemma_bit_samples_in_range(w, bits.last());
        lemma_concat_in_range(bits_samples(w, bits.drop_last()), bit_samples(w, bits.last()));
    }
}

/// A run of serialized bytes stays within the amplitude range.
proof fn lemma_bytes_samples_in_range(w: Waveform, bs: Seq<u8>)
    requires
        w.wf(),
    ensures
        all_in_range(bytes_samples(w, bs)),
    decreases bs.len(),
{
    if bs.len() > 0 {
        lemma_bytes_samples_in_range(w, bs.drop_last());
        lemma_bits_samples_in_range(w, bits_of_byte(bs.last()));
        lemma_concat_in_range(bytes_samples(w, bs.drop_last()), byte_samples(w, bs.last()));
    }
}

/// A framed segment stays within the amplitude range.
proof fn lemma_segment_samples_in_range(w: Waveform, payload: Seq<u8>)
    requires
        w.wf(),
    ensures
        all_in_range(segment_samples(w, payload)),
{
    lemma_wave_in_range(w, LEADER_FREQ as nat, tone_len(w, LEADER_MS as nat), false);
    lemma_wave_in_range(w, SYNC_HIGH_FREQ as nat, half_cycle_len(w, SYNC_HIGH_FREQ as nat), false);
    lemma_wave_in_range(w, SYNC_LOW_FREQ as nat, half_cycle_len(w, SYNC_LOW_FREQ as nat), true);
    lemma_concat_in_range(
        wave(w, SYNC_HIGH_FREQ as nat, half_cycle_len(w, SYNC_HIGH_FREQ as nat), false),
        wave(w, SYNC_LOW_FREQ as nat, half_cycle_len(w, SYNC_LOW_FREQ as nat), true),
    );
    lemma_concat_in_range(
        wave(w, LEADER_FREQ as nat, tone_len(w, LEADER_MS as nat), false),
        sync_samples(w),
    );
    lemma_bytes_samples_in_range(w, payload);
    lemma_concat_in_range(header_samples(w), bytes_samples(w, payload));
    lemma_bit_samples_in_range(w, true);
    lemma_concat_in_range(header_samples(w) + bytes_samples(w, payload), bit_samples(w, true));
}

/// Amplitude law: every sample of a complete encoding lies within the
/// closed range -96 to 96; nothing ever reaches the full 8-bit extremes.
pub proof fn lemma_encode_samples_in_range(w: Waveform, program: Seq<u8>, flag: u8)
    requires
        w.wf(),
    ensures
        all_in_range(encode_samples(w, program, flag)),
{
    lemma_segment_samples_in_range(w, meta_payload(program.len(), flag));
    lemma_segment_samples_in_range(w, program + seq![checksum_of(program)]);
    lemma_concat_in_range(
        first_segment_samples(w, program.len(), flag),
        second_segment_samples(w, program),
    );
    lemma_silence_in_range(w, TRAILING_SILENCE_MS as nat);
    lemma_concat_in_range(
        first_segment_samples(w, program.len(), flag) + second_segment_samples(w, program),
        silence_samples(w, TRAILING_SILENCE_MS as nat),
    );
}

/// Sync law: at the standard sample rate, the sync marker's half cycles are
/// shorter than any data-bit cycle, so a decoder can tell sync from data by
/// duration alone.
pub proof fn lemma_sync_marker_distinct(w: Waveform)
    requires
        w.rate() == STANDARD_RATE as nat,
    ensures
        half_cycle_len(w, SYNC_HIGH_FREQ as nat) != cycle_len(w, BIT_ONE_FREQ as nat),
        half_cycle_len(w, SYNC_HIGH_FREQ as nat) != cycle_len(w, BIT_ZERO_FREQ as nat),
        half_cycle_len(w, SYNC_LOW_FREQ as nat) != cycle_len(w, BIT_ONE_FREQ as nat),
        half_cycle_len(w, SYNC_LOW_FREQ as nat) != cycle_len(w, BIT_ZERO_FREQ as nat),
{
}

} // verus!
