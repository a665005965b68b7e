//! One-shot waveform extraction: reduce a fully decoded track to a
//! fixed-length, normalized amplitude envelope.
//!
//! The caller decodes the file (an I/O concern kept outside this library)
//! and hands the raw interleaved samples in; everything from there on —
//! bucketing, per-bucket mean of absolute amplitude, normalization to a
//! peak of exactly `SCALE` — is verified here.  Envelope values are
//! fixed-point: `SCALE` stands for 1.0.

use vstd::prelude::*;

use vstd::arithmetic::div_mod::lemma_div_is_ordered;
use vstd::arithmetic::div_mod::lemma_div_by_multiple;

use crate::SCALE;

verus! {

/// Largest sample count the extractor accepts.
pub const MAX_SAMPLES: usize = 0x8000_0000;

/// Largest envelope length the extractor accepts.
pub const MAX_WIDTH: usize = 0x1_0000;

/// Largest value a raw (un-normalized) bucket mean can take: the
/// magnitude of the most negative 16-bit sample.
pub const RAW_LIMIT: u64 = 32768;

/// The magnitude of one decoded sample.
pub open spec fn abs_sample(s: i16) -> int {
    if s < 0 {
        -(s as int)
    } else {
        s as int
    }
}

/// Sum of sample magnitudes at `idx`, `idx + step`, ... below `end`:
/// one representative channel sample per frame of an interleaved stream.
pub open spec fn stepped_abs_sum(s: Seq<i16>, idx: int, end: int, step: int) -> int
    decreases end - idx + step,
        when 0 < step
{
    if idx < end {
        abs_sample(s[idx]) + stepped_abs_sum(s, idx + step, end, step)
    } else {
        0
    }
}

/// How many indices `idx`, `idx + step`, ... lie below `end`.
pub open spec fn stepped_count(idx: int, end: int, step: int) -> int
    decreases end - idx + step,
        when 0 < step
{
    if idx < end {
        1 + stepped_count(idx + step, end, step)
    } else {
        0
    }
}

/// Frames per envelope bucket: `total_frames / target_width`, at least 1.
pub open spec fn bucket_width(s: Seq<i16>, channels: int, target_width: int) -> int {
    let per = ((s.len() as int) / channels) / target_width;
    if per >= 1 {
        per
    } else {
        1
    }
}

/// The raw value of bucket `i`: the mean magnitude over its frame range,
/// or 0 for a bucket that starts past the available data.
pub open spec fn bucket_value(s: Seq<i16>, channels: int, per: int, i: int) -> int {
    let start = i * per * channels;
    let stop = if (i + 1) * per * channels < s.len() {
        (i + 1) * per * channels
    } else {
        s.len() as int
    };
    if start >= s.len() {
        0
    } else {
        let cnt = stepped_count(start, stop, channels);
        if cnt > 0 {
            stepped_abs_sum(s, start, stop, channels) / cnt
        } else {
            0
        }
    }
}

/// The whole un-normalized envelope.
pub open spec fn raw_envelope(s: Seq<i16>, channels: int, target_width: int) -> Seq<int> {
    Seq::new(
        target_width as nat,
        |i: int| bucket_value(s, channels, bucket_width(s, channels, target_width), i),
    )
}

/// The largest element of a sequence, or 0 for an empty one.
pub open spec fn seq_max(s: Seq<int>) -> int
    decreases s.len(),
{
    if s.len() == 0 {
        0
    } else {
        let m = seq_max(s.drop_last());
        if s.last() > m {
            s.last()
        } else {
            m
        }
    }
}

/// The view of an envelope vector as a sequence of integers.
pub open spec fn as_ints(s: Seq<u64>) -> Seq<int> {
    s.map_values(|v: u64| v as int)
}

/// A value rescaled so that the peak `m` maps to exactly `SCALE`;
/// untouched when there is no peak to scale by.
pub open spec fn normalized_value(v: int, m: int) -> int {
    if m > 0 {
        v * (SCALE as int) / m
    } else {
        v
    }
}

/// Over non-negative values, every element of a sequence is bounded by
/// its maximum, the maximum is non-negative, and the maximum of a
/// non-empty sequence is attained at some index.
pub proof fn lemma_seq_max_properties(s: Seq<int>)
    requires
        forall|i: int| 0 <= i < s.len() ==> #[trigger] s[i] >= 0,
    ensures
        forall|i: int| 0 <= i < s.len() ==> #[trigger] s[i] <= seq_max(s),
        seq_max(s) >= 0,
        s.len() > 0 ==> exists|i: int| 0 <= i < s.len() && s[i] == seq_max(s),
    decreases s.len(),
{
    if s.len() > 0 {
        assert(forall|i: int| 0 <= i < s.len() - 1 ==> s[i] == #[trigger] s.drop_last()[i]);
        lemma_seq_max_properties(s.drop_last());
        assert(s.last() == s[s.len() - 1]);
        assert forall|i: int| 0 <= i < s.len() implies #[trigger] s[i] <= seq_max(s) by {
            if i < s.len() - 1 {
                assert(s.drop_last()[i] <= seq_max(s.drop_last()));
            }
        }
        if s.last() > seq_max(s.drop_last()) {
            assert(s[s.len() - 1] == seq_max(s));
        } else {
            if s.len() > 1 {
                let j = choose|j: int|
                    0 <= j < s.drop_last().len() && s.drop_last()[j] == seq_max(s.drop_last());
                assert(s[j] == seq_max(s));
            } else {
                assert(s[0] == seq_max(s));
            }
        }
    }
}

/// Scale an envelope in place so that its peak becomes exactly `SCALE`.
/// A silent (all-zero) envelope is left untouched, with no division.
pub fn normalize_waveform(waveform: &mut Vec<u64>)
    requires
        forall|i: int|
            0 <= i < old(waveform)@.len() ==> (#[trigger] old(waveform)@[i]) <= RAW_LIMIT,
    ensures
        final(waveform)@.len() == old(waveform)@.len(),
        forall|i: int|
            0 <= i < old(waveform)@.len() ==> (#[trigger] final(waveform)@[i]) as int
                == normalized_value(old(waveform)@[i] as int, seq_max(as_ints(old(waveform)@))),
        forall|i: int|
            0 <= i < old(waveform)@.len() ==> (#[trigger] final(waveform)@[i]) <= SCALE,
        seq_max(as_ints(old(waveform)@)) > 0 ==> exists|i: int|
            0 <= i < old(waveform)@.len() && final(waveform)@[i] == SCALE,
{
    let ghost orig = waveform@;
    let ghost origi = as_ints(orig);
    proof {
        assert(origi.len() == orig.len());
        assert forall|k: int| 0 <= k < origi.len() implies #[trigger] origi[k] >= 0 by {
            assert(origi[k] == orig[k] as int);
        }
        lemma_seq_max_properties(origi);
    }
    let len: usize = waveform.len();
    let mut max: u64 = 0;
    let mut i: usize = 0;
    while i < len
        invariant
            i <= len,
            len == waveform@.len(),
            waveform@ == orig,
            origi == as_ints(orig),
            max as int == seq_max(origi.take(i as int)),
        decreases len - i,
    {
        let v: u64 = waveform[i];
        proof {
            assert(origi.take(i + 1).drop_last() =~= origi.take(i as int));
            assert(origi.take(i + 1).last() == origi[i as int]);
            assert(origi[i as int] == orig[i as int] as int);
        }
        if v > max {
            max = v;
        }
        i = i + 1;
    }
    proof {
        assert(origi.take(len as int) =~= origi);
    }
    if max == 0 {
        proof {
            assert forall|k: int| 0 <= k < len implies (#[trigger] waveform@[k]) == 0 by {
                assert(origi[k] == orig[k] as int);
                assert(origi[k] <= seq_max(origi));
            }
        }
        return ;
    }
    let mut j: usize = 0;
    while j < len
        invariant
            j <= len,
            len == waveform@.len(),
            origi == as_ints(orig),
            orig.len() == len,
            max as int == seq_max(origi),
            max > 0,
            forall|k: int| 0 <= k < len ==> (#[trigger] orig[k]) <= RAW_LIMIT,
            forall|k: int| 0 <= k < len ==> #[trigger] origi[k] <= seq_max(origi),
            forall|k: int| 0 <= k < len ==> #[trigger] origi[k] == orig[k] as int,
            forall|k: int| j <= k < len ==> (#[trigger] waveform@[k]) == orig[k],
            forall|k: int|
                0 <= k < j ==> (#[trigger] waveform@[k]) as int == normalized_value(
                    orig[k] as int,
                    seq_max(origi),
                ) && waveform@[k] <= SCALE && (orig[k] as int == seq_max(origi) ==> waveform@[k]
                    == SCALE),
        decreases len - j,
    {
        let v: u64 = waveform[j];
        let scaled: u64 = v * SCALE;
        let nv: u64 = scaled / max;
        proof {
            assert(origi[j as int] == orig[j as int] as int);
            assert(origi[j as int] <= seq_max(origi));
            assert(v <= max);
            lemma_div_is_ordered(v as int * SCALE as int, max as int * SCALE as int, max as int);
            lemma_div_by_multiple(SCALE as int, max as int);
            assert(max as int * SCALE as int == SCALE as int * max as int) by (nonlinear_arith);
            assert(nv <= SCALE);
        }
        waveform[j] = nv;
        j = j + 1;
    }
    proof {
        let m = seq_max(origi);
        let w = choose|w: int| 0 <= w < origi.len() && origi[w] == m;
        assert(waveform@[w] == SCALE);
    }
}

/// Reduce a decoded, interleaved sample stream to a `target_width`-long
/// normalized envelope.  Each bucket is the mean magnitude of one
/// representative channel sample per frame over its range; buckets past
/// the end of the data are 0; the result is scaled so its peak is
/// exactly `SCALE` (or left all zero for silent input).
pub fn generate_waveform(samples: &Vec<i16>, channels: u16, target_width: usize) -> (r: Vec<
    u64,
>)
    requires
        1 <= channels,
        1 <= target_width <= MAX_WIDTH,
        samples@.len() <= MAX_SAMPLES,
    ensures
        r@.len() == target_width,
        forall|i: int|
            0 <= i < target_width ==> (#[trigger] r@[i]) as int == normalized_value(
                raw_envelope(samples@, channels as int, target_width as int)[i],
                seq_max(raw_envelope(samples@, channels as int, target_width as int)),
            ),
        forall|i: int| 0 <= i < target_width ==> (#[trigger] r@[i]) <= SCALE,
        seq_max(raw_envelope(samples@, channels as int, target_width as int)) > 0 ==> exists|
            i: int,
        | 0 <= i < target_width && r@[i] == SCALE,
        seq_max(raw_envelope(samples@, channels as int, target_width as int)) == 0 ==> forall|
            i: int,
        | 0 <= i < target_width ==> (#[trigger] r@[i]) == 0,
{
    let ghost sseq = samples@;
    let ghost chi = channels as int;
    let ghost twi = target_width as int;
    let ghost env = raw_envelope(sseq, chi, twi);
    let len: usize = samples.len();
    let ch: usize = channels as usize;
    let total: usize = len / ch;
    let per: usize = {
        let q: usize = total / target_width;
        if q >= 1 {
            q
        } else {
            1
        }
    };
    proof {
        assert(per == bucket_width(sseq, chi, twi));
        assert(total <= len) by (nonlinear_arith)
            requires
                total == len as int / (ch as int),
                1 <= ch,
                0 <= len,
        ;
        assert(per <= total || per == 1) by (nonlinear_arith)
            requires
                per == total as int / (target_width as int) || per == 1,
                1 <= target_width,
                0 <= total,
        ;
    }
    let mut out: Vec<u64> = Vec::new();
    let mut i: usize = 0;
    while i < target_width
        invariant
            i <= target_width,
            env == raw_envelope(sseq, chi, twi),
            env.len() == target_width,
            sseq == samples@,
            len == sseq.len(),
            len <= MAX_SAMPLES,
            target_width <= MAX_WIDTH,
            ch == channels as usize,
            1 <= ch <= 0x1_0000,
            per == bucket_width(sseq, chi, twi),
            1 <= per <= MAX_SAMPLES,
            chi == ch as int,
            twi == target_width as int,
            out@.len() == i,
            forall|j: int|
                0 <= j < i ==> (#[trigger] out@[j]) as int == env[j] && out@[j] <= RAW_LIMIT,
        decreases target_width - i,
    {
        proof {
            assert((i as u64) * (per as u64) <= 0x8000_0000_0000 && ((i as u64) * (per as u64))
                * (ch as u64) <= 0x8000_0000_0000_0000 && ((i as u64) + 1) * (per as u64)
                <= 0x8000_0000_0000 && (((i as u64) + 1) * (per as u64)) * (ch as u64)
                <= 0x8000_0000_0000_0000 && (i as u64) * (per as u64) * (ch as u64) < ((
            i as u64) + 1) * (per as u64) * (ch as u64)) by (nonlinear_arith)
                requires
                    i as u64 + 1 <= 0x1_0000,
                    0 < per <= 0x8000_0000,
                    0 < ch <= 0x1_0000,
            ;
        }
        let start64: u64 = (i as u64) * (per as u64) * (ch as u64);
        let stop64: u64 = ((i as u64) + 1) * (per as u64) * (ch as u64);
        let stop: usize = if stop64 < len as u64 {
            stop64 as usize
        } else {
            len
        };
        proof {
            assert(start64 as int == i as int * per as int * chi && stop64 as int == (i as int
                + 1) * per as int * chi) by (nonlinear_arith)
                requires
                    start64 == (i as u64) * (per as u64) * (ch as u64),
                    stop64 == ((i as u64) + 1) * (per as u64) * (ch as u64),
                    chi == ch as int,
                    i as u64 + 1 <= 0x1_0000,
                    0 < per <= 0x8000_0000,
                    0 < ch <= 0x1_0000,
            ;
        }
        if start64 >= len as u64 {
            out.push(0);
            assert(env[i as int] == 0);
        } else {
            let start: usize = start64 as usize;
            let mut idx: usize = start;
            let mut sum: u64 = 0;
            let mut cnt: u64 = 0;
            while idx < stop
                invariant
                    sseq == samples@,
                    len == sseq.len(),
                    len <= MAX_SAMPLES,
                    stop <= len,
                    start <= idx,
                    1 <= ch <= 0x1_0000,
                    idx <= stop + ch,
                    cnt as int <= idx - start,
                    sum <= cnt * RAW_LIMIT,
                    sum as int + stepped_abs_sum(sseq, idx as int, stop as int, ch as int)
                        == stepped_abs_sum(sseq, start as int, stop as int, ch as int),
                    cnt as int + stepped_count(idx as int, stop as int, ch as int)
                        == stepped_count(start as int, stop as int, ch as int),
                decreases stop + ch - idx,
            {
                let v: i64 = samples[idx] as i64;
                let a: u64 = if v < 0 {
                    (-v) as u64
                } else {
                    v as u64
                };
                assert(a as int == abs_sample(sseq[idx as int]));
                assert(a <= RAW_LIMIT);
                sum = sum + a;
                cnt = cnt + 1;
                idx = idx + ch;
            }
            let avg: u64 = if cnt > 0 {
                proof {
                    lemma_div_is_ordered(sum as int, cnt as int * RAW_LIMIT as int, cnt as int);
                    lemma_div_by_multiple(RAW_LIMIT as int, cnt as int);
                    assert(cnt as int * RAW_LIMIT as int == RAW_LIMIT as int * cnt as int)
                        by (nonlinear_arith);
                }
                sum / cnt
            } else {
                0
            };
            assert(avg as int == env[i as int] && avg <= RAW_LIMIT);
            out.push(avg);
        }
        i = i + 1;
    }
    proof {
        assert(as_ints(out@) =~= env);
        assert forall|k: int| 0 <= k < env.len() implies #[trigger] env[k] >= 0 by {
            assert(env[k] == as_ints(out@)[k]);
            assert(as_ints(out@)[k] == out@[k] as int);
        }
        lemma_seq_max_properties(env);
    }
    normalize_waveform(&mut out);
    out
}

} // verus!
