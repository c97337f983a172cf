//! Normalisation of device samples to mono, signed 16-bit little-endian PCM.
use vstd::prelude::*;

verus! {

/// Rust's integer division, which rounds toward zero.
pub open spec fn div_toward_zero(a: int, b: int) -> int {
    if a >= 0 {
        a / b
    } else {
        -((-a) / b)
    }
}

/// Sum of a sequence of integers.
pub open spec fn sum_of(s: Seq<int>) -> int
    decreases s.len(),
{
    if s.len() == 0 {
        0
    } else {
        sum_of(s.drop_last()) + s.last()
    }
}

/// Averages each run of `ch` samples (the last run may be shorter, and is
/// still divided by `ch`) into one sample, for `ch >= 2`.
pub open spec fn average_frames(s: Seq<int>, ch: nat) -> Seq<int>
    recommends
        ch >= 2,
    decreases s.len(),
{
    if s.len() == 0 || ch == 0 {
        seq![]
    } else if s.len() <= ch {
        seq![div_toward_zero(sum_of(s), ch as int)]
    } else {
        seq![div_toward_zero(sum_of(s.take(ch as int)), ch as int)] + average_frames(
            s.skip(ch as int),
            ch,
        )
    }
}

/// Interleaved samples of `ch` channels reduced to one channel: left as they
/// are for zero or one channel, else averaged frame by frame.
pub open spec fn downmix(s: Seq<int>, ch: nat) -> Seq<int> {
    if ch <= 1 {
        s
    } else {
        average_frames(s, ch)
    }
}

pub open spec fn ints_of_i16(s: Seq<i16>) -> Seq<int> {
    s.map_values(|x: i16| x as int)
}

pub open spec fn ints_of_u16(s: Seq<u16>) -> Seq<int> {
    s.map_values(|x: u16| x as int)
}

/// The signed sample for an unsigned one: the half-range bias removed.
pub open spec fn recentred(x: int) -> int {
    x - 32768
}

pub open spec fn abs(x: int) -> int {
    if x < 0 {
        -x
    } else {
        x
    }
}

/// Largest absolute amplitude of the samples, 0 for none.
pub open spec fn peak_of(s: Seq<int>) -> int
    decreases s.len(),
{
    if s.len() == 0 {
        0
    } else {
        let p = peak_of(s.drop_last());
        if abs(s.last()) > p {
            abs(s.last())
        } else {
            p
        }
    }
}

/// The two little-endian bytes of a signed 16-bit sample.
pub open spec fn le_pair(x: int) -> Seq<u8> {
    let u = if x < 0 {
        x + 65536
    } else {
        x
    };
    seq![(u % 256) as u8, (u / 256) as u8]
}

/// The PCM byte stream of signed 16-bit samples.
pub open spec fn pcm_bytes(s: Seq<int>) -> Seq<u8>
    decreases s.len(),
{
    if s.len() == 0 {
        seq![]
    } else {
        pcm_bytes(s.drop_last()) + le_pair(s.last())
    }
}

proof fn lemma_sum_push(s: Seq<int>, x: int)
    ensures
        sum_of(s.push(x)) == sum_of(s) + x,
{
    assert(s.push(x).drop_last() =~= s);
}

proof fn lemma_sum_bounds(s: Seq<int>, lo: int, hi: int)
    requires
        forall|i: int| 0 <= i < s.len() ==> lo <= #[trigger] s[i] <= hi,
    ensures
        s.len() * lo <= sum_of(s) <= s.len() * hi,
    decreases s.len(),
{
    if s.len() > 0 {
        lemma_sum_bounds(s.drop_last(), lo, hi);
        assert(s.len() * lo == (s.len() - 1) * lo + lo) by (nonlinear_arith);
        assert(s.len() * hi == (s.len() - 1) * hi + hi) by (nonlinear_arith);
    }
}

/// The average of at most `ch` values in `[lo, hi]`, divided by `ch`,
/// stays in `[min(lo, 0), max(hi, 0)]`.
proof fn lemma_average_in_range(sum: int, n: int, ch: int, lo: int, hi: int)
    requires
        0 <= n <= ch,
        ch >= 1,
        lo <= 0 <= hi,
        n * lo <= sum <= n * hi,
    ensures
        lo <= div_toward_zero(sum, ch) <= hi,
{
    assert(n * lo >= ch * lo) by (nonlinear_arith)
        requires
            n <= ch,
            lo <= 0,
    ;
    assert(n * hi <= ch * hi) by (nonlinear_arith)
        requires
            n <= ch,
            hi >= 0,
    ;
    if sum >= 0 {
        assert(sum / ch <= hi) by (nonlinear_arith)
            requires
                0 <= sum <= ch * hi,
                ch >= 1,
        ;
        assert(sum / ch >= 0) by (nonlinear_arith)
            requires
                sum >= 0,
                ch >= 1,
        ;
    } else {
        assert(ch * (-lo) == -(ch * lo)) by (nonlinear_arith);
        assert((-sum) / ch <= -lo) by (nonlinear_arith)
            requires
                0 <= -sum <= ch * (-lo),
                ch >= 1,
        ;
        assert((-sum) / ch >= 0) by (nonlinear_arith)
            requires
                -sum >= 0,
                ch >= 1,
        ;
    }
}

/// Converts an unsigned sample to a signed one by removing the half-range
/// bias.
pub fn u16_to_i16(sample: u16) -> (r: i16)
    ensures
        r as int == recentred(sample as int),
{
    (sample as i32 - 32768) as i16
}

/// Sum of `data[start..end]`, computed without overflow for frames of at
/// most 65535 samples.
fn frame_sum_i16(data: &[i16], start: usize, end: usize) -> (r: i64)
    requires
        start <= end <= data@.len(),
        end - start <= 65535,
    ensures
        r as int == sum_of(ints_of_i16(data@).subrange(start as int, end as int)),
{
    let ghost s = ints_of_i16(data@);
    let mut acc: i64 = 0;
    let mut j: usize = start;
    while j < end
        invariant
            start <= j <= end <= data@.len(),
            end - start <= 65535,
            s == ints_of_i16(data@),
            acc as int == sum_of(s.subrange(start as int, j as int)),
            -32768 * (j - start) <= acc <= 32767 * (j - start),
        decreases end - j,
    {
        proof {
            lemma_sum_push(s.subrange(start as int, j as int), s[j as int]);
            assert(s.subrange(start as int, j as int).push(s[j as int]) =~= s.subrange(
                start as int,
                j + 1,
            ));
        }
        acc = acc + data[j] as i64;
        j = j + 1;
    }
    acc
}

/// Sum of `data[start..end]` for unsigned samples.
fn frame_sum_u16(data: &[u16], start: usize, end: usize) -> (r: u64)
    requires
        start <= end <= data@.len(),
        end - start <= 65535,
    ensures
        r as int == sum_of(ints_of_u16(data@).subrange(start as int, end as int)),
{
    let ghost s = ints_of_u16(data@);
    let mut acc: u64 = 0;
    let mut j: usize = start;
    while j < end
        invariant
            start <= j <= end <= data@.len(),
            end - start <= 65535,
            s == ints_of_u16(data@),
            acc as int == sum_of(s.subrange(start as int, j as int)),
            acc <= 65535 * (j - start),
        decreases end - j,
    {
        proof {
            lemma_sum_push(s.subrange(start as int, j as int), s[j as int]);
            assert(s.subrange(start as int, j as int).push(s[j as int]) =~= s.subrange(
                start as int,
                j + 1,
            ));
        }
        acc = acc + data[j] as u64;
        j = j + 1;
    }
    acc
}

proof fn lemma_average_frames_step(s: Seq<int>, start: int, ch: nat)
    requires
        ch >= 2,
        0 <= start < s.len(),
    ensures
        average_frames(s.skip(start), ch) == seq![
            div_toward_zero(
                sum_of(s.subrange(start, if start + ch <= s.len() { start + ch } else { s.len() as int })),
                ch as int,
            ),
        ] + average_frames(
            s.skip(if start + ch <= s.len() { start + ch } else { s.len() as int }),
            ch,
        ),
{
    let t = s.skip(start);
    if t.len() <= ch {
        assert(t =~= s.subrange(start, s.len() as int));
        assert(s.skip(s.len() as int) =~= Seq::<int>::empty());
        assert(average_frames(s.skip(s.len() as int), ch) =~= Seq::<int>::empty());
    } else {
        assert(t.take(ch as int) =~= s.subrange(start, start + ch));
        assert(t.skip(ch as int) =~= s.skip(start + ch));
    }
}

/// Mixes interleaved signed samples of `channels` channels down to one
/// channel by averaging each frame.
pub fn downmix_i16(data: &[i16], channels: usize) -> (r: Vec<i16>)
    requires
        channels <= 65535,
    ensures
        ints_of_i16(r@) == downmix(ints_of_i16(data@), channels as nat),
{
    let ghost s = ints_of_i16(data@);
    let mut out: Vec<i16> = Vec::new();
    if channels <= 1 {
        let mut i: usize = 0;
        while i < data.len()
            invariant
                i <= data@.len(),
                out@ == data@.subrange(0, i as int),
            decreases data@.len() - i,
        {
            out.push(data[i]);
            i = i + 1;
        }
        proof {
            assert(out@ =~= data@);
        }
        return out;
    }
    let n = data.len();
    let mut start: usize = 0;
    proof {
        assert(s.skip(0) =~= s);
        assert(ints_of_i16(out@) + s =~= s);
    }
    while start < n
        invariant
            channels >= 2,
            channels <= 65535,
            n == data@.len(),
            s == ints_of_i16(data@),
            start <= n,
            ints_of_i16(out@) + average_frames(s.skip(start as int), channels as nat)
                == average_frames(s, channels as nat),
        decreases n - start,
    {
        let end = if n - start > channels {
            start + channels
        } else {
            n
        };
        let sum = frame_sum_i16(data, start, end);
        proof {
            let f = s.subrange(start as int, end as int);
            assert forall|i: int| 0 <= i < f.len() implies -32768 <= #[trigger] f[i] <= 32767 by {
                assert(f[i] == data@[start + i] as int);
            }
            lemma_sum_bounds(f, -32768, 32767);
            lemma_average_in_range(sum as int, f.len() as int, channels as int, -32768, 32767);
            lemma_average_frames_step(s, start as int, channels as nat);
        }
        let avg: i64 = if sum >= 0 {
            sum / (channels as i64)
        } else {
            -((-sum) / (channels as i64))
        };
        let ghost before = ints_of_i16(out@);
        out.push(avg as i16);
        proof {
            assert(ints_of_i16(out@) =~= before.push(avg as int));
            assert(before + average_frames(s.skip(start as int), channels as nat) == before + (
            seq![avg as int] + average_frames(s.skip(end as int), channels as nat)));
            assert(before + (seq![avg as int] + average_frames(s.skip(end as int), channels as nat))
                =~= before.push(avg as int) + average_frames(s.skip(end as int), channels as nat));
        }
        start = end;
    }
    proof {
        assert(s.skip(n as int) =~= Seq::<int>::empty());
        assert(ints_of_i16(out@) + Seq::<int>::empty() =~= ints_of_i16(out@));
    }
    out
}

/// Mixes interleaved unsigned samples of `channels` channels down to one
/// channel by averaging each frame.
pub fn downmix_u16(data: &[u16], channels: usize) -> (r: Vec<u16>)
    requires
        channels <= 65535,
    ensures
        ints_of_u16(r@) == downmix(ints_of_u16(data@), channels as nat),
{
    let ghost s = ints_of_u16(data@);
    let mut out: Vec<u16> = Vec::new();
    if channels <= 1 {
        let mut i: usize = 0;
        while i < data.len()
            invariant
                i <= data@.len(),
                out@ == data@.subrange(0, i as int),
            decreases data@.len() - i,
        {
            out.push(data[i]);
            i = i + 1;
        }
        proof {
            assert(out@ =~= data@);
        }
        return out;
    }
    let n = data.len();
    let mut start: usize = 0;
    proof {
        assert(s.skip(0) =~= s);
        assert(ints_of_u16(out@) + s =~= s);
    }
    while start < n
        invariant
            channels >= 2,
            channels <= 65535,
            n == data@.len(),
            s == ints_of_u16(data@),
            start <= n,
            ints_of_u16(out@) + average_frames(s.skip(start as int), channels as nat)
                == average_frames(s, channels as nat),
        decreases n - start,
    {
        let end = if n - start > channels {
            start + channels
        } else {
            n
        };
        let sum = frame_sum_u16(data, start, end);
        proof {
            let f = s.subrange(start as int, end as int);
            assert forall|i: int| 0 <= i < f.len() implies 0 <= #[trigger] f[i] <= 65535 by {
                assert(f[i] == data@[start + i] as int);
            }
            lemma_sum_bounds(f, 0, 65535);
            lemma_average_in_range(sum as int, f.len() as int, channels as int, 0, 65535);
            lemma_average_frames_step(s, start as int, channels as nat);
        }
        let avg: u64 = sum / (channels as u64);
        let ghost before = ints_of_u16(out@);
        out.push(avg as u16);
        proof {
            assert(ints_of_u16(out@) =~= before.push(avg as int));
            assert(before + (seq![avg as int] + average_frames(s.skip(end as int), channels as nat))
                =~= before.push(avg as int) + average_frames(s.skip(end as int), channels as nat));
        }
        start = end;
    }
    proof {
        assert(s.skip(n as int) =~= Seq::<int>::empty());
        assert(ints_of_u16(out@) + Seq::<int>::empty() =~= ints_of_u16(out@));
    }
    out
}

/// Every unsigned sample with the half-range bias removed.
pub open spec fn recentred_all(s: Seq<int>) -> Seq<int> {
    s.map_values(|x: int| recentred(x))
}

proof fn lemma_pcm_push(s: Seq<int>, i: int)
    requires
        0 <= i < s.len(),
    ensures
        pcm_bytes(s.take(i + 1)) == pcm_bytes(s.take(i)) + le_pair(s[i]),
{
    assert(s.take(i + 1).drop_last() =~= s.take(i));
}

proof fn lemma_peak_push(s: Seq<int>, i: int)
    requires
        0 <= i < s.len(),
    ensures
        peak_of(s.take(i + 1)) == if abs(s[i]) > peak_of(s.take(i)) {
            abs(s[i])
        } else {
            peak_of(s.take(i))
        },
{
    assert(s.take(i + 1).drop_last() =~= s.take(i));
}

proof fn lemma_peak_bound(s: Seq<int>)
    requires
        forall|i: int| 0 <= i < s.len() ==> -32768 <= #[trigger] s[i] <= 32767,
    ensures
        0 <= peak_of(s) <= 32768,
    decreases s.len(),
{
    if s.len() > 0 {
        lemma_peak_bound(s.drop_last());
    }
}

/// PCM bytes and peak amplitude of signed mono samples.
pub fn encode_mono(mono: &Vec<i16>) -> (r: (Vec<u8>, u16))
    ensures
        r.0@ == pcm_bytes(ints_of_i16(mono@)),
        r.1 as int == peak_of(ints_of_i16(mono@)),
{
    let ghost s = ints_of_i16(mono@);
    let mut bytes: Vec<u8> = Vec::new();
    let mut peak: u16 = 0;
    let mut i: usize = 0;
    proof {
        assert(s.take(0) =~= Seq::<int>::empty());
    }
    while i < mono.len()
        invariant
            i <= mono@.len(),
            s == ints_of_i16(mono@),
            bytes@ == pcm_bytes(s.take(i as int)),
            peak as int == peak_of(s.take(i as int)),
        decreases mono@.len() - i,
    {
        let x = mono[i];
        proof {
            lemma_pcm_push(s, i as int);
            lemma_peak_push(s, i as int);
            assert(s[i as int] == x as int);
        }
        let a: u16 = if x < 0 {
            (-(x as i32)) as u16
        } else {
            x as u16
        };
        if a > peak {
            peak = a;
        }
        let u: u32 = if x < 0 {
            (x as i32 + 65536) as u32
        } else {
            x as u32
        };
        bytes.push((u % 256) as u8);
        bytes.push((u / 256) as u8);
        i = i + 1;
    }
    proof {
        assert(s.take(mono@.len() as int) =~= s);
    }
    (bytes, peak)
}

/// Normalises one buffer of signed device samples: downmixed to mono, as
/// PCM bytes, with the peak absolute amplitude.
pub fn encode_i16(data: &[i16], channels: usize) -> (r: (Vec<u8>, u16))
    requires
        channels <= 65535,
    ensures
        r.0@ == pcm_bytes(downmix(ints_of_i16(data@), channels as nat)),
        r.1 as int == peak_of(downmix(ints_of_i16(data@), channels as nat)),
{
    let mono = downmix_i16(data, channels);
    encode_mono(&mono)
}

/// Normalises one buffer of unsigned device samples: downmixed to mono,
/// recentred to signed, as PCM bytes, with the peak absolute amplitude.
pub fn encode_u16(data: &[u16], channels: usize) -> (r: (Vec<u8>, u16))
    requires
        channels <= 65535,
    ensures
        r.0@ == pcm_bytes(recentred_all(downmix(ints_of_u16(data@), channels as nat))),
        r.1 as int == peak_of(recentred_all(downmix(ints_of_u16(data@), channels as nat))),
{
    let mono = downmix_u16(data, channels);
    let mut signed: Vec<i16> = Vec::new();
    let mut i: usize = 0;
    while i < mono.len()
        invariant
            i <= mono@.len(),
            ints_of_i16(signed@) == recentred_all(ints_of_u16(mono@)).take(i as int),
        decreases mono@.len() - i,
    {
        let ghost before = signed@;
        signed.push(u16_to_i16(mono[i]));
        proof {
            assert(ints_of_i16(signed@) =~= ints_of_i16(before).push(recentred(mono@[i as int] as int)));
            assert(recentred_all(ints_of_u16(mono@)).take(i + 1) =~= recentred_all(ints_of_u16(mono@)).take(i as int).push(recentred(mono@[i as int] as int)));
        }
        i = i + 1;
    }
    proof {
        assert(recentred_all(ints_of_u16(mono@)).take(mono@.len() as int) =~= recentred_all(ints_of_u16(mono@)));
    }
    encode_mono(&signed)
}

proof fn lemma_sum_pair(s: Seq<int>)
    requires
        s.len() == 2,
    ensures
        sum_of(s) == s[0] + s[1],
{
    let a = s.drop_last();
    assert(a.drop_last() =~= Seq::<int>::empty());
    assert(sum_of(a) == sum_of(a.drop_last()) + a.last());
    assert(sum_of(s) == sum_of(a) + s.last());
}

/// Stereo frames whose two channels hold opposite samples, `[x, -x]` (such
/// as `[+max, -max]`), mix down to silence: one zero per frame.
pub proof fn opposite_stereo_frames_cancel(s: Seq<int>)
    requires
        s.len() % 2 == 0,
        forall|k: int| 0 <= k < s.len() / 2 ==> #[trigger] s[2 * k + 1] == -s[2 * k],
    ensures
        downmix(s, 2) == Seq::new((s.len() / 2) as nat, |k: int| 0int),
    decreases s.len(),
{
    if s.len() == 0 {
        assert(downmix(s, 2) =~= Seq::new(0, |k: int| 0int));
    } else {
        assert(s[2 * 0int + 1] == -s[2 * 0int]);
        lemma_sum_pair(s.take(2));
        let rest = s.skip(2);
        assert forall|k: int| 0 <= k < rest.len() / 2 implies #[trigger] rest[2 * k + 1] == -rest[2 * k] by {
            assert(s[2 * (k + 1) + 1] == -s[2 * (k + 1)]);
            assert(rest[2 * k + 1] == s[2 * (k + 1) + 1]);
            assert(rest[2 * k] == s[2 * (k + 1)]);
        }
        opposite_stereo_frames_cancel(rest);
        if s.len() == 2 {
            assert(s.take(2) =~= s);
            assert(downmix(s, 2) =~= Seq::new(1, |k: int| 0int));
        } else {
            assert(downmix(s, 2) =~= Seq::new((s.len() / 2) as nat, |k: int| 0int));
        }
    }
}

} // verus!
