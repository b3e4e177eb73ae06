//! Where speech stands inside a chunk of samples.
//!
//! Loudness is the root mean square of a window. It is compared as the sum of the
//! squares against the number of samples, so nothing is ever rounded.

use crate::audio::convert::TARGET_RATE;
use crate::timeutil::{
    can_shift, earlier_of, later_of, law_shift_moves_forward, not_later, shifted, UtcTime,
};
use vstd::prelude::*;

verus! {

/// The length of a window, in milliseconds.
pub const WINDOW_MS: u64 = 20;

/// Consecutive voiced windows that make speech.
pub const MIN_SPEECH_WINDOWS: usize = 4;

/// How far the start is pulled back, so that it is not after the first phone.
pub const LEAD_PAD_MS: u64 = 50;

/// How far the end reaches past the last voiced window.
pub const TRAIL_PAD_MS: u64 = 100;

/// The square of the loudness below which a window is noise.
pub const FLOOR_SQUARED: u64 = 62_500;

/// A voiced window is at least one part in 25 as loud as any other window: the
/// squares differ by at most this factor.
pub const PEAK_FACTOR_SQUARED: u64 = 625;

/// The sum of the squares of the samples.
pub open spec fn energy(s: Seq<i16>) -> nat
    decreases s.len(),
{
    if s.len() == 0 {
        0
    } else {
        energy(s.drop_last()) + (s.last() * s.last()) as nat
    }
}

/// Whether the root mean square of the samples reaches the noise floor.
pub open spec fn is_loud(s: Seq<i16>) -> bool {
    s.len() > 0 && energy(s) >= FLOOR_SQUARED * s.len()
}

/// The number of samples in a window.
pub open spec fn window_len(rate: int) -> int {
    rate * WINDOW_MS / 1000
}

/// The number of windows; the last one may be short.
pub open spec fn window_count(len: int, w: int) -> int {
    (len + w - 1) / w
}

/// The samples of window `k`.
pub open spec fn window(s: Seq<i16>, w: int, k: int) -> Seq<i16> {
    s.subrange(
        k * w,
        if (k + 1) * w <= s.len() {
            (k + 1) * w
        } else {
            s.len() as int
        },
    )
}

/// Whether `a` is at least a fixed fraction as loud as `b`.
pub open spec fn keeps_up(a: Seq<i16>, b: Seq<i16>) -> bool {
    PEAK_FACTOR_SQUARED * energy(a) * b.len() >= energy(b) * a.len()
}

/// Whether window `k` is above the noise floor and not drowned by any window.
pub open spec fn voiced(s: Seq<i16>, w: int, k: int) -> bool {
    &&& is_loud(window(s, w, k))
    &&& forall|j: int|
        0 <= j < window_count(s.len() as int, w) ==> keeps_up(
            window(s, w, k),
            #[trigger] window(s, w, j),
        )
}

/// Whether a run of speech begins at window `k`.
pub open spec fn run_at(s: Seq<i16>, w: int, k: int) -> bool {
    &&& 0 <= k
    &&& k + MIN_SPEECH_WINDOWS <= window_count(s.len() as int, w)
    &&& forall|j: int| k <= j < k + MIN_SPEECH_WINDOWS ==> #[trigger] voiced(s, w, j)
}

/// Whether `first` begins the first run of speech and `last` ends the last one.
pub open spec fn spans_speech(s: Seq<i16>, w: int, first: int, last: int) -> bool {
    &&& run_at(s, w, first)
    &&& run_at(s, w, last + 1 - MIN_SPEECH_WINDOWS)
    &&& forall|k: int| #[trigger] run_at(s, w, k) ==> first <= k && k + MIN_SPEECH_WINDOWS <= last
        + 1
}

/// A number as far as 64 bits can hold it.
pub open spec fn saturated(n: int) -> int {
    if n > u64::MAX {
        u64::MAX as int
    } else if n < 0 {
        0
    } else {
        n
    }
}

/// The length of `len` samples in milliseconds.
pub open spec fn length_ms(len: int, rate: int) -> int {
    saturated(len * 1000) / rate
}

/// Milliseconds of the first and last window of speech, with their padding.
pub open spec fn padded_range(len: int, rate: int, first: int, last: int) -> (int, int) {
    let start = saturated(saturated(first * WINDOW_MS) - LEAD_PAD_MS);
    let end = saturated(saturated((last + 1) * WINDOW_MS) + TRAIL_PAD_MS);
    (start, if end <= length_ms(len, rate) {
        end
    } else {
        length_ms(len, rate)
    })
}

/// Whether `r` is the stretch of speech in `s`, in milliseconds.
pub open spec fn is_speech_range(s: Seq<i16>, rate: int, r: Option<(u64, u64)>) -> bool {
    let w = window_len(rate);
    match r {
        Some((start, end)) => {
            &&& s.len() > 0
            &&& rate > 0
            &&& w > 0
            &&& start < end
            &&& exists|first: int, last: int|
                #[trigger] spans_speech(s, w, first, last) && padded_range(
                    s.len() as int,
                    rate,
                    first,
                    last,
                ) == (start as int, end as int)
        },
        None => {
            ||| s.len() == 0
            ||| rate <= 0
            ||| w <= 0
            ||| forall|k: int| !#[trigger] run_at(s, w, k)
            ||| exists|first: int, last: int|
                #[trigger] spans_speech(s, w, first, last) && padded_range(
                    s.len() as int,
                    rate,
                    first,
                    last,
                ).1 <= padded_range(s.len() as int, rate, first, last).0
        },
    }
}

fn saturating_mul(a: u64, b: u64) -> (r: u64)
    ensures
        r == saturated(a * b),
{
    match a.checked_mul(b) {
        Some(r) => r,
        None => u64::MAX,
    }
}

fn window_samples(sample_rate: u32) -> (r: usize)
    ensures
        r == window_len(sample_rate as int),
{
    (sample_rate as u64 * WINDOW_MS / 1000) as usize
}

pub fn duration_ms(len: usize, sample_rate: u32) -> (r: u64)
    requires
        sample_rate > 0,
    ensures
        r == length_ms(len as int, sample_rate as int),
{
    saturating_mul(len as u64, 1000) / (sample_rate as u64)
}

/// The sum of the squares of `samples[from..to]`.
pub fn energy_of(samples: &[i16], from: usize, to: usize) -> (r: u128)
    requires
        from <= to <= samples@.len(),
    ensures
        r == energy(samples@.subrange(from as int, to as int)),
        r <= (to - from) * 0x4000_0000,
{
    let mut sum: u128 = 0;
    let mut i: usize = from;
    while i < to
        invariant
            from <= i <= to <= samples@.len(),
            sum == energy(samples@.subrange(from as int, i as int)),
            sum <= (i - from) * 0x4000_0000,
        decreases to - i,
    {
        let v: i64 = samples[i] as i64;
        assert(v * v <= 0x4000_0000) by (nonlinear_arith)
            requires
                -32768 <= v <= 32767,
        ;
        assert(0 <= v * v) by (nonlinear_arith);
        let square: i64 = v * v;
        proof {
            let now = samples@.subrange(from as int, i + 1);
            assert(now.drop_last() =~= samples@.subrange(from as int, i as int));
            assert(now.last() == samples@[i as int]);
            assert((i - from) * 0x4000_0000 <= 0x1_0000_0000_0000_0000 * 0x4000_0000);
        }
        sum = sum + square as u128;
        i += 1;
    }
    sum
}

proof fn lemma_window_count_covers(len: int, w: int, k: int)
    requires
        w > 0,
        len > 0,
        0 <= k,
        k * w < len,
    ensures
        k < window_count(len, w),
{
    let n = window_count(len, w);
    assert(len - 1 < n * w) by (nonlinear_arith)
        requires
            n == (len + w - 1) / w,
            w > 0,
    ;
    assert(k < n) by (nonlinear_arith)
        requires
            k * w < n * w,
            w > 0,
    ;
}

/// How loud one window is: its energy and its length.
struct Level {
    energy: u128,
    len: usize,
}

spec fn levels_match(levels: Seq<Level>, s: Seq<i16>, w: int) -> bool {
    forall|k: int|
        #![trigger levels[k]]
        0 <= k < levels.len() ==> {
            &&& levels[k].energy == energy(window(s, w, k))
            &&& levels[k].len == window(s, w, k).len()
            &&& levels[k].energy <= levels[k].len * 0x4000_0000
            &&& 0 < levels[k].len <= w
        }
}

fn window_levels(samples: &[i16], w: usize) -> (r: Vec<Level>)
    requires
        w > 0,
        samples@.len() > 0,
    ensures
        r@.len() == window_count(samples@.len() as int, w as int),
        levels_match(r@, samples@, w as int),
{
    let mut r: Vec<Level> = Vec::new();
    let mut start: usize = 0;
    let len: usize = samples.len();
    proof {
        assert(0 * w == 0);
        lemma_window_count_covers(len as int, w as int, 0);
    }
    while start < len
        invariant
            w > 0,
            len == samples@.len(),
            len > 0,
            start <= len,
            start < len ==> start == r@.len() * w,
            start == len ==> r@.len() == window_count(len as int, w as int),
            start < len ==> r@.len() < window_count(len as int, w as int),
            levels_match(r@, samples@, w as int),
        decreases len - start,
    {
        let ghost k = r@.len() as int;
        let end: usize = if len - start > w {
            start + w
        } else {
            len
        };
        proof {
            assert((k + 1) * w == k * w + w) by (nonlinear_arith);
            assert(samples@.subrange(start as int, end as int) =~= window(samples@, w as int, k));
        }
        let energy = energy_of(samples, start, end);
        r.push(Level { energy, len: end - start });
        proof {
            let n = window_count(len as int, w as int);
            if end < len {
                lemma_window_count_covers(len as int, w as int, k + 1);
            } else {
                assert(n == k + 1) by (nonlinear_arith)
                    requires
                        n == (len + w - 1) / (w as int),
                        k * w < len,
                        len <= k * w + w,
                        w > 0,
                ;
            }
        }
        start = end;
    }
    r
}

/// The index of the loudest window.
fn loudest(levels: &Vec<Level>, samples: Ghost<Seq<i16>>, w: Ghost<int>) -> (p: usize)
    requires
        levels@.len() > 0,
        levels_match(levels@, samples@, w@),
        w@ <= 0x8000_0000,
    ensures
        p < levels@.len(),
        forall|j: int|
            #![trigger levels@[j]]
            0 <= j < levels@.len() ==> levels@[p as int].energy * levels@[j].len
                >= levels@[j].energy * levels@[p as int].len,
{
    let mut p: usize = 0;
    let mut i: usize = 1;
    while i < levels.len()
        invariant
            0 < i <= levels@.len(),
            p < i,
            levels_match(levels@, samples@, w@),
            w@ <= 0x8000_0000,
            forall|j: int|
                #![trigger levels@[j]]
                0 <= j < i ==> levels@[p as int].energy * levels@[j].len >= levels@[j].energy
                    * levels@[p as int].len,
        decreases levels.len() - i,
    {
        let ghost a = levels@[p as int];
        let ghost b = levels@[i as int];
        proof {
            assert(b.energy * a.len <= 0x8000_0000 * 0x4000_0000 * 0x8000_0000) by (nonlinear_arith)
                requires
                    0 <= b.energy <= b.len * 0x4000_0000,
                    0 <= b.len <= 0x8000_0000,
                    0 <= a.len <= 0x8000_0000,
            ;
            assert(a.energy * b.len <= 0x8000_0000 * 0x4000_0000 * 0x8000_0000) by (nonlinear_arith)
                requires
                    0 <= a.energy <= a.len * 0x4000_0000,
                    0 <= a.len <= 0x8000_0000,
                    0 <= b.len <= 0x8000_0000,
            ;
        }
        if levels[i].energy * (levels[p].len as u128) > levels[p].energy * (levels[i].len as u128) {
            proof {
                assert forall|j: int| #![trigger levels@[j]] 0 <= j <= i implies b.energy
                    * levels@[j].len >= levels@[j].energy * b.len by {
                    let c = levels@[j];
                    if j < i {
                        assert(a.energy * c.len >= c.energy * a.len);
                        assert(b.energy * c.len >= c.energy * b.len) by (nonlinear_arith)
                            requires
                                b.energy * a.len > a.energy * b.len,
                                a.energy * c.len >= c.energy * a.len,
                                a.len > 0,
                                b.len > 0,
                                c.len > 0,
                                a.energy >= 0,
                                b.energy >= 0,
                                c.energy >= 0,
                        ;
                    }
                }
            }
            p = i;
        }
        i += 1;
    }
    p
}

/// Whether a window is voiced, given the loudest window.
fn is_voiced(
    levels: &Vec<Level>,
    k: usize,
    p: usize,
    samples: Ghost<Seq<i16>>,
    w: Ghost<int>,
) -> (r: bool)
    requires
        levels@.len() == window_count(samples@.len() as int, w@),
        levels_match(levels@, samples@, w@),
        k < levels@.len(),
        p < levels@.len(),
        0 < w@ <= 0x8000_0000,
        forall|j: int|
            #![trigger levels@[j]]
            0 <= j < levels@.len() ==> levels@[p as int].energy * levels@[j].len
                >= levels@[j].energy * levels@[p as int].len,
    ensures
        r == voiced(samples@, w@, k as int),
{
    let ghost a = levels@[k as int];
    let ghost b = levels@[p as int];
    proof {
        assert(a.energy * b.len <= 0x8000_0000 * 0x4000_0000 * 0x8000_0000) by (nonlinear_arith)
            requires
                0 <= a.energy <= a.len * 0x4000_0000,
                0 <= a.len <= 0x8000_0000,
                0 <= b.len <= 0x8000_0000,
        ;
        assert(b.energy * a.len <= 0x8000_0000 * 0x4000_0000 * 0x8000_0000) by (nonlinear_arith)
            requires
                0 <= b.energy <= b.len * 0x4000_0000,
                0 <= b.len <= 0x8000_0000,
                0 <= a.len <= 0x8000_0000,
        ;
        assert(PEAK_FACTOR_SQUARED * a.energy * b.len == PEAK_FACTOR_SQUARED * (a.energy * b.len))
            by (nonlinear_arith);
    }
    let loud = levels[k].energy >= FLOOR_SQUARED as u128 * levels[k].len as u128;
    let near = PEAK_FACTOR_SQUARED as u128 * (levels[k].energy * levels[p].len as u128)
        >= levels[p].energy * levels[k].len as u128;
    proof {
        let s = samples@;
        let n = window_count(s.len() as int, w@);
        if near {
            assert forall|j: int| 0 <= j < n implies keeps_up(
                window(s, w@, k as int),
                #[trigger] window(s, w@, j),
            ) by {
                let c = levels@[j];
                let f = PEAK_FACTOR_SQUARED as int;
                assert(b.energy * c.len >= c.energy * b.len);
                assert(f * a.energy * c.len >= c.energy * a.len) by (nonlinear_arith)
                    requires
                        f * a.energy * b.len >= b.energy * a.len,
                        b.energy * c.len >= c.energy * b.len,
                        a.len > 0,
                        b.len > 0,
                        c.len > 0,
                        a.energy >= 0,
                        b.energy >= 0,
                        c.energy >= 0,
                        f > 0,
                ;
            }
        } else {
            assert(!keeps_up(window(s, w@, k as int), window(s, w@, p as int)));
        }
    }
    loud && near
}

/// The first window of the first run of speech and the last window of the last one.
fn speech_windows(samples: &[i16], w: usize) -> (r: Option<(usize, usize)>)
    requires
        0 < w <= 0x8000_0000,
        samples@.len() > 0,
    ensures
        match r {
            Some((first, last)) => spans_speech(samples@, w as int, first as int, last as int),
            None => forall|k: int| !#[trigger] run_at(samples@, w as int, k),
        },
{
    let levels = window_levels(samples, w);
    proof {
        lemma_window_count_covers(samples@.len() as int, w as int, 0);
    }
    let p = loudest(&levels, Ghost(samples@), Ghost(w as int));
    let ghost s = samples@;
    let mut run: usize = 0;
    let mut found: Option<(usize, usize)> = None;
    let mut i: usize = 0;
    while i < levels.len()
        invariant
            s == samples@,
            0 < w <= 0x8000_0000,
            levels@.len() == window_count(s.len() as int, w as int),
            levels_match(levels@, s, w as int),
            p < levels@.len(),
            forall|j: int|
                #![trigger levels@[j]]
                0 <= j < levels@.len() ==> levels@[p as int].energy * levels@[j].len
                    >= levels@[j].energy * levels@[p as int].len,
            run <= i <= levels@.len(),
            forall|j: int| i - run <= j < i ==> #[trigger] voiced(s, w as int, j),
            run < i ==> !voiced(s, w as int, i - run - 1),
            match found {
                Some((first, last)) => {
                    &&& last < i
                    &&& run_at(s, w as int, first as int)
                    &&& run_at(s, w as int, last + 1 - MIN_SPEECH_WINDOWS)
                    &&& forall|k: int|
                        #[trigger] run_at(s, w as int, k) && k + MIN_SPEECH_WINDOWS <= i ==> first
                            <= k && k + MIN_SPEECH_WINDOWS <= last + 1
                },
                None => forall|k: int|
                    #[trigger] run_at(s, w as int, k) ==> k + MIN_SPEECH_WINDOWS > i,
            },
        decreases levels.len() - i,
    {
        let ghost was = found;
        let ghost old_run = run;
        if is_voiced(&levels, i, p, Ghost(s), Ghost(w as int)) {
            run = run + 1;
            if run >= MIN_SPEECH_WINDOWS {
                assert(run_at(s, w as int, i + 1 - MIN_SPEECH_WINDOWS));
                let first: usize = match found {
                    Some((first, _)) => first,
                    None => i + 1 - MIN_SPEECH_WINDOWS,
                };
                found = Some((first, i));
                proof {
                    assert forall|k: int|
                        #[trigger] run_at(s, w as int, k) && k + MIN_SPEECH_WINDOWS <= i + 1 implies
                        first <= k && k + MIN_SPEECH_WINDOWS <= i + 1 by {
                    }
                }
            } else {
                proof {
                    assert forall|k: int| #[trigger] run_at(s, w as int, k) implies k
                        + MIN_SPEECH_WINDOWS != i + 1 by {
                        if k + MIN_SPEECH_WINDOWS == i + 1 {
                            assert(voiced(s, w as int, i - old_run - 1));
                        }
                    }
                }
            }
        } else {
            run = 0;
            proof {
                assert forall|k: int| #[trigger] run_at(s, w as int, k) implies k
                    + MIN_SPEECH_WINDOWS != i + 1 by {
                    if k + MIN_SPEECH_WINDOWS == i + 1 {
                        assert(voiced(s, w as int, i as int));
                    }
                }
            }
        }
        i += 1;
    }
    found
}

/// First and last milliseconds that hold speech inside `samples`.
///
/// `None` means that the buffer is silent, or too short to judge.
pub fn speech_range_ms(samples: &[i16], sample_rate: u32) -> (r: Option<(u64, u64)>)
    ensures
        is_speech_range(samples@, sample_rate as int, r),
{
    if samples.len() == 0 || sample_rate == 0 {
        return None;
    }
    let window = window_samples(sample_rate);
    if window == 0 {
        return None;
    }
    match speech_windows(samples, window) {
        None => None,
        Some((first, last)) => {
            let length = duration_ms(samples.len(), sample_rate);
            let start: u64 = saturating_mul(first as u64, WINDOW_MS).saturating_sub(LEAD_PAD_MS);
            proof {
                let n = window_count(samples@.len() as int, window as int);
                assert(n <= samples@.len()) by (nonlinear_arith)
                    requires
                        n == (samples@.len() + window - 1) / (window as int),
                        window >= 1,
                        samples@.len() >= 1,
                ;
                assert(last < n);
            }
            let reach: u64 = saturating_mul(last as u64 + 1, WINDOW_MS).saturating_add(
                TRAIL_PAD_MS,
            );
            let end: u64 = if reach <= length {
                reach
            } else {
                length
            };
            assert(padded_range(samples@.len() as int, sample_rate as int, first as int, last as int)
                == (start as int, end as int));
            if end <= start {
                return None;
            }
            Some((start, end))
        },
    }
}

/// At most one stretch of speech fits a buffer.
pub proof fn law_speech_range_is_unique(
    s: Seq<i16>,
    rate: int,
    a: Option<(u64, u64)>,
    b: Option<(u64, u64)>,
)
    requires
        is_speech_range(s, rate, a),
        is_speech_range(s, rate, b),
    ensures
        a == b,
{
}

/// The stretch of speech lies inside the buffer.
pub proof fn law_speech_range_is_inside(s: Seq<i16>, rate: int, start: u64, end: u64)
    requires
        is_speech_range(s, rate, Some((start, end))),
    ensures
        start < end <= length_ms(s.len() as int, rate),
{
}

/// A buffer in which no window reaches the noise floor holds no speech.
pub proof fn law_silence_has_no_speech(s: Seq<i16>, rate: int, r: Option<(u64, u64)>)
    requires
        is_speech_range(s, rate, r),
        forall|k: int|
            0 <= k < window_count(s.len() as int, window_len(rate)) ==> !is_loud(
                #[trigger] window(s, window_len(rate), k),
            ),
    ensures
        r is None,
{
    if let Some((start, end)) = r {
        let w = window_len(rate);
        let (first, last) = choose|first: int, last: int|
            #[trigger] spans_speech(s, w, first, last) && padded_range(
                s.len() as int,
                rate,
                first,
                last,
            ) == (start as int, end as int);
        assert(voiced(s, w, first));
        assert(!is_loud(window(s, w, first)));
    }
}

/// Whether every sample is zero.
pub open spec fn is_silent(s: Seq<i16>) -> bool {
    forall|i: int| 0 <= i < s.len() ==> #[trigger] s[i] == 0
}

proof fn lemma_silence_has_no_energy(s: Seq<i16>)
    requires
        is_silent(s),
    ensures
        energy(s) == 0,
    decreases s.len(),
{
    if s.len() > 0 {
        lemma_silence_has_no_energy(s.drop_last());
        assert(s.last() == 0);
    }
}

proof fn lemma_windows_behind_silence(z: Seq<i16>, s: Seq<i16>, w: int, k: int)
    requires
        w > 0,
        k >= 0,
        s.len() > 0,
        z.len() == k * w,
        is_silent(z),
    ensures
        window_count((z + s).len() as int, w) == k + window_count(s.len() as int, w),
        forall|j: int|
            0 <= j < window_count(s.len() as int, w) ==> #[trigger] window(z + s, w, j + k)
                == window(s, w, j),
        forall|j: int|
            0 <= j < k ==> energy(#[trigger] window(z + s, w, j)) == 0 && window(
                z + s,
                w,
                j,
            ).len() == w,
{
    let t = z + s;
    let n = window_count(s.len() as int, w);
    assert((k * w + s.len() + w - 1) / w == k + (s.len() + w - 1) / w) by (nonlinear_arith)
        requires
            w > 0,
    ;
    assert((n - 1) * w < s.len()) by (nonlinear_arith)
        requires
            n == (s.len() + w - 1) / w,
            w > 0,
    ;
    assert forall|j: int| 0 <= j < n implies #[trigger] window(t, w, j + k) == window(s, w, j) by {
        assert((j + k) * w == j * w + k * w) by (nonlinear_arith);
        assert((j + k + 1) * w == (j + 1) * w + k * w) by (nonlinear_arith);
        assert(0 <= j * w <= (n - 1) * w) by (nonlinear_arith)
            requires
                0 <= j <= n - 1,
                w > 0,
        ;
        assert((j + 1) * w == j * w + w) by (nonlinear_arith);
        assert(window(t, w, j + k) =~= window(s, w, j));
    }
    assert forall|j: int| 0 <= j < k implies energy(#[trigger] window(t, w, j)) == 0 && window(
        t,
        w,
        j,
    ).len() == w by {
        assert(0 <= j * w) by (nonlinear_arith)
            requires
                0 <= j,
                w > 0,
        ;
        assert((j + 1) * w == j * w + w) by (nonlinear_arith);
        assert((j + 1) * w <= k * w) by (nonlinear_arith)
            requires
                j + 1 <= k,
                w > 0,
        ;
        lemma_silence_has_no_energy(window(t, w, j));
    }
}

proof fn lemma_voiced_behind_silence(z: Seq<i16>, s: Seq<i16>, w: int, k: int, j: int)
    requires
        w > 0,
        k >= 0,
        s.len() > 0,
        z.len() == k * w,
        is_silent(z),
        0 <= j < k + window_count(s.len() as int, w),
    ensures
        voiced(z + s, w, j) == (j >= k && voiced(s, w, j - k)),
{
    let t = z + s;
    let n = window_count(s.len() as int, w);
    lemma_windows_behind_silence(z, s, w, k);
    if j < k {
        assert(energy(window(t, w, j)) == 0);
        assert(!is_loud(window(t, w, j)));
    } else {
        let own = window(s, w, j - k);
        assert(window(t, w, (j - k) + k) == own);
        if voiced(s, w, j - k) {
            assert forall|i: int| 0 <= i < window_count(t.len() as int, w) implies keeps_up(
                window(t, w, j),
                #[trigger] window(t, w, i),
            ) by {
                if i < k {
                    assert(energy(window(t, w, i)) == 0);
                    assert(0 <= PEAK_FACTOR_SQUARED * energy(own) * window(t, w, i).len())
                        by (nonlinear_arith)
                        requires
                            energy(own) >= 0,
                            window(t, w, i).len() >= 0,
                    ;
                    assert(0 * own.len() == 0);
                } else {
                    assert(window(t, w, (i - k) + k) == window(s, w, i - k));
                }
            }
        }
        if voiced(t, w, j) {
            assert forall|i: int| 0 <= i < n implies keeps_up(own, #[trigger] window(s, w, i)) by {
                assert(window(t, w, i + k) == window(s, w, i));
            }
        }
    }
}

/// Silence of whole windows before the audio moves the stretch of speech by its length.
/// A stretch that begins with the audio is left out: its start is not pulled back fully.
pub proof fn law_silence_before_speech_moves_it(
    z: Seq<i16>,
    s: Seq<i16>,
    rate: int,
    k: int,
    start: u64,
    end: u64,
)
    requires
        is_speech_range(s, rate, Some((start, end))),
        start > 0,
        rate % 50 == 0,
        k >= 0,
        is_silent(z),
        z.len() == k * window_len(rate),
        (z.len() + s.len()) * 1000 <= u64::MAX,
    ensures
        start + 20 * k <= u64::MAX,
        end + 20 * k <= u64::MAX,
        is_speech_range(z + s, rate, Some(((start + 20 * k) as u64, (end + 20 * k) as u64))),
{
    let w = window_len(rate);
    let t = z + s;
    let n = window_count(s.len() as int, w);
    let (first, last) = choose|first: int, last: int|
        #[trigger] spans_speech(s, w, first, last) && padded_range(
            s.len() as int,
            rate,
            first,
            last,
        ) == (start as int, end as int);
    lemma_windows_behind_silence(z, s, w, k);
    assert forall|m: int| #[trigger] run_at(t, w, m) == run_at(s, w, m - k) by {
        if run_at(t, w, m) {
            assert(voiced(t, w, m));
            lemma_voiced_behind_silence(z, s, w, k, m);
            assert forall|j: int| m - k <= j < m - k + MIN_SPEECH_WINDOWS implies #[trigger] voiced(
                s,
                w,
                j,
            ) by {
                assert(voiced(t, w, j + k));
                lemma_voiced_behind_silence(z, s, w, k, j + k);
            }
        }
        if run_at(s, w, m - k) {
            assert forall|j: int| m <= j < m + MIN_SPEECH_WINDOWS implies #[trigger] voiced(
                t,
                w,
                j,
            ) by {
                assert(voiced(s, w, j - k));
                lemma_voiced_behind_silence(z, s, w, k, j);
            }
        }
    }
    assert(run_at(t, w, first + k));
    assert(run_at(t, w, (last + k) + 1 - MIN_SPEECH_WINDOWS));
    assert(spans_speech(t, w, first + k, last + k));
    // A window is 20 ms long, so windows and milliseconds grow together.
    let len = s.len() as int;
    assert(w * 50 == rate);
    assert((k * w + len) * 1000 == 20 * k * rate + len * 1000) by (nonlinear_arith)
        requires
            w * 50 == rate,
    ;
    assert((20 * k * rate + len * 1000) / rate == 20 * k + len * 1000 / rate) by (nonlinear_arith)
        requires
            rate > 0,
    ;
    assert(length_ms(t.len() as int, rate) == length_ms(len, rate) + 20 * k);
    assert((last + k + 1) * WINDOW_MS <= u64::MAX) by {
        assert(last + 1 <= n);
        assert((n - 1) * w < s.len()) by (nonlinear_arith)
            requires
                n == (s.len() + w - 1) / w,
                w > 0,
        ;
        assert(n + k <= t.len()) by (nonlinear_arith)
            requires
                (n - 1) * w < s.len(),
                t.len() == k * w + s.len(),
                w >= 1,
                k >= 0,
                n >= 1,
        ;
    }
    assert(padded_range(t.len() as int, rate, first + k, last + k) == (
        start + 20 * k,
        end + 20 * k,
    ));
}

/// The stretch of speech in a buffer.
pub open spec fn speech_range(s: Seq<i16>, rate: int) -> Option<(u64, u64)> {
    choose|r: Option<(u64, u64)>| is_speech_range(s, rate, r)
}

/// The times of the speech `range` inside a chunk.
pub open spec fn aligned_times(
    started: UtcTime,
    ended: UtcTime,
    range: Option<(u64, u64)>,
) -> (UtcTime, UtcTime) {
    match range {
        None => (started, ended),
        Some((from, to)) => {
            let a = shifted(started, from as nat);
            let b = shifted(started, to as nat);
            let start = earlier_of(UtcTime { secs: a.0 as i64, nanos: a.1 as u32 }, ended);
            let end = earlier_of(UtcTime { secs: b.0 as i64, nanos: b.1 as u32 }, ended);
            (start, later_of(end, start))
        },
    }
}

proof fn lemma_shift_grows(t: UtcTime, a: nat, b: nat)
    requires
        a <= b,
        can_shift(t, b),
        t.wf(),
    ensures
        can_shift(t, a),
{
}

/// The chunk's window moved onto the speech in it, and never out of the chunk.
pub fn align_chunk_times(
    chunk_started_at: UtcTime,
    chunk_ended_at: UtcTime,
    samples: &[i16],
    sample_rate: u32,
) -> (r: (UtcTime, UtcTime))
    requires
        chunk_started_at.wf(),
        chunk_ended_at.wf(),
        sample_rate > 0 ==> can_shift(
            chunk_started_at,
            length_ms(samples@.len() as int, sample_rate as int) as nat,
        ),
    ensures
        r.0.wf(),
        r.1.wf(),
        r == aligned_times(
            chunk_started_at,
            chunk_ended_at,
            speech_range(samples@, sample_rate as int),
        ),
{
    let range = speech_range_ms(samples, sample_rate);
    proof {
        law_speech_range_is_unique(
            samples@,
            sample_rate as int,
            range,
            speech_range(samples@, sample_rate as int),
        );
    }
    match range {
        None => (chunk_started_at, chunk_ended_at),
        Some((start_ms, end_ms)) => {
            proof {
                let len = length_ms(samples@.len() as int, sample_rate as int) as nat;
                lemma_shift_grows(chunk_started_at, end_ms as nat, len);
                lemma_shift_grows(chunk_started_at, start_ms as nat, len);
            }
            let start = chunk_started_at.plus_millis(start_ms).earlier(chunk_ended_at);
            let end = chunk_started_at.plus_millis(end_ms).earlier(chunk_ended_at).later(start);
            (start, end)
        },
    }
}

/// `align_chunk_times` for samples at the target rate.
pub fn align_chunk_times_16k(
    chunk_started_at: UtcTime,
    chunk_ended_at: UtcTime,
    samples: &[i16],
) -> (r: (UtcTime, UtcTime))
    requires
        chunk_started_at.wf(),
        chunk_ended_at.wf(),
        can_shift(
            chunk_started_at,
            length_ms(samples@.len() as int, TARGET_RATE as int) as nat,
        ),
    ensures
        r.0.wf(),
        r.1.wf(),
        r == aligned_times(
            chunk_started_at,
            chunk_ended_at,
            speech_range(samples@, TARGET_RATE as int),
        ),
{
    align_chunk_times(chunk_started_at, chunk_ended_at, samples, TARGET_RATE)
}

/// Aligned times are in order and lie inside the chunk.
pub proof fn law_alignment_stays_inside_the_chunk(
    started: UtcTime,
    ended: UtcTime,
    range: Option<(u64, u64)>,
    times: (UtcTime, UtcTime),
)
    requires
        started.wf(),
        not_later(started, ended),
        times == aligned_times(started, ended, range),
        range matches Some((from, to)) ==> can_shift(started, from as nat) && can_shift(
            started,
            to as nat,
        ),
    ensures
        not_later(started, times.0),
        not_later(times.0, times.1),
        not_later(times.1, ended),
{
    if let Some((from, to)) = range {
        let a = shifted(started, from as nat);
        law_shift_moves_forward(
            started,
            from as nat,
            UtcTime { secs: a.0 as i64, nanos: a.1 as u32 },
        );
    }
}

/// The squares of the samples, added up.
pub open spec fn sum_of_squares(s: Seq<i16>) -> int {
    s.fold_left(0int, |sum: int, x: i16| sum + x * x)
}

proof fn lemma_energy_is_the_sum(s: Seq<i16>)
    ensures
        energy(s) == sum_of_squares(s),
    decreases s.len(),
{
    if s.len() > 0 {
        lemma_energy_is_the_sum(s.drop_last());
        assert(s.last() * s.last() >= 0) by (nonlinear_arith);
    }
}

/// Samples are loud where the mean of their squares is at least that of 250.
pub proof fn law_loudness_is_the_mean_square(s: Seq<i16>)
    ensures
        energy(s) == sum_of_squares(s),
        is_loud(s) <==> s.len() > 0 && sum_of_squares(s) >= 250 * 250 * s.len(),
{
    lemma_energy_is_the_sum(s);
}

/// The part of `s` from `from` on, of `n` samples or as many as there are.
pub open spec fn stretch(s: Seq<i16>, from: int, n: int) -> Seq<i16> {
    if from + n <= s.len() {
        s.subrange(from, from + n)
    } else {
        s.subrange(from, s.len() as int)
    }
}

/// Whether the stretch of `w` samples with number `k` is loud, and no other is more than 25
/// times as loud.
pub open spec fn stands_out(s: Seq<i16>, w: int, k: int) -> bool {
    let own = stretch(s, k * w, w);
    &&& own.len() > 0
    &&& sum_of_squares(own) >= 62_500 * own.len()
    &&& forall|j: int|
        #![trigger stretch(s, j * w, w)]
        0 <= j && j * w < s.len() ==> 625 * sum_of_squares(own) * stretch(s, j * w, w).len()
            >= sum_of_squares(stretch(s, j * w, w)) * own.len()
}

/// Whether four stretches in a row from number `k` on stand out.
pub open spec fn four_stand_out(s: Seq<i16>, w: int, k: int) -> bool {
    &&& 0 <= k
    &&& (k + 3) * w < s.len()
    &&& stands_out(s, w, k)
    &&& stands_out(s, w, k + 1)
    &&& stands_out(s, w, k + 2)
    &&& stands_out(s, w, k + 3)
}

proof fn lemma_windows_are_stretches(s: Seq<i16>, w: int, k: int)
    requires
        w > 0,
        s.len() > 0,
        k >= 0,
    ensures
        k < window_count(s.len() as int, w) <==> k * w < s.len(),
        k * w < s.len() ==> window(s, w, k) == stretch(s, k * w, w) && window(s, w, k).len() > 0,
{
    let n = window_count(s.len() as int, w);
    if k * w < s.len() {
        lemma_window_count_covers(s.len() as int, w, k);
        assert((k + 1) * w == k * w + w) by (nonlinear_arith);
        assert(0 <= k * w) by (nonlinear_arith)
            requires
                k >= 0,
                w > 0,
        ;
    } else {
        assert(n <= k) by (nonlinear_arith)
            requires
                n == (s.len() + w - 1) / w,
                k * w >= s.len(),
                w > 0,
        ;
    }
}

proof fn lemma_voiced_stands_out(s: Seq<i16>, w: int, k: int)
    requires
        w > 0,
        s.len() > 0,
        0 <= k,
        k * w < s.len(),
    ensures
        voiced(s, w, k) == stands_out(s, w, k),
{
    let own = stretch(s, k * w, w);
    lemma_windows_are_stretches(s, w, k);
    lemma_energy_is_the_sum(own);
    if voiced(s, w, k) {
        assert forall|j: int|
            #![trigger stretch(s, j * w, w)]
            0 <= j && j * w < s.len() implies 625 * sum_of_squares(own) * stretch(
            s,
            j * w,
            w,
        ).len() >= sum_of_squares(stretch(s, j * w, w)) * own.len() by {
            lemma_windows_are_stretches(s, w, j);
            lemma_energy_is_the_sum(stretch(s, j * w, w));
            assert(keeps_up(window(s, w, k), window(s, w, j)));
        }
    }
    if stands_out(s, w, k) {
        assert forall|j: int| 0 <= j < window_count(s.len() as int, w) implies keeps_up(
            window(s, w, k),
            #[trigger] window(s, w, j),
        ) by {
            lemma_windows_are_stretches(s, w, j);
            lemma_energy_is_the_sum(stretch(s, j * w, w));
        }
    }
}

proof fn lemma_runs_are_four(s: Seq<i16>, w: int, k: int)
    requires
        w > 0,
        s.len() > 0,
    ensures
        run_at(s, w, k) == four_stand_out(s, w, k),
{
    if 0 <= k {
        lemma_windows_are_stretches(s, w, k + 3);
        if (k + 3) * w < s.len() {
            assert(k * w <= (k + 1) * w <= (k + 2) * w <= (k + 3) * w) by (nonlinear_arith)
                requires
                    w > 0,
            ;
            lemma_voiced_stands_out(s, w, k);
            lemma_voiced_stands_out(s, w, k + 1);
            lemma_voiced_stands_out(s, w, k + 2);
            lemma_voiced_stands_out(s, w, k + 3);
            if run_at(s, w, k) {
                assert(voiced(s, w, k) && voiced(s, w, k + 1));
                assert(voiced(s, w, k + 2) && voiced(s, w, k + 3));
            }
        }
    }
}

/// Where speech stands in audio: from 50 ms before the first four stretches of 20 ms in a
/// row that stand out to 100 ms after the last four, and never outside of the audio. There
/// is none exactly where no four stretches in a row stand out.
pub proof fn law_speech_is_where_it_is_loud(s: Seq<i16>, rate: int, r: Option<(u64, u64)>)
    requires
        rate > 0,
        rate % 50 == 0,
        s.len() > 0,
        s.len() * 1000 + 1000 <= u64::MAX,
        is_speech_range(s, rate, r),
    ensures
        r is None <==> forall|k: int| !#[trigger] four_stand_out(s, rate / 50, k),
        r matches Some((from, to)) ==> exists|first: int, last: int|
            #![trigger four_stand_out(s, rate / 50, first), four_stand_out(s, rate / 50, last)]
            four_stand_out(s, rate / 50, first) && four_stand_out(s, rate / 50, last) && (forall|
                k: int,
            | #[trigger]
                four_stand_out(s, rate / 50, k) ==> first <= k <= last) && from == (if 20 * first
                > 50 {
                20 * first - 50
            } else {
                0
            }) && to == (if 20 * (last + 4) + 100 <= s.len() * 1000 / (rate as nat) {
                20 * (last + 4) + 100
            } else {
                (s.len() * 1000 / (rate as nat)) as int
            }),
{
    let w = rate / 50;
    assert(w == window_len(rate) && w > 0);
    assert forall|k: int| #[trigger] run_at(s, w, k) == four_stand_out(s, w, k) by {
        lemma_runs_are_four(s, w, k);
    }
    assert forall|k: int| #[trigger] four_stand_out(s, w, k) implies run_at(s, w, k) && 20 * (k + 4)
        + 100 <= u64::MAX && 20 * (k + 3) < s.len() * 1000 / (rate as nat) + 20 by {
        lemma_runs_are_four(s, w, k);
        assert(k + 3 <= (k + 3) * w) by (nonlinear_arith)
            requires
                w > 0,
                k >= 0,
        ;
        assert((k + 3) * w * 1000 == 20 * (k + 3) * rate) by (nonlinear_arith)
            requires
                rate == 50 * w,
        ;
        assert(20 * (k + 3) <= s.len() * 1000 / (rate as nat)) by (nonlinear_arith)
            requires
                20 * (k + 3) * rate <= s.len() * 1000,
                rate > 0,
        ;
    }
    match r {
        Some((from, to)) => {
            let (first, last) = choose|first: int, last: int|
                #[trigger] spans_speech(s, w, first, last) && padded_range(
                    s.len() as int,
                    rate,
                    first,
                    last,
                ) == (from as int, to as int);
            assert(run_at(s, w, first) && run_at(s, w, last - 3));
            assert(four_stand_out(s, w, first) && four_stand_out(s, w, last - 3));
            assert forall|k: int| #[trigger] four_stand_out(s, w, k) implies first <= k <= last - 3 by {
                assert(run_at(s, w, k));
            }
        },
        None => {
            if exists|k: int| run_at(s, w, k) {
                let (first, last) = choose|first: int, last: int|
                    #[trigger] spans_speech(s, w, first, last) && padded_range(
                        s.len() as int,
                        rate,
                        first,
                        last,
                    ).1 <= padded_range(s.len() as int, rate, first, last).0;
                assert(run_at(s, w, first) && run_at(s, w, last - 3));
                assert(four_stand_out(s, w, first) && four_stand_out(s, w, last - 3));
                assert(false);
            }
            assert forall|k: int| !#[trigger] four_stand_out(s, w, k) by {
                assert(!run_at(s, w, k));
            }
        },
    }
}

/// Aligned times lie as far after the start of the chunk as the speech does in its audio:
/// `from` and `to` milliseconds, but never after the end of the chunk. Without speech they
/// are those of the chunk. Leap seconds are left out.
pub proof fn law_aligned_times_are_those_of_the_speech(
    started: UtcTime,
    ended: UtcTime,
    s: Seq<i16>,
    rate: int,
    range: Option<(u64, u64)>,
    times: (UtcTime, UtcTime),
)
    requires
        started.wf(),
        ended.wf(),
        started.nanos < 1_000_000_000,
        ended.nanos < 1_000_000_000,
        not_later(started, ended),
        is_speech_range(s, rate, range),
        times == aligned_times(started, ended, speech_range(s, rate)),
        range matches Some((from, to)) ==> can_shift(started, from as nat) && can_shift(
            started,
            to as nat,
        ),
    ensures
        range is None ==> times == (started, ended),
        range matches Some((from, to)) ==> {
            let begin = started.secs * 1_000_000_000 + started.nanos;
            let end = ended.secs * 1_000_000_000 + ended.nanos;
            let first = times.0.secs * 1_000_000_000 + times.0.nanos;
            let last = times.1.secs * 1_000_000_000 + times.1.nanos;
            &&& begin + from * 1_000_000 <= end ==> first == begin + from * 1_000_000
            &&& begin + to * 1_000_000 <= end ==> last == begin + to * 1_000_000
            &&& begin + from * 1_000_000 > end ==> times.0 == ended
            &&& begin + to * 1_000_000 > end ==> times.1 == ended
            &&& begin + from * 1_000_000 < end ==> first < last
        },
{
    law_speech_range_is_unique(s, rate, range, speech_range(s, rate));
    if let Some((from, to)) = range {
        assert(from < to);
    }
}

} // verus!
