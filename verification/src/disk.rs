//! Free disk space and sizes.

use crate::audio::speech::saturated;
use crate::error::{AppError, ErrorKind};
use crate::text;
use vstd::prelude::*;

verus! {

/// Whether so much free space is enough to record.
pub open spec fn enough_space(free: u64, minimum_mb: u64) -> bool {
    free >= saturated(minimum_mb * 0x10_0000)
}

pub fn capture_allowed(free_bytes: u64, minimum_free_space_mb: u64) -> (r: bool)
    ensures
        r == enough_space(free_bytes, minimum_free_space_mb),
{
    let needed: u64 = match minimum_free_space_mb.checked_mul(0x10_0000) {
        Some(needed) => needed,
        None => u64::MAX,
    };
    free_bytes >= needed
}

/// The message that says why a recording was stopped.
pub open spec fn disk_stop_message(free: u64, path: Seq<char>, minimum_mb: u64) -> Seq<char> {
    "Capture stopped: only "@ + text::decimal((free / 0x10_0000) as nat) + " MB free on "@ + path
        + ", minimum_free_space_mb is "@ + text::decimal(minimum_mb as nat)
}

pub fn disk_stop_error(free_bytes: u64, path: &str, minimum_free_space_mb: u64) -> (e: AppError)
    ensures
        e@ == (
            ErrorKind::Other,
            disk_stop_message(free_bytes, path@, minimum_free_space_mb),
        ),
{
    let mut message = "Capture stopped: only ".to_owned();
    message.append(text::decimal_of(free_bytes / 0x10_0000).as_str());
    message.append(" MB free on ");
    message.append(path);
    message.append(", minimum_free_space_mb is ");
    message.append(text::decimal_of(minimum_free_space_mb).as_str());
    AppError::other(message.as_str())
}

/// Refuses to record where there is too little free space.
pub fn assert_enough_space(
    free_bytes: u64,
    path: &str,
    minimum_free_space_mb: u64,
) -> (r: crate::error::Result<()>)
    ensures
        if enough_space(free_bytes, minimum_free_space_mb) {
            r is Ok
        } else {
            crate::error::fails(
                r,
                ErrorKind::Other,
                disk_stop_message(free_bytes, path@, minimum_free_space_mb),
            )
        },
{
    if capture_allowed(free_bytes, minimum_free_space_mb) {
        return Ok(());
    }
    Err(disk_stop_error(free_bytes, path, minimum_free_space_mb))
}

/// The spacing of the numbers around `n` that have 53 binary digits.
pub open spec fn spacing(n: nat, step: nat) -> nat
    decreases n - step,
{
    if step == 0 || n < step * 0x20_0000_0000_0000 {
        step
    } else {
        spacing(n, step * 2)
    }
}

/// `n / d` to the nearest whole number, a tie to the even one.
pub open spec fn rounded(n: nat, d: nat) -> nat {
    let q = n / d;
    let r = n % d;
    if r + r > d || (r + r == d && q % 2 == 1) {
        q + 1
    } else {
        q
    }
}

/// `n` to the nearest number with 53 binary digits.
pub open spec fn to_53_digits(n: nat) -> nat {
    rounded(n, spacing(n, 1)) * spacing(n, 1)
}

/// A size in units of `unit` bytes, with one digit after the point.
pub open spec fn tenths(bytes: nat, unit: nat) -> Seq<char> {
    let t = rounded(to_53_digits(bytes) * 10, unit);
    text::decimal(t / 10) + "."@ + text::decimal(t % 10)
}

pub open spec fn size_text(bytes: u64) -> Seq<char> {
    if bytes >= 0x4000_0000 {
        tenths(bytes as nat, 0x4000_0000) + " GB"@
    } else if bytes >= 0x10_0000 {
        tenths(bytes as nat, 0x10_0000) + " MB"@
    } else if bytes >= 0x400 {
        tenths(bytes as nat, 0x400) + " KB"@
    } else {
        text::decimal(bytes as nat) + " B"@
    }
}

fn rounded_of(n: u128, d: u128) -> (r: u128)
    requires
        0 < d <= 0x8000_0000_0000_0000_0000,
        n <= 0x8000_0000_0000_0000_0000_0000,
    ensures
        r == rounded(n as nat, d as nat),
        r <= n + 1,
{
    let q: u128 = n / d;
    let r: u128 = n % d;
    assert(q <= n) by (nonlinear_arith)
        requires
            q == n / d,
            d >= 1,
            n >= 0,
    ;
    if r + r > d || (r + r == d && q % 2 == 1) {
        q + 1
    } else {
        q
    }
}

fn in_53_digits(n: u64) -> (r: u128)
    ensures
        r == to_53_digits(n as nat),
        r <= n + 4096,
{
    let mut step: u128 = 1;
    while n as u128 >= step * 0x20_0000_0000_0000
        invariant
            1 <= step < 4096,
            step == 1 || step * 0x20_0000_0000_0000 <= 2 * n,
            spacing(n as nat, 1) == spacing(n as nat, step as nat),
        decreases 8192 - step,
    {
        step = step * 2;
    }
    proof {
        let q = n as int / step as int;
        let r = n as int % step as int;
        assert(q * step + r == n) by (nonlinear_arith)
            requires
                q == n as int / step as int,
                r == n as int % step as int,
                step >= 1,
        ;
        assert((q + 1) * step == q * step + step) by (nonlinear_arith);
        assert(q * step <= n);
        assert(rounded(n as nat, step as nat) <= q + 1);
        assert(rounded(n as nat, step as nat) == q || rounded(n as nat, step as nat) == q + 1);
        assert(0 <= q);
    }
    rounded_of(n as u128, step) * step
}

fn tenths_of(bytes: u64, unit: u64) -> (r: String)
    requires
        unit > 0,
    ensures
        r@ == tenths(bytes as nat, unit as nat),
{
    let exact = in_53_digits(bytes);
    let t: u128 = rounded_of(exact * 10, unit as u128);
    let whole = decimal_of_wide(t / 10);
    let part = decimal_of_wide(t % 10);
    text::concat3(whole.as_str(), ".", part.as_str())
}

fn decimal_of_wide(n: u128) -> (r: String)
    ensures
        r@ == text::decimal(n as nat),
    decreases n,
{
    if n <= u64::MAX as u128 {
        text::decimal_of(n as u64)
    } else {
        let mut r = decimal_of_wide(n / 10);
        let last = text::decimal_of((n % 10) as u64);
        proof {
            assert(last@ =~= seq![text::digit((n % 10) as int)]);
            assert(r@ + last@ =~= r@.push(text::digit((n % 10) as int)));
        }
        r.append(last.as_str());
        r
    }
}

/// A size as people read it.
pub fn format_bytes(bytes: u64) -> (r: String)
    ensures
        r@ == size_text(bytes),
{
    if bytes >= 0x4000_0000 {
        text::concat2(tenths_of(bytes, 0x4000_0000).as_str(), " GB")
    } else if bytes >= 0x10_0000 {
        text::concat2(tenths_of(bytes, 0x10_0000).as_str(), " MB")
    } else if bytes >= 0x400 {
        text::concat2(tenths_of(bytes, 0x400).as_str(), " KB")
    } else {
        text::concat2(text::decimal_of(bytes).as_str(), " B")
    }
}

/// A file below the sessions directory.
pub struct StoredFile {
    pub name: String,
    pub bytes: u64,
}

/// The size of all FLAC files.
pub open spec fn audio_size(files: Seq<StoredFile>) -> nat
    decreases files.len(),
{
    if files.len() == 0 {
        0
    } else {
        audio_size(files.drop_last()) + if text::has_extension(files.last().name@, "flac"@) {
            files.last().bytes as nat
        } else {
            0
        }
    }
}

/// The size of all FLAC files among those below the sessions directory.
pub fn stored_audio_bytes(files: &Vec<StoredFile>) -> (r: u64)
    ensures
        r == saturated(audio_size(files@) as int),
{
    let mut total: u64 = 0;
    let mut i: usize = 0;
    proof {
        reveal_strlit("flac");
        assert("flac"@ =~= seq!['f', 'l', 'a', 'c']);
    }
    while i < files.len()
        invariant
            i <= files.len(),
            !"flac"@.contains('.'),
            total == saturated(audio_size(files@.take(i as int)) as int),
        decreases files.len() - i,
    {
        proof {
            assert(files@.take(i + 1).drop_last() =~= files@.take(i as int));
        }
        if text::is_extension(files[i].name.as_str(), "flac") {
            total = total.saturating_add(files[i].bytes);
        }
        i += 1;
    }
    assert(files@.take(i as int) =~= files@);
    total
}

/// Capture goes on where as many mebibytes are free as the settings ask for.
pub proof fn law_capture_needs_the_free_space(free: u64, minimum_mb: u64)
    ensures
        minimum_mb * 1_048_576 <= u64::MAX ==> (enough_space(free, minimum_mb) <==> free
            >= minimum_mb * 1_048_576),
        minimum_mb * 1_048_576 > u64::MAX ==> (enough_space(free, minimum_mb) <==> free
            == u64::MAX),
{
}

/// A size is shown in the largest unit that it reaches, to the nearest tenth. Sizes of more
/// digits than a float holds are left out.
pub proof fn law_sizes_are_shown_to_the_tenth(bytes: u64)
    requires
        bytes < 0x20_0000_0000_0000,
    ensures
        bytes < 1_024 ==> size_text(bytes) == text::decimal(bytes as nat) + " B"@,
        bytes >= 1_024 ==> exists|t: nat| {
            let unit = if bytes >= 1_073_741_824 {
                1_073_741_824int
            } else if bytes >= 1_048_576 {
                1_048_576
            } else {
                1_024
            };
            &&& -unit <= 2 * (t * unit - 10 * bytes) <= unit
            &&& size_text(bytes) == #[trigger] text::decimal(t / 10) + "."@ + text::decimal(t % 10)
                + (if bytes >= 1_073_741_824 {
                " GB"@
            } else if bytes >= 1_048_576 {
                " MB"@
            } else {
                " KB"@
            })
        },
{
    let n = bytes as nat;
    assert(spacing(n, 1) == 1);
    assert(to_53_digits(n) == n);
    if bytes >= 1_024 {
        let unit: nat = if bytes >= 1_073_741_824 {
            1_073_741_824
        } else if bytes >= 1_048_576 {
            1_048_576
        } else {
            1_024
        };
        let t = rounded(n * 10, unit);
        let q = (n * 10) / unit;
        let r = (n * 10) % unit;
        assert(q * unit + r == n * 10 && r < unit);
        assert((q + 1) * unit == q * unit + unit) by (nonlinear_arith);
        assert(t == q || t == q + 1);
        assert(-(unit as int) <= 2 * (t * unit - 10 * bytes) <= unit);
        assert(tenths(n, unit) == text::decimal(t / 10) + "."@ + text::decimal(t % 10));
    }
}

/// The audio that is stored are all files with the ending `flac`, and no others.
pub proof fn law_stored_audio_is_what_the_flac_files_hold(files: Seq<StoredFile>)
    ensures
        audio_size(files) == files.fold_left(
            0int,
            |sum: int, f: StoredFile|
                if text::has_extension(f.name@, "flac"@) {
                    sum + f.bytes
                } else {
                    sum
                },
        ),
    decreases files.len(),
{
    if files.len() > 0 {
        law_stored_audio_is_what_the_flac_files_hold(files.drop_last());
    }
}

/// To round is to take the nearest multiple, and of two that are as near the even one.
pub proof fn law_rounding_takes_the_nearest(n: nat, d: nat)
    requires
        d > 0,
    ensures
        -(d as int) <= 2 * (rounded(n, d) * d - n) <= d,
        2 * (rounded(n, d) * d - n) == d ==> rounded(n, d) % 2 == 0,
        2 * (n - rounded(n, d) * d) == d ==> rounded(n, d) % 2 == 0,
{
    let q = n / d;
    let r = n % d;
    assert(q * d + r == n && r < d) by (nonlinear_arith)
        requires
            d > 0,
            q == n / d,
            r == n % d,
    ;
    assert((q + 1) * d == q * d + d) by (nonlinear_arith);
}

/// What is said where the space runs out: how much there is, where, and how much there must
/// be.
pub proof fn law_what_is_said_when_space_runs_out(free: u64, path: Seq<char>, minimum_mb: u64)
    ensures
        disk_stop_message(free, path, minimum_mb) == "Capture stopped: only "@ + text::decimal(
            (free / 1_048_576) as nat,
        ) + " MB free on "@ + path + ", minimum_free_space_mb is "@ + text::decimal(
            minimum_mb as nat,
        ),
{
}

} // verus!
