//! Aggregation arithmetic: percentages, unit conversions and uptime.
use vstd::prelude::*;

verus! {

/// Bytes in one gigabyte (1024³).
pub const BYTES_PER_GB: u64 = 1073741824;

/// Bytes in one megabyte (1024²).
pub const BYTES_PER_MB: u64 = 1048576;

/// `value * scale / unit`, rounded to the nearest integer (halves round up).
pub open spec fn scaled_rounded(value: nat, scale: nat, unit: nat) -> nat
    recommends
        unit > 0,
{
    (value * scale + unit / 2) / unit
}

/// A share of a total in hundredths of a percent; zero when the total is zero.
pub open spec fn percent_hundredths_of(part: nat, total: nat) -> nat {
    if total == 0 {
        0
    } else {
        scaled_rounded(part, 10000, total)
    }
}

fn scale_round(value: u64, scale: u64, unit: u64) -> (r: u128)
    requires
        unit > 0,
        scale <= 10000,
    ensures
        r as nat == scaled_rounded(value as nat, scale as nat, unit as nat),
{
    let v = value as u128;
    let s = scale as u128;
    let u = unit as u128;
    assert(v * s <= 0xffff_ffff_ffff_ffffu128 * 10000) by (nonlinear_arith)
        requires
            v <= 0xffff_ffff_ffff_ffffu128,
            s <= 10000,
    ;
    (v * s + u / 2) / u
}

/// `part` as a share of `total`, in hundredths of a percent, rounded to the
/// nearest hundredth. A zero total gives zero rather than a division fault.
pub fn percent_hundredths(part: u64, total: u64) -> (r: u128)
    ensures
        r as nat == percent_hundredths_of(part as nat, total as nat),
        total == 0 ==> r == 0,
{
    if total == 0 {
        0
    } else {
        scale_round(part, 10000, total)
    }
}

/// Bytes as gigabytes, in hundredths of a gigabyte, rounded to the nearest.
pub fn bytes_to_gb_hundredths(bytes: u64) -> (r: u128)
    ensures
        r as nat == scaled_rounded(bytes as nat, 100, BYTES_PER_GB as nat),
{
    scale_round(bytes, 100, BYTES_PER_GB)
}

/// Bytes as gigabytes, in tenths of a gigabyte, rounded to the nearest.
pub fn bytes_to_gb_tenths(bytes: u64) -> (r: u128)
    ensures
        r as nat == scaled_rounded(bytes as nat, 10, BYTES_PER_GB as nat),
{
    scale_round(bytes, 10, BYTES_PER_GB)
}

/// Bytes as megabytes, in tenths of a megabyte, rounded to the nearest.
pub fn bytes_to_mb_tenths(bytes: u64) -> (r: u128)
    ensures
        r as nat == scaled_rounded(bytes as nat, 10, BYTES_PER_MB as nat),
{
    scale_round(bytes, 10, BYTES_PER_MB)
}

/// Whole days, hours and minutes of an uptime.
#[derive(Clone, Copy, Debug, PartialEq, Eq)]
pub struct Uptime {
    pub days: u64,
    pub hours: u64,
    pub minutes: u64,
}

/// Splits a number of seconds into whole days, the hours left over within the
/// day, and the minutes left over within the hour.
pub fn decompose_uptime(seconds: u64) -> (r: Uptime)
    ensures
        r.days == seconds / 86400,
        r.hours == (seconds % 86400) / 3600,
        r.minutes == (seconds % 3600) / 60,
        r.hours < 24,
        r.minutes < 60,
{
    Uptime { days: seconds / 86400, hours: (seconds % 86400) / 3600, minutes: (seconds % 3600) / 60 }
}

/// A share of a total in tenths of a percent; zero when the total is zero.
pub open spec fn percent_tenths_of(part: nat, total: nat) -> nat {
    if total == 0 {
        0
    } else {
        scaled_rounded(part, 1000, total)
    }
}

/// `part` as a share of `total`, in tenths of a percent, rounded to the
/// nearest tenth. A zero total gives zero.
pub fn percent_tenths(part: u64, total: u64) -> (r: u128)
    ensures
        r as nat == percent_tenths_of(part as nat, total as nat),
        total == 0 ==> r == 0,
{
    if total == 0 {
        0
    } else {
        scale_round(part, 1000, total)
    }
}

/// The sum of the first `m` values.
pub open spec fn sum_of(v: Seq<u32>, m: int) -> nat
    decreases m,
{
    if m <= 0 {
        0
    } else {
        sum_of(v, m - 1) + v[m - 1] as nat
    }
}

/// The mean of the per-core CPU shares, rounded to the nearest; zero for no cores.
pub open spec fn mean_of(v: Seq<u32>) -> nat {
    if v.len() == 0 {
        0
    } else {
        scaled_rounded(sum_of(v, v.len() as int), 1, v.len())
    }
}

/// The CPU figures of the report, in hundredths of a percent.
#[derive(Clone, Copy, Debug, PartialEq, Eq)]
pub struct CpuFigures {
    pub usage_hundredths: u128,
    pub idle_hundredths: u128,
    pub cores: usize,
}

/// The mean CPU share over the cores, the idle share that is left of 100%
/// (none where the mean exceeds it), and the number of cores.
pub fn cpu_figures(per_core: &Vec<u32>) -> (r: CpuFigures)
    ensures
        r.usage_hundredths == mean_of(per_core@),
        r.idle_hundredths == if mean_of(per_core@) <= 10000 {
            10000 - mean_of(per_core@)
        } else {
            0
        },
        r.cores == per_core.len(),
{
    let mut sum: u128 = 0;
    let mut i: usize = 0;
    while i < per_core.len()
        invariant
            i <= per_core.len(),
            sum == sum_of(per_core@, i as int),
            sum <= i * 0xffff_ffffnat,
        decreases per_core.len() - i,
    {
        assert(sum + per_core[i as int] <= (i + 1) * 0xffff_ffffnat) by (nonlinear_arith)
            requires
                sum <= i * 0xffff_ffffnat,
                per_core[i as int] <= 0xffff_ffffnat,
        ;
        assert((i + 1) * 0xffff_ffffnat <= 0x1_0000_0000_0000_0000nat * 0xffff_ffffnat)
            by (nonlinear_arith)
            requires
                i < 0xffff_ffff_ffff_ffffnat,
        ;
        sum = sum + per_core[i] as u128;
        i = i + 1;
    }
    let n = per_core.len();
    let usage: u128 = if n == 0 {
        0
    } else {
        (sum + (n as u128) / 2) / (n as u128)
    };
    let idle: u128 = if usage <= 10000 { 10000 - usage } else { 0 };
    CpuFigures { usage_hundredths: usage, idle_hundredths: idle, cores: n }
}

/// The one-minute load average per core, in hundredths, rounded to the
/// nearest; zero for no cores.
pub fn load_per_core(load_hundredths: u64, cores: usize) -> (r: u128)
    ensures
        cores == 0 ==> r == 0,
        cores > 0 ==> r as nat == scaled_rounded(load_hundredths as nat, 1, cores as nat),
{
    if cores == 0 {
        0
    } else {
        scale_round(load_hundredths, 1, cores as u64)
    }
}

/// The used space of a disk: its size less what is available, or zero
/// where the available space reads larger than the size.
pub fn disk_used(total: u64, available: u64) -> (r: u64)
    ensures
        r == if available <= total { total - available } else { 0 },
{
    total.saturating_sub(available)
}

/// Swap figures: its size and use in hundredths of a gigabyte, and its use
/// in hundredths of a percent.
#[derive(Clone, Copy, Debug, PartialEq, Eq)]
pub struct SwapFigures {
    pub total_gb: u128,
    pub used_gb: u128,
    pub used_percent: u128,
}

/// The swap figures of the report; `None` where no swap is configured
/// (a total of zero), which the report shows as such rather than as an error.
pub fn swap_figures(total: u64, used: u64) -> (r: Option<SwapFigures>)
    ensures
        total == 0 ==> r is None,
        total > 0 ==> r is Some && r->0.total_gb == scaled_rounded(
            total as nat,
            100,
            BYTES_PER_GB as nat,
        ) && r->0.used_gb == scaled_rounded(used as nat, 100, BYTES_PER_GB as nat)
            && r->0.used_percent == percent_hundredths_of(used as nat, total as nat),
{
    if total == 0 {
        None
    } else {
        Some(
            SwapFigures {
                total_gb: bytes_to_gb_hundredths(total),
                used_gb: bytes_to_gb_hundredths(used),
                used_percent: percent_hundredths(used, total),
            },
        )
    }
}

/// One row of the disk table: size, used and available space in tenths of
/// a gigabyte, and the used share in tenths of a percent.
#[derive(Clone, Copy, Debug, PartialEq, Eq)]
pub struct DiskFigures {
    pub size_gb: u128,
    pub used_gb: u128,
    pub available_gb: u128,
    pub used_percent: u128,
}

/// The figures of a disk of `total` bytes with `available` bytes free; the
/// used space is the difference (none where more reads as free than the
/// size), and a disk of size zero is zero percent used.
pub fn disk_figures(total: u64, available: u64) -> (r: DiskFigures)
    ensures
        r.size_gb == scaled_rounded(total as nat, 10, BYTES_PER_GB as nat),
        r.available_gb == scaled_rounded(available as nat, 10, BYTES_PER_GB as nat),
        r.used_gb == scaled_rounded(
            if available <= total { (total - available) as nat } else { 0 },
            10,
            BYTES_PER_GB as nat,
        ),
        r.used_percent == percent_tenths_of(
            if available <= total { (total - available) as nat } else { 0 },
            total as nat,
        ),
{
    let used = disk_used(total, available);
    DiskFigures {
        size_gb: bytes_to_gb_tenths(total),
        used_gb: bytes_to_gb_tenths(used),
        available_gb: bytes_to_gb_tenths(available),
        used_percent: percent_tenths(used, total),
    }
}

} // verus!
