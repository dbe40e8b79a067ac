//! System-load domain: the sampled processor and memory figures and the
//! verified label the widget shows. Loads are carried in tenths of a
//! percent, so no floating point is needed.

use vstd::prelude::*;
use crate::text::{dec_rep, digit_char, u64_to_string, digit_str};

verus! {

/// Snapshot of the system-load domain: overall processor load in tenths of
/// a percent, and memory figures in bytes.
#[derive(Clone, Copy, Debug, PartialEq, Eq, Structural)]
pub struct SysInfoData {
    pub cpu_usage_tenths: u32,
    pub memory_total: u64,
    pub memory_used: u64,
}

/// The sum of the listed per-core loads.
pub open spec fn spec_load_sum(s: Seq<u32>) -> int
    decreases s.len(),
{
    if s.len() == 0 {
        0
    } else {
        spec_load_sum(s.drop_last()) + s.last()
    }
}

/// The mean of the per-core loads, truncated; an empty list means zero
/// load, never a division by zero.
pub open spec fn spec_load_mean(s: Seq<u32>) -> int {
    if s.len() == 0 {
        0
    } else {
        spec_load_sum(s) / s.len() as int
    }
}

/// Averages the per-core loads, each in tenths of a percent.
pub fn cpu_average_tenths(samples: &Vec<u32>) -> (r: u32)
    ensures
        r == spec_load_mean(samples@),
{
    let n = samples.len();
    if n == 0 {
        return 0;
    }
    let mut sum: u128 = 0;
    let mut i: usize = 0;
    while i < n
        invariant
            i <= n,
            n == samples@.len(),
            sum == spec_load_sum(samples@.take(i as int)),
            sum as int <= i as int * 0xFFFF_FFFF,
        decreases n - i,
    {
        proof {
            assert(samples@.take(i + 1).drop_last() =~= samples@.take(i as int));
            assert(samples@.take(i + 1).last() == samples@[i as int]);
        }
        sum = sum + samples[i] as u128;
        i = i + 1;
    }
    proof {
        assert(samples@.take(n as int) =~= samples@);
    }
    let mean = sum / (n as u128);
    proof {
        assert(sum as int / (n as int) <= 0xFFFF_FFFF) by (nonlinear_arith)
            requires
                sum as int >= 0,
                n as int >= 1,
                sum as int <= n as int * 0xFFFF_FFFF,
        ;
    }
    mean as u32
}

/// The "CPU: N.D%" label for a load in tenths of a percent: whole percent,
/// one truncated fraction digit.
pub open spec fn spec_cpu_label(tenths: u32) -> Seq<char> {
    "CPU: "@ + dec_rep((tenths / 10) as nat) + "."@ + seq![digit_char((tenths % 10) as nat)] + "%"@
}

/// Renders the processor-load label.
pub fn cpu_label(tenths: u32) -> (r: String)
    ensures
        r@ == spec_cpu_label(tenths),
{
    let mut s = String::from_str("CPU: ");
    let whole = u64_to_string(tenths as u64 / 10);
    s.append(whole.as_str());
    s.append(".");
    s.append(digit_str(tenths as u64 % 10));
    s.append("%");
    proof {
        assert(s@ =~= spec_cpu_label(tenths));
    }
    s
}

} // verus!
