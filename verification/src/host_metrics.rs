//! Reading the counters of the operating system.

use vstd::prelude::*;

verus! {

/// How much time the processors have spent, in ticks.
#[derive(Debug, Clone, Copy, PartialEq, Eq)]
pub struct SystemCounters {
    pub busy_ticks: u64,
    pub total_ticks: u64,
}

/// How much the process has read and written.
#[derive(Debug, Clone, Copy, PartialEq, Eq)]
pub struct ProcessCounters {
    pub read_bytes: u64,
    pub write_bytes: u64,
}

/// A count of ticks from its two halves.
pub fn filetime_ticks(low: u32, high: u32) -> (ticks: u64)
    ensures
        ticks == high * 0x1_0000_0000 + low,
{
    let wide_low: u64 = low as u64;
    let wide_high: u64 = high as u64;
    let ticks: u64 = wide_low | (wide_high << 32);
    assert(wide_low | (wide_high << 32) == wide_high * 0x1_0000_0000 + wide_low) by (bit_vector)
        requires
            wide_low <= 0xffff_ffff,
            wide_high <= 0xffff_ffff,
    ;
    ticks
}

/// The counters from the times of the idle loop, of the kernel, which holds it,
/// and of programs.
pub fn system_counters(idle: u64, kernel: u64, user: u64) -> (counters: SystemCounters)
    ensures
        counters.total_ticks == crate::numerals::capped_sum(kernel, user),
        counters.busy_ticks == crate::numerals::floored_difference(crate::numerals::capped_sum(kernel, user), idle),
{
    let total_ticks: u64 = kernel.saturating_add(user);
    SystemCounters { busy_ticks: total_ticks.saturating_sub(idle), total_ticks }
}

/// How many of the ticks between two readings were busy, and out of how many;
/// without a tick in between there is no share.
pub fn busy_share(
    previous: Option<SystemCounters>,
    current: Option<SystemCounters>,
) -> (share: Option<(u64, u64)>)
    ensures
        share == (if previous is Some && current is Some && current->0.total_ticks
            > previous->0.total_ticks {
            Some(
                (
                    crate::numerals::floored_difference(current->0.busy_ticks, previous->0.busy_ticks),
                    crate::numerals::floored_difference(current->0.total_ticks, previous->0.total_ticks),
                ),
            )
        } else {
            None
        }),
{
    match (previous, current) {
        (Some(previous), Some(current)) => {
            let total: u64 = current.total_ticks.saturating_sub(previous.total_ticks);
            let busy: u64 = current.busy_ticks.saturating_sub(previous.busy_ticks);
            if total > 0 {
                Some((busy, total))
            } else {
                None
            }
        },
        _ => None,
    }
}

/// How much was read and written between two readings.
pub fn transferred(
    previous: Option<ProcessCounters>,
    current: Option<ProcessCounters>,
) -> (bytes: Option<(u64, u64)>)
    ensures
        bytes == (if previous is Some && current is Some {
            Some(
                (
                    crate::numerals::floored_difference(current->0.read_bytes, previous->0.read_bytes),
                    crate::numerals::floored_difference(current->0.write_bytes, previous->0.write_bytes),
                ),
            )
        } else {
            None
        }),
{
    match (previous, current) {
        (Some(previous), Some(current)) => Some(
            (
                current.read_bytes.saturating_sub(previous.read_bytes),
                current.write_bytes.saturating_sub(previous.write_bytes),
            ),
        ),
        _ => None,
    }
}

} // verus!
