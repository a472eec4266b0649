//! Process resource-limit tuning for the desktop host.

use vstd::prelude::*;

verus! {

/// The open-file soft limit the host asks for when the hard limit allows it.
pub const TARGET_NOFILE_SOFT_LIMIT: u64 = 4096;

/// The soft limit the host wants: never lower than the current soft limit,
/// otherwise the target, capped at the hard limit.
pub open spec fn spec_desired_nofile_soft_limit(current_soft: u64, hard: u64) -> u64 {
    let capped = if TARGET_NOFILE_SOFT_LIMIT <= hard { TARGET_NOFILE_SOFT_LIMIT } else { hard };
    if current_soft >= capped { current_soft } else { capped }
}

/// Law: the soft limit asked for is the larger of the current soft limit
/// and 4096 capped at the hard limit: at least both, and equal to one of
/// them. A soft limit below that cap is always raised to the cap.
pub proof fn law_desired_soft_limit(current_soft: u64, hard: u64)
    ensures
        TARGET_NOFILE_SOFT_LIMIT == 4096,
        spec_desired_nofile_soft_limit(current_soft, hard) >= current_soft,
        spec_desired_nofile_soft_limit(current_soft, hard) >= if hard < 4096 { hard } else { 4096 },
        spec_desired_nofile_soft_limit(current_soft, hard) == current_soft
            || spec_desired_nofile_soft_limit(current_soft, hard) == if hard < 4096 { hard } else { 4096 },
        current_soft < 4096 && current_soft < hard ==> spec_desired_nofile_soft_limit(current_soft, hard)
            == if hard < 4096 { hard } else { 4096 },
        (current_soft >= 4096 || current_soft >= hard) ==> spec_desired_nofile_soft_limit(current_soft, hard)
            == current_soft,
{
}

/// Computes the soft limit to request from the current soft and hard limits.
pub fn desired_nofile_soft_limit(current_soft: u64, hard: u64) -> (r: u64)
    ensures
        r == spec_desired_nofile_soft_limit(current_soft, hard),
        r >= current_soft,
        r == current_soft || r <= hard,
{
    let capped = if TARGET_NOFILE_SOFT_LIMIT <= hard { TARGET_NOFILE_SOFT_LIMIT } else { hard };
    if current_soft >= capped { current_soft } else { capped }
}

/// Decides whether the open-file soft limit should be raised, given the limits
/// the operating system reported. Returns the new soft limit to set (the hard
/// limit stays as it is), or `None` when the current soft limit is already at
/// least the desired one.
pub fn raise_nofile_soft_limit(current_soft: u64, hard: u64) -> (next: Option<u64>)
    ensures
        match next {
            Some(n) => n == spec_desired_nofile_soft_limit(current_soft, hard) && n > current_soft
                && n <= hard,
            None => spec_desired_nofile_soft_limit(current_soft, hard) <= current_soft,
        },
{
    let next = desired_nofile_soft_limit(current_soft, hard);
    if next <= current_soft {
        None
    } else {
        Some(next)
    }
}

} // verus!
