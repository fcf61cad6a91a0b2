//! Which events are logged, and which spans are profiled.

use vstd::prelude::*;

use crate::text::chars_of;

verus! {

/// The least severity that is logged.
#[derive(Clone, Copy, Debug, PartialEq, Eq, Structural)]
pub enum LogLevel {
    Warn,
    Info,
    Debug,
    Trace,
}

/// The level that goes with the number of times that verbosity was asked for.
pub fn log_level(verbosity: u8) -> (level: LogLevel)
    ensures
        verbosity == 0 <==> level == LogLevel::Warn,
        verbosity == 1 <==> level == LogLevel::Info,
        verbosity == 2 <==> level == LogLevel::Debug,
        verbosity >= 3 <==> level == LogLevel::Trace,
{
    if verbosity == 0 {
        LogLevel::Warn
    } else if verbosity == 1 {
        LogLevel::Info
    } else if verbosity == 2 {
        LogLevel::Debug
    } else {
        LogLevel::Trace
    }
}

/// Whether a text begins with another one.
fn starts_with(text: &str, start: &str) -> (begins: bool)
    ensures
        begins == start@.is_prefix_of(text@),
{
    let whole = chars_of(text);
    let front = chars_of(start);
    if front.len() > whole.len() {
        return false;
    }
    let mut k: usize = 0;
    while k < front.len()
        invariant
            k <= front@.len() <= whole@.len(),
            whole@ == text@,
            front@ == start@,
            forall|j: int| 0 <= j < k ==> front@[j] == whole@[j],
        decreases front@.len() - k,
    {
        if front[k] != whole[k] {
            proof {
                assert(whole@.subrange(0, front@.len() as int)[k as int] == whole@[k as int]);
            }
            return false;
        }
        k = k + 1;
    }
    proof {
        assert(front@ =~= whole@.subrange(0, front@.len() as int));
    }
    true
}

/// Whether elapsed times are reported: for the spans of this program and of the library that reads
/// environment definitions.
pub fn is_profiled(is_span: bool, target: &str) -> (profiled: bool)
    ensures
        profiled <==> is_span && ("sarusctl"@.is_prefix_of(target@) || "raster"@.is_prefix_of(
            target@,
        )),
{
    is_span && (starts_with(target, "sarusctl") || starts_with(target, "raster"))
}

} // verus!
