//! How a run ends: what is left of it, and what it results in.

use vstd::prelude::*;

use crate::cleanup::{
    elapsed_since, finalize_replay, pause_nanos, removal_replay, timeout_warning, CLEANUP_TIMEOUT,
};
use crate::context::{rootdirs_of, PodmanView};
use crate::deps::RemovalView;
use crate::error::ErrorView;
use crate::laws::gone;
use crate::output::OutputView;
use crate::run::{pod_result, run_result};
use crate::text::{decimal, joined};
use crate::trace::{Call, Reply, Trace};

verus! {

/// The text in which a user reads an error.
pub open spec fn read_by_user(err: ErrorView) -> Seq<char> {
    match err {
        ErrorView::ConfigLoad(text) => "Failed to load configuration: "@ + text,
        ErrorView::PodmanInfo(text) => "Failed to query Podman info: "@ + text,
        ErrorView::Runtime(text) => text,
        ErrorView::UnsupportedInput(text) => text,
        ErrorView::Io(text) => text,
        ErrorView::Yaml(text) => text,
        ErrorView::UserLookup(text) => text,
    }
}

/// A user reads the message of an error and, where the configuration or a question to Podman failed,
/// which of both it was.
pub proof fn errors_are_read_by_users(err: ErrorView)
    ensures
        err.message() == read_by_user(err),
{
}

/// A step that tried to remove a directory and failed.
pub open spec fn removal_failed<K, D>(trace: Trace<K, D>, k: int) -> bool {
    trace[k].reply is Removal && trace[k].reply->Removal_0 is Failed
}

/// The complaint of the last failed removal between two places; none where none failed.
pub open spec fn last_complaint<K, D>(
    trace: Trace<K, D>,
    from: int,
    to: int,
    complaint: Seq<char>,
) -> bool {
    ||| complaint.len() == 0 && forall|j: int|
        from <= j < to ==> !#[trigger] removal_failed(trace, j)
    ||| exists|j: int|
        {
            &&& from <= j < to
            &&& #[trigger] removal_failed(trace, j)
            &&& trace[j].reply->Removal_0 == RemovalView::Failed(complaint)
            &&& forall|i: int| j < i < to ==> !#[trigger] removal_failed(trace, i)
        }
}

/// The nanoseconds of a cleanup that began at one place, after so many pauses of a tenth of a
/// second, during which the clock stands still.
pub open spec fn cleanup_time<K, D>(trace: Trace<K, D>, at: int, pauses: nat) -> int {
    let start = trace[at].reply->Nanos_0;
    let now = trace[at + 4 * pauses].reply->Nanos_0;
    if now >= start {
        pauses as int * 100_000_000 + (now - start)
    } else {
        pauses as int * 100_000_000
    }
}

/// What a user is told of a directory that is still there after a cleanup.
pub open spec fn still_there(
    directory: Seq<char>,
    nanos: int,
    complaint: Seq<char>,
    names: Seq<Seq<char>>,
) -> Seq<char> {
    let opening = "Warning: Podman rootdirs "@ + directory + " still exist after "@ + decimal(
        (nanos / 1_000_000) as nat,
    ) + " ms of cleanup retries; "@;
    let reason = if complaint.len() == 0 {
        Seq::empty()
    } else {
        "last remove_dir_all error: "@ + complaint + "; "@
    };
    let contents = if names.len() == 0 {
        "directory is empty"@
    } else {
        "remaining entries: "@ + joined(names, ", "@)
    };
    opening + reason + contents
}

/// A cleanup from one place to another that gave up: after the last of its pauses the directory was
/// still there and five seconds had passed, as they had after none of the pauses before, and the
/// warning tells so.
pub open spec fn gave_up<K, D>(
    trace: Trace<K, D>,
    at: int,
    end: int,
    directory: Seq<char>,
    pauses: nat,
    complaint: Seq<char>,
    warning: Seq<char>,
) -> bool {
    &&& 1 <= pauses <= 50
    &&& end == at + 2 + 4 * pauses
    &&& trace[at].call is Clock
    &&& trace[end - 3].call == (Call::<K, D>::IsPresent { path: directory })
    &&& trace[end - 3].reply == Reply::<K, D>::Flag(true)
    &&& trace[end - 2].call is Clock
    &&& trace[end - 1].call == (Call::<K, D>::DirEntries { path: directory })
    &&& trace[end - 1].reply is Names
    &&& cleanup_time(trace, at, pauses) >= 5_000_000_000
    &&& forall|p: nat|
        1 <= p < pauses ==> #[trigger] cleanup_time(trace, at, p) < 5_000_000_000
    &&& last_complaint(trace, at, end, complaint)
    &&& warning == still_there(
        directory,
        cleanup_time(trace, at, pauses),
        complaint,
        trace[end - 1].reply->Names_0,
    )
}

/// What the end of a run leaves. Where the workload could not be cleaned up, nothing is touched and
/// the warning tells why; otherwise the directory is gone, or the cleanup gave up.
pub open spec fn leaves<K, D>(
    trace: Trace<K, D>,
    at: int,
    end: int,
    directory: Seq<char>,
    cleaned: Result<(), ErrorView>,
    warning: Option<Seq<char>>,
) -> bool {
    match cleaned {
        Err(err) => {
            &&& end == at
            &&& warning == Some(
                "Warning: Podman rootdirs retained because workload cleanup failed: "@
                    + read_by_user(err),
            )
        },
        Ok(()) => match warning {
            None => at < end && gone(trace, end - 1, directory),
            Some(warning) => exists|pauses: nat, complaint: Seq<char>| #[trigger]
                gave_up(trace, at, end, directory, pauses, complaint, warning),
        },
    }
}

/// The result of a run: the code with which the workload ended, nothing on the first stream, and the
/// warning, if any, on the second; or the error for which there is no code, with the warning, if any,
/// on a line below.
pub open spec fn results_in(
    result: Result<OutputView, ErrorView>,
    ran: Result<i32, ErrorView>,
    warning: Option<Seq<char>>,
) -> bool {
    match (result, ran) {
        (Ok(output), Ok(code)) => {
            &&& output.return_code == code
            &&& output.stdout.len() == 0
            &&& match warning {
                Some(text) => output.stderr == text,
                None => output.stderr.len() == 0,
            }
        },
        (Err(told), Err(err)) => match warning {
            Some(text) => told == ErrorView::Runtime(read_by_user(err) + "\n"@ + text),
            None => told == err,
        },
        _ => false,
    }
}

/// The end of a run.
pub(crate) proof fn finalize_leaves<K, D>(
    trace: Trace<K, D>,
    at: int,
    ctx: PodmanView,
    cleaned: Result<(), ErrorView>,
    directory: Seq<char>,
)
    requires
        finalize_replay(trace, at, ctx, cleaned) is Some,
        rootdirs_of(ctx) == Some(directory),
    ensures
        ({
            let (end, warning) = finalize_replay(trace, at, ctx, cleaned)->0;
            &&& leaves(trace, at, end, directory, cleaned, warning)
            &&& warning matches Some(text) ==> text.len() > 0
        }),
{
    reveal_strlit("Warning: Podman rootdirs ");
    reveal_strlit("Warning: Podman rootdirs retained because workload cleanup failed: ");
    match cleaned {
        Err(err) => {
            errors_are_read_by_users(err);
        },
        Ok(()) => {
            removal_leaves(trace, at, directory, 0, Seq::empty());
        },
    }
}

/// A cleanup that has made some pauses.
proof fn removal_leaves<K, D>(
    trace: Trace<K, D>,
    at: int,
    base: Seq<char>,
    pauses: nat,
    complaint: Seq<char>,
)
    requires
        trace[at].call is Clock,
        trace[at].reply is Nanos,
        pauses < 50,
        forall|p: nat| 1 <= p <= pauses ==> #[trigger] cleanup_time(trace, at, p) < 5_000_000_000,
        last_complaint(trace, at, at + 1 + 4 * pauses, complaint),
        removal_replay(
            trace,
            at + 1 + 4 * pauses,
            base,
            trace[at].reply->Nanos_0,
            complaint,
            pauses * pause_nanos(),
        ) is Some,
    ensures
        ({
            let (end, warning) = removal_replay(
                trace,
                at + 1 + 4 * pauses,
                base,
                trace[at].reply->Nanos_0,
                complaint,
                pauses * pause_nanos(),
            )->0;
            &&& leaves(trace, at, end, base, Ok(()), warning)
            &&& warning matches Some(text) ==> text.len() > 0
        }),
    decreases 50 - pauses,
{
    let start = trace[at].reply->Nanos_0;
    let here = at + 1 + 4 * pauses;
    let error = match trace[here].reply->Removal_0 {
        RemovalView::Failed(message) => message,
        _ => complaint,
    };
    let paused = pauses * pause_nanos();
    let more = (pauses + 1) as nat;
    assert(paused + pause_nanos() == more * pause_nanos()) by (nonlinear_arith)
        requires
            paused == pauses * pause_nanos(),
            more == pauses + 1,
    ;
    assert(more * pause_nanos() == more * 100_000_000);
    let now = trace[here + 3].reply->Nanos_0;
    let time = cleanup_time(trace, at, more);
    assert(at + 4 * more == here + 3);
    if trace[here].reply->Removal_0 is NotFound || trace[here + 2].reply == Reply::<K, D>::Flag(
        false,
    ) {
    } else {
        assert(time == elapsed_since(start, now, more * pause_nanos()));
        complaint_kept(trace, at, here, complaint, error);
        if time < 5_000_000_000 {
            assert forall|p: nat| 1 <= p <= more implies #[trigger] cleanup_time(trace, at, p)
                < 5_000_000_000 by {
                if p < more {
                    assert(p <= pauses);
                }
            }
            removal_leaves(trace, at, base, more, error);
        } else {
            let (end, warning) = removal_replay(trace, here, base, start, complaint, paused)->0;
            assert(!removal_failed(trace, here + 4));
            assert(last_complaint(trace, at, end, error)) by {
                complaint_longer(trace, at, here + 4, error);
            }
            warnings_agree(base, time, error, trace[end - 1].reply->Names_0);
            assert(gave_up(trace, at, end, base, more, error, warning->0));
        }
    }
}

/// One more attempt: the last complaint is its own, or the one before where it has none.
proof fn complaint_kept<K, D>(
    trace: Trace<K, D>,
    at: int,
    here: int,
    complaint: Seq<char>,
    error: Seq<char>,
)
    requires
        at < here,
        last_complaint(trace, at, here, complaint),
        trace[here].reply is Removal,
        error == match trace[here].reply->Removal_0 {
            RemovalView::Failed(message) => message,
            _ => complaint,
        },
        !removal_failed(trace, here + 1),
        !removal_failed(trace, here + 2),
        !removal_failed(trace, here + 3),
    ensures
        last_complaint(trace, at, here + 4, error),
{
    assert forall|i: int| here < i < here + 4 implies !#[trigger] removal_failed(trace, i) by {
        assert(i == here + 1 || i == here + 2 || i == here + 3);
    }
    if removal_failed(trace, here) {
        assert(trace[here].reply->Removal_0 == RemovalView::Failed(error));
    } else if exists|j: int| at <= j < here && #[trigger] removal_failed(trace, j) {
        let j = choose|j: int|
            {
                &&& at <= j < here
                &&& #[trigger] removal_failed(trace, j)
                &&& trace[j].reply->Removal_0 == RemovalView::Failed(complaint)
                &&& forall|i: int| j < i < here ==> !#[trigger] removal_failed(trace, i)
            };
        assert(removal_failed(trace, j));
    }
}

/// One more step that removes nothing.
proof fn complaint_longer<K, D>(trace: Trace<K, D>, at: int, to: int, error: Seq<char>)
    requires
        last_complaint(trace, at, to, error),
        !removal_failed(trace, to),
    ensures
        last_complaint(trace, at, to + 1, error),
{
    if exists|j: int| at <= j < to && #[trigger] removal_failed(trace, j) {
        let j = choose|j: int|
            {
                &&& at <= j < to
                &&& #[trigger] removal_failed(trace, j)
                &&& trace[j].reply->Removal_0 == RemovalView::Failed(error)
                &&& forall|i: int| j < i < to ==> !#[trigger] removal_failed(trace, i)
            };
        assert(removal_failed(trace, j));
    }
}

/// The warning of a cleanup that gave up.
proof fn warnings_agree(
    base: Seq<char>,
    nanos: int,
    complaint: Seq<char>,
    names: Seq<Seq<char>>,
)
    requires
        nanos >= 0,
    ensures
        timeout_warning(base, nanos as nat, complaint, names) == still_there(
            base,
            nanos,
            complaint,
            names,
        ),
        still_there(base, nanos, complaint, names).len() > 0,
{
    reveal_strlit("Warning: Podman rootdirs ");
    assert(timeout_warning(base, nanos as nat, complaint, names) =~= still_there(
        base,
        nanos,
        complaint,
        names,
    ));
}

/// The result of a container.
pub(crate) proof fn container_results(
    output: OutputView,
    ran: Result<i32, ErrorView>,
    warning: Option<Seq<char>>,
)
    requires
        output.stdout.len() == 0,
        output.stderr.len() == 0,
    ensures
        results_in(run_result(output, ran, warning), ran, warning),
{
    if let Err(err) = ran {
        errors_are_read_by_users(err);
    }
}

/// The result of a pod: as that of a container, but for one that ended and could not be taken down.
pub(crate) proof fn pod_results(
    output: OutputView,
    ran: Result<i32, ErrorView>,
    down: Result<(), ErrorView>,
    warning: Option<Seq<char>>,
)
    requires
        output.stdout.len() == 0,
        output.stderr.len() == 0,
    ensures
        ran is Err || down is Ok ==> results_in(
            pod_result(output, ran, down, warning),
            ran,
            warning,
        ),
        ran is Ok ==> (down matches Err(err) ==> results_in(
            pod_result(output, ran, down, warning),
            Err(err),
            warning,
        )),
{
    container_results(output, ran, warning);
    if let Err(err) = down {
        errors_are_read_by_users(err);
    }
}

/// A cleanup goes on step by step. A directory that was not found to be removed is gone. After any other
/// attempt there is a pause, and then a look; a directory that is not seen then is gone, and after one
/// that is, the clock is looked at, and either it is removed again, or what is left in it is listed,
/// which ends the cleanup.
pub open spec fn cleanup_goes_on<K, D>(trace: Trace<K, D>, k: int, end: int) -> bool {
    match trace[k].call {
        Call::RemoveDirAll { path } => {
            &&& trace[k].reply is Removal
            &&& trace[k].reply->Removal_0 is NotFound ==> k == end - 1
            &&& !(trace[k].reply->Removal_0 is NotFound) ==> {
                &&& k + 2 < end
                &&& trace[k + 1].call == (Call::<K, D>::Pause { millis: 100 })
                &&& trace[k + 2].call == (Call::<K, D>::IsPresent { path })
            }
        },
        Call::IsPresent { path } => {
            &&& trace[k].reply is Flag
            &&& !trace[k].reply->Flag_0 ==> k == end - 1
            &&& trace[k].reply->Flag_0 ==> {
                &&& k + 2 < end
                &&& trace[k + 1].call is Clock
                &&& trace[k + 2].call == (Call::<K, D>::RemoveDirAll { path }) || trace[k + 2].call
                    == (Call::<K, D>::DirEntries { path })
            }
        },
        Call::DirEntries { .. } => k == end - 1,
        _ => true,
    }
}

/// The steps of a cleanup.
proof fn removal_goes_on<K, D>(
    trace: Trace<K, D>,
    at: int,
    base: Seq<char>,
    start: u64,
    complaint: Seq<char>,
    paused: nat,
)
    requires
        removal_replay(trace, at, base, start, complaint, paused) is Some,
    ensures
        ({
            let end = (removal_replay(trace, at, base, start, complaint, paused)->0).0;
            &&& at < end
            &&& trace[at].call == (Call::<K, D>::RemoveDirAll { path: base })
            &&& forall|k: int|
                at <= k < end ==> #[trigger] cleanup_goes_on(trace, k, end)
        }),
    decreases CLEANUP_TIMEOUT - paused,
{
    let error = match trace[at].reply->Removal_0 {
        RemovalView::Failed(message) => message,
        _ => complaint,
    };
    let waited = paused + pause_nanos();
    if elapsed_since(start, trace[at + 3].reply->Nanos_0, waited) < CLEANUP_TIMEOUT {
        if removal_replay(trace, at + 4, base, start, error, waited) is Some {
            removal_goes_on(trace, at + 4, base, start, error, waited);
        }
    }
}

/// The steps of the end of a run.
pub(crate) proof fn finalize_goes_on<K, D>(
    trace: Trace<K, D>,
    at: int,
    ctx: PodmanView,
    cleaned: Result<(), ErrorView>,
)
    requires
        finalize_replay(trace, at, ctx, cleaned) is Some,
    ensures
        ({
            let end = (finalize_replay(trace, at, ctx, cleaned)->0).0;
            forall|k: int| at <= k < end ==> #[trigger] cleanup_goes_on(trace, k, end)
        }),
{
    if cleaned is Ok {
        if let Some(base) = rootdirs_of(ctx) {
            removal_goes_on(trace, at + 1, base, trace[at].reply->Nanos_0, Seq::empty(), 0);
        }
    }
}

} // verus!
