//! Removing what Podman keeps of a run once the run is over.

use vstd::prelude::*;
use vstd::string::*;

use crate::context::{rootdirs_base, rootdirs_of, text_option, PodmanCtx, PodmanView};
use crate::deps::{ContainerRuntime, HostOps, RasterOps, Removal, RemovalView, UserContext};
use crate::error::{plain_result, AppError, ErrorView};
use crate::session::Session;
use crate::text::{decimal, decimal_text, join, joined, texts};
use crate::trace::{answer, extends, Call, Reply, Trace};

verus! {

/// The milliseconds between an attempt to remove the directories and the look that follows it.
pub const CLEANUP_RETRY_INTERVAL: u64 = 100;

/// The nanoseconds after which no further attempt is made.
pub const CLEANUP_TIMEOUT: u128 = 5_000_000_000;

/// What is said of the names that are left in a directory.
pub open spec fn described(names: Seq<Seq<char>>) -> Seq<char> {
    if names.len() == 0 {
        "directory is empty"@
    } else {
        "remaining entries: "@ + joined(names, ", "@)
    }
}

/// What is said of the names that are left in a directory.
pub fn describe_dir_entries(names: &Vec<String>) -> (text: String)
    ensures
        text@ == described(texts(names@)),
{
    if names.len() == 0 {
        "directory is empty".to_string()
    } else {
        "remaining entries: ".to_string().concat(join(names, ", ").as_str())
    }
}

/// The warning that a directory is still there, with the last error of removing it, if there was
/// one, and the names that are left in it.
pub open spec fn timeout_warning(
    base: Seq<char>,
    elapsed: nat,
    last_error: Seq<char>,
    names: Seq<Seq<char>>,
) -> Seq<char> {
    let opening = "Warning: Podman rootdirs "@ + base + " still exist after "@ + decimal(
        elapsed / 1_000_000,
    ) + " ms of cleanup retries; "@;
    if last_error.len() == 0 {
        opening + described(names)
    } else {
        opening + "last remove_dir_all error: "@ + last_error + "; "@ + described(names)
    }
}

/// The warning that a directory is still there.
pub fn cleanup_timeout_warning(
    base: &str,
    elapsed: u128,
    last_error: &str,
    names: &Vec<String>,
) -> (warning: String)
    ensures
        warning@ == timeout_warning(base@, elapsed as nat, last_error@, texts(names@)),
{
    let opening = "Warning: Podman rootdirs ".to_string().concat(base).concat(
        " still exist after ",
    ).concat(decimal_text(elapsed / 1_000_000).as_str()).concat(" ms of cleanup retries; ");
    let details = describe_dir_entries(names);
    if last_error.is_empty() {
        opening.concat(details.as_str())
    } else {
        opening.concat("last remove_dir_all error: ").concat(last_error).concat("; ").concat(
            details.as_str(),
        )
    }
}

/// The nanoseconds of one pause.
pub open spec fn pause_nanos() -> nat {
    CLEANUP_RETRY_INTERVAL as nat * 1_000_000
}

/// The nanoseconds since the clock showed `start`: those of the pauses, during which the clock stands
/// still, and those that it counted since.
pub open spec fn elapsed_since(start: u64, now: u64, paused: nat) -> nat {
    if now >= start {
        paused + (now - start) as nat
    } else {
        paused
    }
}

/// What a trace tells of removing a directory until it stays away or the time is over: where the
/// part ends, and the warning that is left, if any.
pub open spec fn removal_replay<K, D>(
    trace: Trace<K, D>,
    at: int,
    base: Seq<char>,
    start: u64,
    last_error: Seq<char>,
    paused: nat,
) -> Option<(int, Option<Seq<char>>)>
    decreases CLEANUP_TIMEOUT - paused,
{
    match answer(trace, at, Call::RemoveDirAll { path: base }) {
        Some(Reply::Removal(RemovalView::NotFound)) => Some((at + 1, None)),
        Some(Reply::Removal(removal)) => {
            let error = match removal {
                RemovalView::Failed(message) => message,
                _ => last_error,
            };
            if answer(trace, at + 1, Call::Pause { millis: CLEANUP_RETRY_INTERVAL }) != Some(
                Reply::<K, D>::Nothing,
            ) {
                None
            } else {
                match answer(trace, at + 2, Call::IsPresent { path: base }) {
                    Some(Reply::Flag(false)) => Some((at + 3, None)),
                    Some(Reply::Flag(true)) => match answer(trace, at + 3, Call::Clock) {
                        Some(Reply::Nanos(now)) => {
                            let waited = paused + pause_nanos();
                            let elapsed = elapsed_since(start, now, waited);
                            if elapsed < CLEANUP_TIMEOUT {
                                removal_replay(trace, at + 4, base, start, error, waited)
                            } else {
                                match answer(trace, at + 4, Call::DirEntries { path: base }) {
                                    Some(Reply::Names(names)) => Some(
                                        (
                                            at + 5,
                                            Some(timeout_warning(base, elapsed, error, names)),
                                        ),
                                    ),
                                    _ => None,
                                }
                            }
                        },
                        _ => None,
                    },
                    _ => None,
                }
            }
        },
        _ => None,
    }
}

/// What a trace tells of removing the directories of a run. A context without any leaves nothing to
/// do.
pub open spec fn rootdirs_replay<K, D>(trace: Trace<K, D>, at: int, ctx: PodmanView) -> Option<
    (int, Option<Seq<char>>),
> {
    match rootdirs_of(ctx) {
        None => Some((at, None)),
        Some(base) => match answer(trace, at, Call::Clock) {
            Some(Reply::Nanos(start)) => removal_replay(
                trace,
                at + 1,
                base,
                start,
                Seq::empty(),
                0,
            ),
            _ => None,
        },
    }
}

/// The warning that the directories of a run were left alone.
pub open spec fn retained_warning(err: ErrorView) -> Seq<char> {
    "Warning: Podman rootdirs retained because workload cleanup failed: "@ + err.message()
}

/// What a trace tells of the end of a run: the directories are removed if the workload itself was
/// cleaned up, and left alone otherwise.
pub open spec fn finalize_replay<K, D>(
    trace: Trace<K, D>,
    at: int,
    ctx: PodmanView,
    cleaned: Result<(), ErrorView>,
) -> Option<(int, Option<Seq<char>>)> {
    match cleaned {
        Ok(()) => rootdirs_replay(trace, at, ctx),
        Err(err) => Some((at, Some(retained_warning(err)))),
    }
}

impl<'a, R, C, U, H> Session<'a, R, C, U, H> where
    R: RasterOps,
    C: ContainerRuntime<R::EdfDocument>,
    U: UserContext,
    H: HostOps<R::ConfigDocument>,
 {
    /// Removes the directories of a run. They can come back after they were removed, when a cleanup
    /// of Podman's own is still going on: so they are removed until they stay away, or until the
    /// time is over.
    fn cleanup_podman_rootdirs(&mut self, run_ctx: &PodmanCtx) -> (warning: Option<String>)
        requires
            old(self).wf(),
        ensures
            final(self).continues(*old(self)),
            rootdirs_replay(final(self).trace(), old(self).place(), run_ctx@) == Some(
                (final(self).place(), text_option(warning)),
            ),
    {
        let base = match rootdirs_base(run_ctx) {
            Some(base) => base,
            None => {
                return None;
            },
        };
        let start: u64 = self.clock();
        let mut last_error = String::new();
        let mut paused: u128 = 0;
        let ghost first = self.place();
        proof {
            assert(last_error@ =~= Seq::empty());
        }
        loop
            invariant
                self.continues(*old(self)),
                self.trace().len() > old(self).place(),
                self.trace()[old(self).place()].call == Call::<
                    R::ConfigDocument,
                    R::EdfDocument,
                >::Clock,
                self.trace()[old(self).place()].reply == Reply::<
                    R::ConfigDocument,
                    R::EdfDocument,
                >::Nanos(start),
                rootdirs_of(run_ctx@) == Some(base@),
                paused < CLEANUP_TIMEOUT,
                first == old(self).place() + 1,
                forall|longer: Trace<R::ConfigDocument, R::EdfDocument>| #[trigger]
                    extends(longer, self.trace()) ==> removal_replay(
                        longer,
                        first,
                        base@,
                        start,
                        Seq::empty(),
                        0,
                    ) == removal_replay(
                        longer,
                        self.place(),
                        base@,
                        start,
                        last_error@,
                        paused as nat,
                    ),
            decreases CLEANUP_TIMEOUT - paused,
        {
            let ghost earlier = self.trace();
            match self.remove_dir_all(base.as_str()) {
                Removal::NotFound => {
                    proof {
                        assert(extends(self.trace(), earlier));
                    }
                    return None;
                },
                Removal::Failed(message) => {
                    last_error = message;
                },
                Removal::Removed => {},
            }
            self.pause(CLEANUP_RETRY_INTERVAL);
            if !self.is_present(base.as_str()) {
                proof {
                    assert(extends(self.trace(), earlier));
                }
                return None;
            }
            let now: u64 = self.clock();
            paused = paused + CLEANUP_RETRY_INTERVAL as u128 * 1_000_000;
            let elapsed: u128 = if now >= start {
                paused + (now - start) as u128
            } else {
                paused
            };
            if elapsed >= CLEANUP_TIMEOUT {
                let names = self.dir_entries(base.as_str());
                proof {
                    assert(extends(self.trace(), earlier));
                }
                return Some(
                    cleanup_timeout_warning(base.as_str(), elapsed, last_error.as_str(), &names),
                );
            }
            proof {
                assert forall|longer: Trace<R::ConfigDocument, R::EdfDocument>| #[trigger]
                    extends(longer, self.trace()) implies removal_replay(
                    longer,
                    first,
                    base@,
                    start,
                    Seq::empty(),
                    0,
                ) == removal_replay(
                    longer,
                    self.place(),
                    base@,
                    start,
                    last_error@,
                    paused as nat,
                ) by {
                    assert(extends(longer, earlier));
                }
            }
        }
    }

    /// Ends a run: removes its directories if the workload itself was cleaned up.
    pub(crate) fn finalize_podman_cleanup(
        &mut self,
        run_ctx: &PodmanCtx,
        cleaned: &Result<(), AppError>,
    ) -> (warning: Option<String>)
        requires
            old(self).wf(),
        ensures
            final(self).continues(*old(self)),
            finalize_replay(
                final(self).trace(),
                old(self).place(),
                run_ctx@,
                plain_result(*cleaned),
            ) == Some((final(self).place(), text_option(warning))),
    {
        match cleaned {
            Ok(()) => self.cleanup_podman_rootdirs(run_ctx),
            Err(err) => Some(
                "Warning: Podman rootdirs retained because workload cleanup failed: ".to_string().concat(
                    err.message().as_str(),
                ),
            ),
        }
    }
}

} // verus!
