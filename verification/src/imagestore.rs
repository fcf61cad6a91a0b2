//! Preparing the Parallax imagestore.

use vstd::prelude::*;
use vstd::string::*;

use crate::config::{Config, ConfigView};
use crate::deps::{ContainerRuntime, HostOps, RasterOps, UserContext};
use crate::error::{plain_result, AppError, ErrorView};
use crate::podman::{hook_lines, hook_result, log_hook_ec};
use crate::session::Session;
use crate::text::texts;
use crate::trace::{answer, extends, lines_told, Call, Reply, Told, Trace};

verus! {

/// What a trace tells of making sure that a directory exists.
pub open spec fn store_replay<K, D>(trace: Trace<K, D>, at: int, store: Seq<char>) -> Told<()> {
    match answer(trace, at, Call::PathExists { path: store }) {
        Some(Reply::Exists(Ok(true))) => Some((at + 1, Ok(()))),
        Some(Reply::Exists(Ok(false))) => match answer(
            trace,
            at + 1,
            Call::CreateDirAll { path: store },
        ) {
            Some(Reply::Accepted(Ok(()))) => Some((at + 2, Ok(()))),
            Some(Reply::Accepted(Err(message))) => Some(
                (
                    at + 2,
                    Err(
                        ErrorView::Io(
                            "Failed to create Parallax imagestore directory: "@ + message,
                        ),
                    ),
                ),
            ),
            _ => None,
        },
        Some(Reply::Exists(Err(message))) => Some(
            (
                at + 1,
                Err(
                    ErrorView::Io(
                        "Failed to check for existence of Parallax imagestore directory: "@
                            + message,
                    ),
                ),
            ),
        ),
        _ => None,
    }
}

/// What a trace tells of preparing the imagestore: the hook that may create it is run, what it
/// wrote is shown, and the directory is created where it is still missing.
pub open spec fn setup_replay<K, D>(trace: Trace<K, D>, at: int, config: ConfigView<K>) -> Told<
    (),
> {
    let store = config.parallax_imagestore;
    match answer(
        trace,
        at,
        Call::HookRun { config, hook: "parallax_imagestore_create"@, arguments: seq![store] },
    ) {
        Some(Reply::Hook(Ok(None))) => store_replay(trace, at + 1, store),
        Some(Reply::Hook(Ok(Some(output)))) => {
            let shown = at + 1 + hook_lines(output).len();
            if !lines_told(trace, at + 1, hook_lines(output)) {
                None
            } else {
                match hook_result(output, "parallax_imagestore_create hook"@) {
                    Ok(()) => store_replay(trace, shown, store),
                    Err(err) => Some((shown, Err(err))),
                }
            }
        },
        Some(Reply::Hook(Err(message))) => Some(
            (
                at + 1,
                Err(
                    ErrorView::Io("Failed to run parallax_imagestore_create hook: "@ + message),
                ),
            ),
        ),
        _ => None,
    }
}

/// What a trace tells of preparing the imagestore, a longer one tells too.
pub(crate) proof fn setup_keeps<K, D>(
    longer: Trace<K, D>,
    trace: Trace<K, D>,
    at: int,
    config: ConfigView<K>,
)
    requires
        extends(longer, trace),
        setup_replay(trace, at, config) is Some,
    ensures
        setup_replay(longer, at, config) == setup_replay(trace, at, config),
{
    if let Some(Reply::Hook(Ok(Some(output)))) = answer(
        trace,
        at,
        Call::HookRun {
            config,
            hook: "parallax_imagestore_create"@,
            arguments: seq![config.parallax_imagestore],
        },
    ) {
        assert forall|k: int| 0 <= k < hook_lines(output).len() implies answer(
            longer,
            at + 1 + k,
            Call::Tell { line: #[trigger] hook_lines(output)[k] },
        ) == Some(Reply::<K, D>::Nothing) by {
            assert(answer(trace, at + 1 + k, Call::Tell { line: hook_lines(output)[k] }) == Some(
                Reply::<K, D>::Nothing,
            ));
        }
    }
}

impl<'a, R, C, U, H> Session<'a, R, C, U, H> where
    R: RasterOps,
    C: ContainerRuntime<R::EdfDocument>,
    U: UserContext,
    H: HostOps<R::ConfigDocument>,
 {
    /// Tells several lines, one after the other.
    fn tell_lines(&mut self, lines: &Vec<String>)
        requires
            old(self).wf(),
        ensures
            final(self).continues(*old(self)),
            final(self).place() == old(self).place() + lines@.len(),
            lines_told(final(self).trace(), old(self).place(), texts(lines@)),
    {
        let ghost start = self.trace();
        let mut k: usize = 0;
        while k < lines.len()
            invariant
                k <= lines@.len(),
                self.continues(*old(self)),
                start == old(self).trace(),
                self.trace().len() == start.len() + k,
                lines_told(self.trace(), start.len() as int, texts(lines@).take(k as int)),
            decreases lines@.len() - k,
        {
            let ghost before = self.trace();
            self.tell(lines[k].as_str());
            proof {
                let told = texts(lines@).take(k + 1);
                assert forall|j: int| 0 <= j < told.len() implies answer(
                    self.trace(),
                    start.len() + j,
                    Call::Tell { line: #[trigger] told[j] },
                ) == Some(Reply::<R::ConfigDocument, R::EdfDocument>::Nothing) by {
                    if j < k {
                        assert(texts(lines@).take(k as int)[j] == told[j]);
                        assert(self.trace()[start.len() + j] == before[start.len() + j]);
                    }
                }
            }
            k = k + 1;
        }
        proof {
            assert(texts(lines@).take(k as int) =~= texts(lines@));
        }
    }

    /// Makes sure that the Parallax imagestore exists.
    pub(crate) fn setup_imagestore(&mut self, config: &Config<R::ConfigDocument>) -> (result: Result<
        (),
        AppError,
    >)
        requires
            old(self).wf(),
        ensures
            final(self).continues(*old(self)),
            setup_replay(final(self).trace(), old(self).place(), config@) == Some(
                (final(self).place(), plain_result(result)),
            ),
    {
        let store = config.parallax_imagestore.as_str();
        let mut arguments: Vec<String> = Vec::new();
        arguments.push(store.to_string());
        proof {
            assert(texts(arguments@) =~= seq![store@]);
        }
        match self.hook_run(config, "parallax_imagestore_create", arguments.as_slice()) {
            Err(message) => {
                return Err(
                    AppError::Io(
                        "Failed to run parallax_imagestore_create hook: ".to_string().concat(
                            message.as_str(),
                        ),
                    ),
                );
            },
            Ok(None) => {},
            Ok(Some(output)) => {
                let (lines, result) = log_hook_ec(&output, "parallax_imagestore_create hook");
                self.tell_lines(&lines);
                if let Err(err) = result {
                    return Err(err);
                }
            },
        }
        match self.path_exists(store) {
            Err(message) => {
                return Err(
                    AppError::Io(
                        "Failed to check for existence of Parallax imagestore directory: ".to_string().concat(
                            message.as_str(),
                        ),
                    ),
                );
            },
            Ok(present) => {
                if !present {
                    if let Err(message) = self.create_dir_all(store) {
                        return Err(
                            AppError::Io(
                                "Failed to create Parallax imagestore directory: ".to_string().concat(
                                    message.as_str(),
                                ),
                            ),
                        );
                    }
                }
            },
        }
        Ok(())
    }
}

} // verus!
