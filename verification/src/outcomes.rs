//! What an execution results in, by the answers that it got.

use vstd::prelude::*;

use crate::command::{CommandView, OptionsView};
use crate::config::{overridden, ConfigView};
use crate::error::ErrorView;
use crate::execute::command_replay;
use crate::images::{migrate_replay, pull_replay};
use crate::imagestore::setup_replay;
use crate::laws::tells;
use crate::output::OutputView;
use crate::podman::{hook_lines, hook_result, HookView};
use crate::run::{prepare_replay, provide_all_replay, provide_replay};
use crate::shapes::prepare_steps;
use crate::steps::{
    migrate_steps, provide_all_steps, provide_steps, pull_steps, setup_steps, told_steps,
};
use crate::text::signed_decimal;
use crate::trace::{answer, lines_told, Call, Reply, Trace};

verus! {

/// The error that a step means, if it means one: the error of the answer itself or, where the answer
/// is a plain message or a plain no, an error that tells what was tried.
pub open spec fn failure_at<K, D>(trace: Trace<K, D>, k: int) -> Option<ErrorView> {
    match (trace[k].call, trace[k].reply) {
        (Call::LoadConfig, Reply::Config(Err(err))) => Some(err),
        (Call::CurrentUser, Reply::User(Err(err))) => Some(err),
        (Call::DefaultGraphroot { .. }, Reply::Graphroot(Err(err))) => Some(err),
        (Call::Images { .. }, Reply::Done(Err(err))) => Some(err),
        (Call::Pull { .. }, Reply::Done(Err(err))) => Some(err),
        (Call::ParallaxMigrate { .. }, Reply::Done(Err(err))) => Some(err),
        (Call::ParallaxRmi { .. }, Reply::Done(Err(err))) => Some(err),
        (Call::ImageExists { .. }, Reply::Found(Err(err))) => Some(err),
        (Call::ImageExists { image, .. }, Reply::Found(Ok(false))) => Some(
            ErrorView::Runtime("Image "@ + image + " is still missing after pull"@),
        ),
        (Call::ParallaxExist { .. }, Reply::Found(Err(err))) => Some(err),
        (Call::ParallaxExist { ctx, image, .. }, Reply::Found(Ok(false))) => if ctx.graphroot is Some {
            Some(ErrorView::Runtime("Image "@ + image + " is still missing after migration"@))
        } else {
            None
        },
        (Call::HookRun { .. }, Reply::Hook(Err(message))) => Some(
            ErrorView::Io("Failed to run parallax_imagestore_create hook: "@ + message),
        ),
        (Call::PathExists { .. }, Reply::Exists(Err(message))) => Some(
            ErrorView::Io(
                "Failed to check for existence of Parallax imagestore directory: "@ + message,
            ),
        ),
        (Call::CreateDirAll { .. }, Reply::Accepted(Err(message))) => Some(
            ErrorView::Io("Failed to create Parallax imagestore directory: "@ + message),
        ),
        (Call::ReadToString { path }, Reply::Contents(Err(message))) => Some(
            ErrorView::Io("failed to read "@ + path + ": "@ + message),
        ),
        _ => None,
    }
}

/// The error of a hook that was run and did not end with code 0.
pub open spec fn hook_failure(output: HookView) -> Option<ErrorView> {
    match output.code {
        None => Some(ErrorView::Io("parallax_imagestore_create hook exited by signal"@)),
        Some(code) => if code == 0 {
            None
        } else {
            Some(
                ErrorView::Io(
                    "parallax_imagestore_create hook exit code: "@ + signed_decimal(code as int),
                ),
            )
        },
    }
}

/// From one place on, lines are told, one in each step.
pub open spec fn lines_follow<K, D>(trace: Trace<K, D>, at: int, lines: Seq<Seq<char>>) -> bool {
    forall|i: int| 0 <= i < lines.len() ==> line_at(trace, at + i, #[trigger] lines[i])
}

/// A line is told in the step at one place.
pub open spec fn line_at<K, D>(trace: Trace<K, D>, k: int, line: Seq<char>) -> bool {
    &&& 0 <= k < trace.len()
    &&& trace[k].call == (Call::<K, D>::Tell { line })
}

/// What a hook wrote is told right after it was run. Where it did not end with code 0, nothing else
/// follows.
pub open spec fn hook_heard<K, D>(
    trace: Trace<K, D>,
    k: int,
    end: int,
    error: Option<ErrorView>,
) -> bool {
    match (trace[k].call, trace[k].reply) {
        (Call::HookRun { .. }, Reply::Hook(Ok(Some(output)))) => {
            &&& lines_follow(trace, k + 1, hook_lines(output))
            &&& hook_failure(output) is Some ==> {
                &&& error == hook_failure(output)
                &&& end == k + 1 + hook_lines(output).len()
            }
        },
        _ => true,
    }
}

/// A hook was run and did not end with code 0, and what it wrote is all that follows.
pub open spec fn hook_failed<K, D>(trace: Trace<K, D>, k: int, end: int, err: ErrorView) -> bool {
    match (trace[k].call, trace[k].reply) {
        (Call::HookRun { .. }, Reply::Hook(Ok(Some(output)))) => {
            &&& hook_failure(output) == Some(err)
            &&& end == k + 1 + hook_lines(output).len()
        },
        _ => false,
    }
}

/// From one place to another, a step that means an error is the last one, and its error is what the
/// part results in; and the part results in no error but that of its last step, or of a hook.
pub open spec fn fails_at_the_end<K, D>(
    trace: Trace<K, D>,
    at: int,
    end: int,
    error: Option<ErrorView>,
) -> bool {
    &&& forall|k: int|
        #![trigger trace[k]]
        at <= k < end ==> {
            &&& failure_at(trace, k) is Some ==> k == end - 1 && error == failure_at(trace, k)
            &&& hook_heard(trace, k, end, error)
        }
    &&& error is Some ==> at < end && (failure_at(trace, end - 1) == error || exists|k: int|
        at <= k < end && #[trigger] hook_failed(trace, k, end, error->0))
}

/// The error of a result.
pub open spec fn error_of<T>(result: Result<T, ErrorView>) -> Option<ErrorView> {
    match result {
        Ok(_) => None,
        Err(err) => Some(err),
    }
}

/// Preparing the imagestore.
pub(crate) proof fn setup_fails<K, D>(trace: Trace<K, D>, at: int, config: ConfigView<K>)
    requires
        setup_replay(trace, at, config) is Some,
    ensures
        ({
            let (end, result) = setup_replay(trace, at, config)->0;
            fails_at_the_end(trace, at, end, error_of(result))
        }),
{
    let (end, result) = setup_replay(trace, at, config)->0;
    let error = error_of(result);
    assert forall|k: int| #![trigger trace[k]] at <= k < end implies {
        &&& failure_at(trace, k) is Some ==> k == end - 1 && error == failure_at(trace, k)
        &&& hook_heard(trace, k, end, error)
    } by {
        setup_fails_at(trace, at, config, k);
    }
    setup_error(trace, at, config);
    if error is Some && failure_at(trace, end - 1) != error {
        assert(at <= at < end && hook_failed(trace, at, end, error->0));
    }
    assert(fails_at_the_end(trace, at, end, error));
}

/// The error of preparing the imagestore.
proof fn setup_error<K, D>(trace: Trace<K, D>, at: int, config: ConfigView<K>)
    requires
        setup_replay(trace, at, config) is Some,
    ensures
        ({
            let (end, result) = setup_replay(trace, at, config)->0;
            result is Err ==> at < end && (failure_at(trace, end - 1) == error_of(result)
                || hook_failed(trace, at, end, result->Err_0))
        }),
{
    if let Reply::Hook(Ok(Some(output))) = trace[at].reply {
        hook_results_agree(output);
    }
}

/// One step of preparing the imagestore.
proof fn setup_fails_at<K, D>(trace: Trace<K, D>, at: int, config: ConfigView<K>, k: int)
    requires
        setup_replay(trace, at, config) is Some,
        at <= k < (setup_replay(trace, at, config)->0).0,
    ensures
        ({
            let (end, result) = setup_replay(trace, at, config)->0;
            let error = error_of(result);
            &&& failure_at(trace, k) is Some ==> k == end - 1 && error == failure_at(trace, k)
            &&& hook_heard(trace, k, end, error)
        }),
{
    if let Reply::Hook(Ok(Some(output))) = trace[at].reply {
        hook_results_agree(output);
        if at < k < at + 1 + hook_lines(output).len() {
            told_steps(trace, at + 1, hook_lines(output), k);
        }
        told_lines_follow(trace, at + 1, hook_lines(output));
    }
}

/// Lines that were told follow on each other.
proof fn told_lines_follow<K, D>(trace: Trace<K, D>, at: int, lines: Seq<Seq<char>>)
    requires
        lines_told(trace, at, lines),
    ensures
        lines_follow(trace, at, lines),
{
    assert forall|i: int| 0 <= i < lines.len() implies line_at(
        trace,
        at + i,
        #[trigger] lines[i],
    ) by {
        let line = lines[i];
        assert(answer(trace, at + i, Call::Tell { line }) == Some(Reply::<K, D>::Nothing));
    }
}

/// The error of the hook.
proof fn hook_results_agree(output: HookView)
    ensures
        error_of(hook_result(output, "parallax_imagestore_create hook"@)) == hook_failure(output),
{
    reveal_strlit("parallax_imagestore_create hook");
    reveal_strlit(" exited by signal");
    reveal_strlit(" exit code: ");
    reveal_strlit("parallax_imagestore_create hook exited by signal");
    reveal_strlit("parallax_imagestore_create hook exit code: ");
    assert("parallax_imagestore_create hook"@ + " exited by signal"@
        =~= "parallax_imagestore_create hook exited by signal"@);
    assert("parallax_imagestore_create hook"@ + " exit code: "@
        =~= "parallax_imagestore_create hook exit code: "@);
}

/// Migrating an image.
pub(crate) proof fn migrate_fails<K, D>(
    trace: Trace<K, D>,
    at: int,
    image: Seq<char>,
    config: ConfigView<K>,
    options: OptionsView,
)
    requires
        migrate_replay(trace, at, image, config, options) is Some,
    ensures
        ({
            let (end, result) = migrate_replay(trace, at, image, config, options)->0;
            fails_at_the_end(trace, at, end, error_of(result))
        }),
{
}

/// Pulling an image.
pub(crate) proof fn pull_fails<K, D>(
    trace: Trace<K, D>,
    at: int,
    image: Seq<char>,
    config: ConfigView<K>,
    options: OptionsView,
)
    requires
        pull_replay(trace, at, image, config, options) is Some,
    ensures
        ({
            let (end, result) = pull_replay(trace, at, image, config, options)->0;
            fails_at_the_end(trace, at, end, error_of(result))
        }),
{
    if migrate_replay(trace, at + 3, image, config, options) is Some {
        migrate_fails(trace, at + 3, image, config, options);
    }
}

/// Providing an image.
pub(crate) proof fn provide_fails<K, D>(
    trace: Trace<K, D>,
    at: int,
    image: Seq<char>,
    config: ConfigView<K>,
    options: OptionsView,
    output: OutputView,
)
    requires
        provide_replay(trace, at, image, config, options, output) is Some,
    ensures
        ({
            let (end, result) = provide_replay(trace, at, image, config, options, output)->0;
            fails_at_the_end(trace, at, end, error_of(result))
        }),
{
    if pull_replay(trace, at + 1, image, config, options) is Some {
        pull_fails(trace, at + 1, image, config, options);
        pull_steps(trace, at + 1, image, config, options);
    }
}

/// Two parts in a row, the first of which results in no error.
pub(crate) proof fn one_after_the_other<K, D>(
    trace: Trace<K, D>,
    at: int,
    next: int,
    end: int,
    error: Option<ErrorView>,
)
    requires
        at <= next <= end,
        fails_at_the_end(trace, at, next, None),
        fails_at_the_end(trace, next, end, error),
    ensures
        fails_at_the_end(trace, at, end, error),
{
    assert forall|k: int|
        #![trigger trace[k]]
        at <= k < end implies {
        &&& failure_at(trace, k) is Some ==> k == end - 1 && error == failure_at(trace, k)
        &&& hook_heard(trace, k, end, error)
    } by {
        if k < next {
            assert(hook_heard(trace, k, next, None));
        }
    }
    if error is Some && failure_at(trace, end - 1) != error {
        let k = choose|k: int| next <= k < end && #[trigger] hook_failed(trace, k, end, error->0);
        assert(hook_failed(trace, k, end, error->0));
    }
}

/// Providing several images.
pub(crate) proof fn provide_all_fails<K, D>(
    trace: Trace<K, D>,
    at: int,
    images: Seq<Seq<char>>,
    config: ConfigView<K>,
    options: OptionsView,
    output: OutputView,
)
    requires
        0 <= at <= trace.len(),
        provide_all_replay(trace, at, images, config, options, output) is Some,
    ensures
        ({
            let (end, result) = provide_all_replay(
                trace,
                at,
                images,
                config,
                options,
                output,
            )->0;
            fails_at_the_end(trace, at, end, error_of(result))
        }),
    decreases images.len(),
{
    if images.len() > 0 {
        provide_fails(trace, at, images[0], config, options, output);
        provide_steps(trace, at, images[0], config, options, output);
        let (next, first) = provide_replay(trace, at, images[0], config, options, output)->0;
        if let Ok(provided) = first {
            let rest = images.skip(1);
            provide_all_fails(trace, next, rest, config, options, provided);
            provide_all_steps(trace, next, rest, config, options, provided);
            let (end, result) = provide_all_replay(
                trace,
                next,
                rest,
                config,
                options,
                provided,
            )->0;
            one_after_the_other(trace, at, next, end, error_of(result));
        }
    }
}

/// Loading the configuration and preparing the imagestore.
pub(crate) proof fn prepare_fails<K, D>(trace: Trace<K, D>, at: int, options: OptionsView)
    requires
        prepare_replay(trace, at, options) is Some,
    ensures
        ({
            let (end, result) = prepare_replay(trace, at, options)->0;
            fails_at_the_end(trace, at, end, error_of(result))
        }),
{
    if let Ok(loaded) = trace[at].reply->Config_0 {
        let config = overridden(loaded, options);
        setup_fails(trace, at + 1, config);
        setup_steps(trace, at + 1, config);
        let (end, result) = setup_replay(trace, at + 1, config)->0;
        assert(fails_at_the_end(trace, at, at + 1, None));
        one_after_the_other(trace, at, at + 1, end, error_of(result));
    }
}

/// Listing, pulling, migrating and removing images fails exactly where the last step means an error,
/// or where the hook did not end with code 0, and with that error. No step before the last one means
/// an error.
pub proof fn image_commands_fail_with_their_last_step<K, D>(
    trace: Trace<K, D>,
    command: CommandView,
    options: OptionsView,
    result: Result<OutputView, ErrorView>,
)
    requires
        tells(trace, command, options, result),
        command is Images || command is Pull || command is Migrate || command is Rmi,
    ensures
        fails_at_the_end(trace, 0, trace.len() as int, error_of(result)),
{
    let end = trace.len() as int;
    reveal(command_replay);
    if command is Pull || command is Migrate {
        prepare_fails(trace, 0, options);
        prepare_steps(trace, 0, options);
        let (next, prepared) = prepare_replay(trace, 0, options)->0;
        if let Ok(config) = prepared {
            match command {
                CommandView::Pull { image } => {
                    pull_fails(trace, next, image, config, options);
                    pull_steps(trace, next, image, config, options);
                },
                CommandView::Migrate { image } => {
                    migrate_fails(trace, next, image, config, options);
                    migrate_steps(trace, next, image, config, options);
                },
                _ => {},
            }
            one_after_the_other(trace, 0, next, end, error_of(result));
        }
    } else {
        listing_fails(trace, command, options, result);
    }
}

/// Listing and removing images.
proof fn listing_fails<K, D>(
    trace: Trace<K, D>,
    command: CommandView,
    options: OptionsView,
    result: Result<OutputView, ErrorView>,
)
    requires
        tells(trace, command, options, result),
        command is Images || command is Rmi,
    ensures
        fails_at_the_end(trace, 0, trace.len() as int, error_of(result)),
{
    let end = trace.len() as int;
    reveal(command_replay);
    if let Ok(loaded) = trace[0].reply->Config_0 {
        if trace[1].reply->Graphroot_0 is Ok {
            let config = overridden(loaded, options);
            setup_fails(trace, 2, config);
            setup_steps(trace, 2, config);
            let (next, prepared) = setup_replay(trace, 2, config)->0;
            assert(fails_at_the_end(trace, 0, 2, None));
            one_after_the_other(trace, 0, 2, next, error_of(prepared));
            if prepared is Ok {
                assert(fails_at_the_end(trace, next, end, error_of(result)));
                one_after_the_other(trace, 0, next, end, error_of(result));
            }
        }
    }
}

} // verus!
