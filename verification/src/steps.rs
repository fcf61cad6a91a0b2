//! Which calls the parts of an execution consist of.

use vstd::prelude::*;

use crate::cleanup::{
    elapsed_since, finalize_replay, pause_nanos, removal_replay, CLEANUP_TIMEOUT,
};
use crate::command::OptionsView;
use crate::config::ConfigView;
use crate::context::{pull_ctx, rootdirs_of, seed_ctx, PodmanView};
use crate::deps::RemovalView;
use crate::error::ErrorView;
use crate::images::{migrate_replay, pull_replay};
use crate::imagestore::setup_replay;
use crate::output::OutputView;
use crate::podman::hook_lines;
use crate::run::{provide_all_replay, provide_replay};
use crate::trace::{answer, lines_told, Call, Reply, Trace};

verus! {

/// The calls with which the imagestore is prepared.
pub open spec fn setup_call<K, D>(call: Call<K, D>, config: ConfigView<K>) -> bool {
    let store = config.parallax_imagestore;
    match call {
        Call::HookRun { config: with, hook, arguments } => with == config && hook
            == "parallax_imagestore_create"@ && arguments == seq![store],
        Call::PathExists { path } => path == store,
        Call::CreateDirAll { path } => path == store,
        Call::Tell { .. } => true,
        _ => false,
    }
}

/// The calls with which an image is pulled and migrated.
pub open spec fn pull_call<K, D>(
    call: Call<K, D>,
    image: Seq<char>,
    config: ConfigView<K>,
    options: OptionsView,
) -> bool {
    match call {
        Call::Pull { image: pulled, ctx, verbose } => pulled == image && ctx == pull_ctx(config)
            && verbose == options.verbose,
        Call::ImageExists { image: sought, ctx } => sought == image && ctx == pull_ctx(config),
        Call::DefaultGraphroot { ctx } => ctx == seed_ctx(config),
        Call::ParallaxMigrate { parallax, ctx, image: migrated, verbose } => {
            &&& parallax == config.parallax_path
            &&& ctx.ro_store == Some(config.parallax_imagestore)
            &&& migrated == image
            &&& verbose == options.verbose
        },
        Call::ParallaxExist { parallax, ctx, image: sought } => {
            &&& parallax == config.parallax_path
            &&& ctx.ro_store == Some(config.parallax_imagestore)
            &&& sought == image
        },
        Call::Tell { .. } => true,
        _ => false,
    }
}

/// The calls with which the directories of a run are removed.
pub open spec fn cleanup_call<K, D>(call: Call<K, D>, ctx: PodmanView) -> bool {
    match call {
        Call::RemoveDirAll { path } => rootdirs_of(ctx) == Some(path),
        Call::IsPresent { path } => rootdirs_of(ctx) == Some(path),
        Call::DirEntries { path } => rootdirs_of(ctx) == Some(path),
        Call::Clock => true,
        Call::Pause { millis } => millis == 100,
        _ => false,
    }
}

/// An image was found in the imagestore.
pub open spec fn found_in_store<K, D>(trace: Trace<K, D>, k: int, image: Seq<char>) -> bool {
    &&& trace[k].call is ParallaxExist
    &&& trace[k].call->ParallaxExist_image == image
    &&& trace[k].reply == Reply::<K, D>::Found(Ok(true))
}

/// An image was missed in the imagestore.
pub open spec fn missed_in_store<K, D>(trace: Trace<K, D>, k: int, image: Seq<char>) -> bool {
    &&& trace[k].call is ParallaxExist
    &&& trace[k].call->ParallaxExist_image == image
    &&& trace[k].reply == Reply::<K, D>::Found(Ok(false))
}

/// Lines that were told are steps that tell a line.
pub(crate) proof fn told_steps<K, D>(
    trace: Trace<K, D>,
    at: int,
    lines: Seq<Seq<char>>,
    k: int,
)
    requires
        lines_told(trace, at, lines),
        at <= k < at + lines.len(),
    ensures
        0 <= k < trace.len(),
        trace[k].call is Tell,
{
    let line = lines[k - at];
    assert(answer(trace, at + (k - at), Call::Tell { line }) == Some(Reply::<K, D>::Nothing));
}

/// Preparing the imagestore takes at least one step, and only its own.
pub(crate) proof fn setup_steps<K, D>(trace: Trace<K, D>, at: int, config: ConfigView<K>)
    requires
        setup_replay(trace, at, config) is Some,
    ensures
        ({
            let (end, result) = setup_replay(trace, at, config)->0;
            &&& 0 <= at < end <= trace.len()
            &&& forall|k: int|
                at <= k < end ==> setup_call((#[trigger] trace[k]).call, config) && (
                trace[k].call is CreateDirAll ==> {
                    &&& k == end - 1
                    &&& at < k - 1
                    &&& trace[k - 1].call is PathExists
                    &&& trace[k - 1].reply == Reply::<K, D>::Exists(Ok(false))
                }) && (trace[k].call is PathExists ==> k == end - 1 || (k == end - 2
                    && trace[k].reply == Reply::<K, D>::Exists(Ok(false)))) && (
                trace[k].call is HookRun ==> k == at)
        }),
{
    if let Some(Reply::Hook(Ok(Some(output)))) = answer(
        trace,
        at,
        Call::HookRun {
            config,
            hook: "parallax_imagestore_create"@,
            arguments: seq![config.parallax_imagestore],
        },
    ) {
        let lines = hook_lines(output);
        assert forall|k: int| at + 1 <= k < at + 1 + lines.len() implies (
        #[trigger] trace[k]).call is Tell && k < trace.len() by {
            let line = lines[k - at - 1];
            assert(answer(trace, at + 1 + (k - at - 1), Call::Tell { line }) == Some(
                Reply::<K, D>::Nothing,
            ));
        }
        if lines.len() > 0 {
            assert(trace[at + lines.len()].call is Tell);
        }
    }
}

/// Migrating takes at least one step, and only steps of a pull. Once it succeeded, the last one
/// found the image in the imagestore.
pub(crate) proof fn migrate_steps<K, D>(
    trace: Trace<K, D>,
    at: int,
    image: Seq<char>,
    config: ConfigView<K>,
    options: OptionsView,
)
    requires
        migrate_replay(trace, at, image, config, options) is Some,
    ensures
        ({
            let (end, result) = migrate_replay(trace, at, image, config, options)->0;
            &&& 0 <= at < end <= trace.len()
            &&& forall|k: int|
                at <= k < end ==> pull_call((#[trigger] trace[k]).call, image, config, options)
                    && !(trace[k].call is Pull)
            &&& result is Ok ==> found_in_store(trace, end - 1, image)
        }),
{
}

/// Pulling takes at least one step, and only its own; Podman pulls in the second one. Once it
/// succeeded, the last one found the image in the imagestore.
pub(crate) proof fn pull_steps<K, D>(
    trace: Trace<K, D>,
    at: int,
    image: Seq<char>,
    config: ConfigView<K>,
    options: OptionsView,
)
    requires
        pull_replay(trace, at, image, config, options) is Some,
    ensures
        ({
            let (end, result) = pull_replay(trace, at, image, config, options)->0;
            &&& 0 <= at < end <= trace.len()
            &&& forall|k: int|
                at <= k < end ==> pull_call((#[trigger] trace[k]).call, image, config, options) && (
                trace[k].call is Pull ==> k == at + 1)
            &&& result is Ok ==> found_in_store(trace, end - 1, image)
        }),
{
    if migrate_replay(trace, at + 3, image, config, options) is Some {
        migrate_steps(trace, at + 3, image, config, options);
    }
}

/// Removing a directory takes only its own steps.
proof fn removal_steps<K, D>(
    trace: Trace<K, D>,
    at: int,
    ctx: PodmanView,
    base: Seq<char>,
    start: u64,
    last_error: Seq<char>,
    paused: nat,
)
    requires
        removal_replay(trace, at, base, start, last_error, paused) is Some,
        rootdirs_of(ctx) == Some(base),
    ensures
        ({
            let (end, warning) = removal_replay(
                trace,
                at,
                base,
                start,
                last_error,
                paused,
            )->0;
            &&& 0 <= at < end <= trace.len()
            &&& forall|k: int|
                at <= k < end ==> cleanup_call((#[trigger] trace[k]).call, ctx)
        }),
    decreases CLEANUP_TIMEOUT - paused,
{
    if let Some(Reply::Removal(removal)) = answer(trace, at, Call::RemoveDirAll { path: base }) {
        let error = match removal {
            RemovalView::Failed(message) => message,
            _ => last_error,
        };
        let waited = paused + pause_nanos();
        if elapsed_since(start, trace[at + 3].reply->Nanos_0, waited) < CLEANUP_TIMEOUT
            && removal_replay(trace, at + 4, base, start, error, waited) is Some {
            removal_steps(trace, at + 4, ctx, base, start, error, waited);
        }
    }
}

/// The end of a run takes only steps that remove its directories, and none of them where the
/// workload was not cleaned up.
pub(crate) proof fn finalize_steps<K, D>(
    trace: Trace<K, D>,
    at: int,
    ctx: PodmanView,
    cleaned: Result<(), ErrorView>,
)
    requires
        0 <= at <= trace.len(),
        finalize_replay(trace, at, ctx, cleaned) is Some,
    ensures
        ({
            let (end, warning) = finalize_replay(trace, at, ctx, cleaned)->0;
            &&& at <= end <= trace.len()
            &&& forall|k: int|
                at <= k < end ==> cleanup_call((#[trigger] trace[k]).call, ctx) && cleaned is Ok
        }),
{
    if cleaned is Ok {
        if let Some(base) = rootdirs_of(ctx) {
            if let Some(Reply::Nanos(start)) = answer(trace, at, Call::Clock) {
                removal_steps(
                    trace,
                    at + 1,
                    ctx,
                    base,
                    start,
                    Seq::empty(),
                    0,
                );
            }
        }
    }
}

/// Providing an image takes at least one step, and only steps of a pull. Podman pulls only where
/// the first step missed the image in the imagestore, and once it succeeded, the last step found it
/// there.
pub(crate) proof fn provide_steps<K, D>(
    trace: Trace<K, D>,
    at: int,
    image: Seq<char>,
    config: ConfigView<K>,
    options: OptionsView,
    output: OutputView,
)
    requires
        provide_replay(trace, at, image, config, options, output) is Some,
    ensures
        ({
            let (end, result) = provide_replay(trace, at, image, config, options, output)->0;
            &&& 0 <= at < end <= trace.len()
            &&& forall|k: int|
                at <= k < end ==> pull_call((#[trigger] trace[k]).call, image, config, options) && (
                trace[k].call is Pull ==> k == at + 2 && missed_in_store(trace, at, image))
            &&& result is Ok ==> found_in_store(trace, end - 1, image)
        }),
{
    if pull_replay(trace, at + 1, image, config, options) is Some {
        pull_steps(trace, at + 1, image, config, options);
    }
}

/// Providing several images takes only the steps of a pull of one of them. Podman pulls only what
/// was missed in the imagestore two steps before, and once all succeeded, each image was found
/// there.
pub(crate) proof fn provide_all_steps<K, D>(
    trace: Trace<K, D>,
    at: int,
    images: Seq<Seq<char>>,
    config: ConfigView<K>,
    options: OptionsView,
    output: OutputView,
)
    requires
        0 <= at <= trace.len(),
        provide_all_replay(trace, at, images, config, options, output) is Some,
    ensures
        ({
            let (end, result) = provide_all_replay(
                trace,
                at,
                images,
                config,
                options,
                output,
            )->0;
            &&& at <= end <= trace.len()
            &&& forall|k: int|
                at <= k < end ==> exists|image: Seq<char>| #[trigger]
                    images.contains(image) && pull_call(
                        (#[trigger] trace[k]).call,
                        image,
                        config,
                        options,
                    ) && (trace[k].call is Pull ==> at <= k - 2 && missed_in_store(
                        trace,
                        k - 2,
                        image,
                    ))
            &&& result is Ok ==> forall|image: Seq<char>| #[trigger]
                images.contains(image) ==> exists|k: int|
                    at <= k < end && #[trigger] found_in_store(trace, k, image)
        }),
    decreases images.len(),
{
    if images.len() > 0 {
        provide_steps(trace, at, images[0], config, options, output);
        let (next, first) = provide_replay(trace, at, images[0], config, options, output)->0;
        assert(images.contains(images[0]));
        let rest = images.skip(1);
        assert forall|image: Seq<char>| #[trigger] rest.contains(image) implies images.contains(
            image,
        ) by {
            let j = choose|j: int| 0 <= j < rest.len() && rest[j] == image;
            assert(images[j + 1] == image);
        }
        if let Ok(provided) = first {
            provide_all_steps(trace, next, rest, config, options, provided);
            let (end, result) = provide_all_replay(trace, next, rest, config, options, provided)->0;
            assert forall|k: int| at <= k < end implies exists|image: Seq<char>| #[trigger]
                images.contains(image) && pull_call(
                    (#[trigger] trace[k]).call,
                    image,
                    config,
                    options,
                ) && (trace[k].call is Pull ==> at <= k - 2 && missed_in_store(
                    trace,
                    k - 2,
                    image,
                )) by {
                if k < next {
                    assert(images.contains(images[0]) && pull_call(
                        trace[k].call,
                        images[0],
                        config,
                        options,
                    ));
                } else {
                    let image = choose|image: Seq<char>| #[trigger]
                        rest.contains(image) && pull_call(trace[k].call, image, config, options)
                            && (trace[k].call is Pull ==> next <= k - 2 && missed_in_store(
                            trace,
                            k - 2,
                            image,
                        ));
                    assert(images.contains(image));
                }
            }
            if result is Ok {
                assert forall|image: Seq<char>| #[trigger] images.contains(image) implies exists|
                    k: int,
                |
                    at <= k < end && #[trigger] found_in_store(trace, k, image) by {
                    let j = choose|j: int| 0 <= j < images.len() && images[j] == image;
                    if j == 0 {
                        assert(found_in_store(trace, next - 1, image));
                    } else {
                        assert(rest[j - 1] == image);
                        assert(rest.contains(image));
                        let k = choose|k: int|
                            next <= k < end && #[trigger] found_in_store(trace, k, image);
                        assert(found_in_store(trace, k, image));
                    }
                }
            }
        }
    }
}

} // verus!
