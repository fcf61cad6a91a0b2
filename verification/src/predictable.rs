//! Executions are predictable: what a command calls, and what it results in, depends on nothing but
//! the command, the options and the answers that it got.

use vstd::prelude::*;

use crate::cleanup::{
    elapsed_since, finalize_replay, pause_nanos, removal_replay, CLEANUP_TIMEOUT,
};
use crate::command::{CommandView, OptionsView};
use crate::config::{ConfigView, EdfView};
use crate::context::{rootdirs_of, run_ctx, ContainerView, PodmanView};
use crate::deps::RemovalView;
use crate::error::ErrorView;
use crate::execute::command_replay;
use crate::images::{images_replay, migrate_replay, pull_replay, rmi_replay};
use crate::imagestore::setup_replay;
use crate::laws::tells;
use crate::loading::with_options;
use crate::manifest::{image_list, podman_container, yaml_document};
use crate::output::{succeeded, OutputView};
use crate::podman::hook_lines;
use crate::run::{
    container_replay, edf_container, pod_ctx, pod_replay, prepare_replay, provide_all_replay,
    provide_replay, run_edf_replay, run_replay, run_yaml_replay, terminals_replay,
};
use crate::trace::{answer, Call, Reply, Trace};

verus! {

/// Two traces with the same answers, as far as both go.
pub open spec fn agree<K, D>(a: Trace<K, D>, b: Trace<K, D>) -> bool {
    forall|k: int|
        #![trigger a[k]]
        #![trigger b[k]]
        0 <= k < a.len() && k < b.len() ==> a[k].reply == b[k].reply
}

/// Two traces with the same steps between two places.
pub open spec fn same_steps<K, D>(a: Trace<K, D>, b: Trace<K, D>, from: int, to: int) -> bool {
    forall|k: int|
        #![trigger a[k]]
        #![trigger b[k]]
        from <= k < to ==> a[k] == b[k]
}

/// Preparing the imagestore is predictable.
proof fn setup_is_predictable<K, D>(
    a: Trace<K, D>,
    b: Trace<K, D>,
    at: int,
    config: ConfigView<K>,
)
    requires
        agree(a, b),
        setup_replay(a, at, config) is Some,
        setup_replay(b, at, config) is Some,
    ensures
        setup_replay(a, at, config) == setup_replay(b, at, config),
        same_steps(a, b, at, (setup_replay(a, at, config)->0).0),
{
    if let Some(Reply::Hook(Ok(Some(output)))) = answer(
        a,
        at,
        Call::HookRun {
            config,
            hook: "parallax_imagestore_create"@,
            arguments: seq![config.parallax_imagestore],
        },
    ) {
        let lines = hook_lines(output);
        let shown = at + 1 + lines.len();
        assert forall|k: int| at + 1 <= k < shown implies #[trigger] a[k] == b[k] by {
            let line = lines[k - at - 1];
            assert(answer(a, at + 1 + (k - at - 1), Call::Tell { line }) == Some(
                Reply::<K, D>::Nothing,
            ));
            assert(answer(b, at + 1 + (k - at - 1), Call::Tell { line }) == Some(
                Reply::<K, D>::Nothing,
            ));
        }
    }
}

/// Migrating an image is predictable.
proof fn migrate_is_predictable<K, D>(
    a: Trace<K, D>,
    b: Trace<K, D>,
    at: int,
    image: Seq<char>,
    config: ConfigView<K>,
    options: OptionsView,
)
    requires
        agree(a, b),
        migrate_replay(a, at, image, config, options) is Some,
        migrate_replay(b, at, image, config, options) is Some,
    ensures
        migrate_replay(a, at, image, config, options) == migrate_replay(
            b,
            at,
            image,
            config,
            options,
        ),
        same_steps(a, b, at, (migrate_replay(a, at, image, config, options)->0).0),
{
}

/// Pulling an image is predictable.
proof fn pull_is_predictable<K, D>(
    a: Trace<K, D>,
    b: Trace<K, D>,
    at: int,
    image: Seq<char>,
    config: ConfigView<K>,
    options: OptionsView,
)
    requires
        agree(a, b),
        pull_replay(a, at, image, config, options) is Some,
        pull_replay(b, at, image, config, options) is Some,
    ensures
        pull_replay(a, at, image, config, options) == pull_replay(b, at, image, config, options),
        same_steps(a, b, at, (pull_replay(a, at, image, config, options)->0).0),
{
    if migrate_replay(a, at + 3, image, config, options) is Some && migrate_replay(
        b,
        at + 3,
        image,
        config,
        options,
    ) is Some {
        migrate_is_predictable(a, b, at + 3, image, config, options);
    }
}

/// Listing the images is predictable.
proof fn listing_is_predictable<K, D>(
    a: Trace<K, D>,
    b: Trace<K, D>,
    at: int,
    config: ConfigView<K>,
)
    requires
        agree(a, b),
        images_replay(a, at, config) is Some,
        images_replay(b, at, config) is Some,
    ensures
        images_replay(a, at, config) == images_replay(b, at, config),
        same_steps(a, b, at, (images_replay(a, at, config)->0).0),
{
    if a[at].reply->Graphroot_0 is Ok {
        setup_is_predictable(a, b, at + 1, config);
    }
}

/// Removing an image is predictable.
proof fn rmi_is_predictable<K, D>(
    a: Trace<K, D>,
    b: Trace<K, D>,
    at: int,
    image: Seq<char>,
    config: ConfigView<K>,
    options: OptionsView,
)
    requires
        agree(a, b),
        rmi_replay(a, at, image, config, options) is Some,
        rmi_replay(b, at, image, config, options) is Some,
    ensures
        rmi_replay(a, at, image, config, options) == rmi_replay(b, at, image, config, options),
        same_steps(a, b, at, (rmi_replay(a, at, image, config, options)->0).0),
{
    if a[at].reply->Graphroot_0 is Ok {
        setup_is_predictable(a, b, at + 1, config);
    }
}

/// Loading the configuration and preparing the imagestore is predictable.
proof fn prepare_is_predictable<K, D>(a: Trace<K, D>, b: Trace<K, D>, at: int, options: OptionsView)
    requires
        agree(a, b),
        prepare_replay(a, at, options) is Some,
        prepare_replay(b, at, options) is Some,
    ensures
        prepare_replay(a, at, options) == prepare_replay(b, at, options),
        same_steps(a, b, at, (prepare_replay(a, at, options)->0).0),
{
    if let Ok(config) = with_options(a[at].reply->Config_0, options) {
        setup_is_predictable(a, b, at + 1, config);
    }
}

/// Removing a directory is predictable.
proof fn removal_is_predictable<K, D>(
    a: Trace<K, D>,
    b: Trace<K, D>,
    at: int,
    base: Seq<char>,
    start: u64,
    last_error: Seq<char>,
    paused: nat,
)
    requires
        agree(a, b),
        removal_replay(a, at, base, start, last_error, paused) is Some,
        removal_replay(b, at, base, start, last_error, paused) is Some,
    ensures
        removal_replay(a, at, base, start, last_error, paused) == removal_replay(
            b,
            at,
            base,
            start,
            last_error,
            paused,
        ),
        same_steps(a, b, at, (removal_replay(a, at, base, start, last_error, paused)->0).0),
    decreases CLEANUP_TIMEOUT - paused,
{
    let error = match a[at].reply->Removal_0 {
        RemovalView::Failed(message) => message,
        _ => last_error,
    };
    let waited = paused + pause_nanos();
    if elapsed_since(start, a[at + 3].reply->Nanos_0, waited) < CLEANUP_TIMEOUT {
        if removal_replay(a, at + 4, base, start, error, waited) is Some && removal_replay(
            b,
            at + 4,
            base,
            start,
            error,
            waited,
        ) is Some {
            removal_is_predictable(a, b, at + 4, base, start, error, waited);
        }
    }
}

/// The end of a run is predictable.
proof fn finalize_is_predictable<K, D>(
    a: Trace<K, D>,
    b: Trace<K, D>,
    at: int,
    ctx: PodmanView,
    cleaned: Result<(), ErrorView>,
)
    requires
        agree(a, b),
        finalize_replay(a, at, ctx, cleaned) is Some,
        finalize_replay(b, at, ctx, cleaned) is Some,
    ensures
        finalize_replay(a, at, ctx, cleaned) == finalize_replay(b, at, ctx, cleaned),
        same_steps(a, b, at, (finalize_replay(a, at, ctx, cleaned)->0).0),
{
    if cleaned is Ok {
        if let Some(base) = rootdirs_of(ctx) {
            let start = a[at].reply->Nanos_0;
            removal_is_predictable(
                a,
                b,
                at + 1,
                base,
                start,
                Seq::empty(),
                0,
            );
        }
    }
}

/// Providing an image is predictable.
proof fn provide_is_predictable<K, D>(
    a: Trace<K, D>,
    b: Trace<K, D>,
    at: int,
    image: Seq<char>,
    config: ConfigView<K>,
    options: OptionsView,
    output: OutputView,
)
    requires
        agree(a, b),
        provide_replay(a, at, image, config, options, output) is Some,
        provide_replay(b, at, image, config, options, output) is Some,
    ensures
        provide_replay(a, at, image, config, options, output) == provide_replay(
            b,
            at,
            image,
            config,
            options,
            output,
        ),
        same_steps(a, b, at, (provide_replay(a, at, image, config, options, output)->0).0),
{
    if pull_replay(a, at + 1, image, config, options) is Some && pull_replay(
        b,
        at + 1,
        image,
        config,
        options,
    ) is Some {
        pull_is_predictable(a, b, at + 1, image, config, options);
    }
}

/// Providing several images is predictable.
proof fn provide_all_is_predictable<K, D>(
    a: Trace<K, D>,
    b: Trace<K, D>,
    at: int,
    images: Seq<Seq<char>>,
    config: ConfigView<K>,
    options: OptionsView,
    output: OutputView,
)
    requires
        agree(a, b),
        provide_all_replay(a, at, images, config, options, output) is Some,
        provide_all_replay(b, at, images, config, options, output) is Some,
    ensures
        provide_all_replay(a, at, images, config, options, output) == provide_all_replay(
            b,
            at,
            images,
            config,
            options,
            output,
        ),
        same_steps(a, b, at, (provide_all_replay(a, at, images, config, options, output)->0).0),
    decreases images.len(),
{
    if images.len() > 0 {
        provide_is_predictable(a, b, at, images[0], config, options, output);
        if let Some((next, Ok(provided))) = provide_replay(
            a,
            at,
            images[0],
            config,
            options,
            output,
        ) {
            provide_all_is_predictable(a, b, next, images.skip(1), config, options, provided);
        }
    }
}

/// Running a container is predictable.
proof fn container_is_predictable<K, D>(
    a: Trace<K, D>,
    b: Trace<K, D>,
    at: int,
    edf: EdfView<D>,
    ctx: PodmanView,
    container: ContainerView,
    command: Seq<Seq<char>>,
    output: OutputView,
)
    requires
        agree(a, b),
        container_replay(a, at, edf, ctx, container, command, output) is Some,
        container_replay(b, at, edf, ctx, container, command, output) is Some,
    ensures
        container_replay(a, at, edf, ctx, container, command, output) == container_replay(
            b,
            at,
            edf,
            ctx,
            container,
            command,
            output,
        ),
        same_steps(
            a,
            b,
            at,
            (container_replay(a, at, edf, ctx, container, command, output)->0).0,
        ),
{
    finalize_is_predictable(a, b, at + 2, ctx, a[at + 1].reply->Done_0);
}

/// Running a pod is predictable.
proof fn pod_is_predictable<K, D>(
    a: Trace<K, D>,
    b: Trace<K, D>,
    at: int,
    path: Seq<char>,
    ctx: PodmanView,
    container: Seq<char>,
    command: Seq<Seq<char>>,
    output: OutputView,
)
    requires
        agree(a, b),
        pod_replay(a, at, path, ctx, container, command, output) is Some,
        pod_replay(b, at, path, ctx, container, command, output) is Some,
    ensures
        pod_replay(a, at, path, ctx, container, command, output) == pod_replay(
            b,
            at,
            path,
            ctx,
            container,
            command,
            output,
        ),
        same_steps(a, b, at, (pod_replay(a, at, path, ctx, container, command, output)->0).0),
{
    let down = if a[at].reply->Done_0 is Ok {
        at + 2
    } else {
        at + 1
    };
    finalize_is_predictable(a, b, down + 1, ctx, a[down].reply->Done_0);
}

/// Running an environment definition is predictable.
proof fn run_edf_is_predictable<K, D>(
    a: Trace<K, D>,
    b: Trace<K, D>,
    at: int,
    edf: EdfView<D>,
    command: Seq<Seq<char>>,
    config: ConfigView<K>,
    options: OptionsView,
)
    requires
        agree(a, b),
        run_edf_replay(a, at, edf, command, config, options) is Some,
        run_edf_replay(b, at, edf, command, config, options) is Some,
    ensures
        run_edf_replay(a, at, edf, command, config, options) == run_edf_replay(
            b,
            at,
            edf,
            command,
            config,
            options,
        ),
        same_steps(a, b, at, (run_edf_replay(a, at, edf, command, config, options)->0).0),
{
    reveal(run_edf_replay);
    if a[at + 1].reply->User_0 is Ok {
        provide_is_predictable(a, b, at + 2, edf.image, config, options, succeeded(""@));
        if let Some((next, Ok(output))) = provide_replay(
            a,
            at + 2,
            edf.image,
            config,
            options,
            succeeded(""@),
        ) {
            let user = a[at + 1].reply->User_0->Ok_0;
            let id = a[at].reply->Id_0;
            let (go, interactive, tty) = terminals_replay(a, next)->0;
            assert(terminals_replay(b, next) == terminals_replay(a, next));
            container_is_predictable(
                a,
                b,
                go,
                edf,
                run_ctx(config, user.uid, id),
                edf_container(user.uid, id, interactive, tty),
                command,
                output,
            );
        }
    }
}

/// Running a Kubernetes manifest is predictable.
proof fn run_yaml_is_predictable<K, D>(
    a: Trace<K, D>,
    b: Trace<K, D>,
    at: int,
    path: Seq<char>,
    command: Seq<Seq<char>>,
    config: ConfigView<K>,
    options: OptionsView,
)
    requires
        agree(a, b),
        run_yaml_replay(a, at, path, command, config, options) is Some,
        run_yaml_replay(b, at, path, command, config, options) is Some,
    ensures
        run_yaml_replay(a, at, path, command, config, options) == run_yaml_replay(
            b,
            at,
            path,
            command,
            config,
            options,
        ),
        same_steps(a, b, at, (run_yaml_replay(a, at, path, command, config, options)->0).0),
{
    reveal(run_yaml_replay);
    if a[at].reply->User_0 is Ok && a[at + 2].reply->Contents_0 is Ok {
        let user = a[at].reply->User_0->Ok_0;
        let id = a[at + 1].reply->Id_0;
        if let Ok(manifest) = yaml_document(a[at + 2].reply->Contents_0->Ok_0) {
            let images = image_list(manifest);
            provide_all_is_predictable(a, b, at + 3, images, config, options, succeeded(""@));
            if let Some((next, Ok(output))) = provide_all_replay(
                a,
                at + 3,
                images,
                config,
                options,
                succeeded(""@),
            ) {
                if let Ok(container) = podman_container(manifest) {
                    let ctx = pod_ctx(config, user.uid, id);
                    pod_is_predictable(a, b, next, path, ctx, container, command, output);
                }
            }
        }
    }
}

/// Running a file is predictable.
proof fn run_is_predictable<K, D>(
    a: Trace<K, D>,
    b: Trace<K, D>,
    path: Seq<char>,
    command: Seq<Seq<char>>,
    options: OptionsView,
)
    requires
        agree(a, b),
        run_replay(a, 0, path, command, options) is Some,
        run_replay(b, 0, path, command, options) is Some,
    ensures
        run_replay(a, 0, path, command, options) == run_replay(b, 0, path, command, options),
        same_steps(a, b, 0, (run_replay(a, 0, path, command, options)->0).0),
{
    reveal(run_replay);
    if let Ok(edf) = a[0].reply->Edf_0 {
        prepare_is_predictable(a, b, 1, options);
        if let Some((next, Ok(config))) = prepare_replay(a, 1, options) {
            run_edf_is_predictable(a, b, next, edf, command, config, options);
        }
    } else if a[1].reply->Contents_0 is Ok && yaml_document(a[1].reply->Contents_0->Ok_0) is Ok {
        prepare_is_predictable(a, b, 2, options);
        if let Some((next, Ok(config))) = prepare_replay(a, 2, options) {
            run_yaml_is_predictable(a, b, next, path, command, config, options);
        }
    }
}

/// Two executions of the same command with the same options that get the same answers make the same
/// calls, in the same order, and have the same result.
pub proof fn executions_are_predictable<K, D>(
    a: Trace<K, D>,
    b: Trace<K, D>,
    command: CommandView,
    options: OptionsView,
    first: Result<OutputView, ErrorView>,
    second: Result<OutputView, ErrorView>,
)
    requires
        tells(a, command, options, first),
        tells(b, command, options, second),
        agree(a, b),
    ensures
        a == b,
        first == second,
{
    reveal(command_replay);
    match command {
        CommandView::Validate { .. } => {},
        CommandView::Render { .. } => {},
        CommandView::Images => {
            if let Ok(config) = with_options(a[0].reply->Config_0, options) {
                listing_is_predictable(a, b, 1, config);
            }
        },
        CommandView::Rmi { image } => {
            if let Ok(config) = with_options(a[0].reply->Config_0, options) {
                rmi_is_predictable(a, b, 1, image, config, options);
            }
        },
        CommandView::Pull { image } => {
            prepare_is_predictable(a, b, 0, options);
            if let Some((next, Ok(config))) = prepare_replay(a, 0, options) {
                pull_is_predictable(a, b, next, image, config, options);
            }
        },
        CommandView::Migrate { image } => {
            prepare_is_predictable(a, b, 0, options);
            if let Some((next, Ok(config))) = prepare_replay(a, 0, options) {
                migrate_is_predictable(a, b, next, image, config, options);
            }
        },
        CommandView::Run { filepath, container_cmd } => {
            run_is_predictable(a, b, filepath, container_cmd, options);
        },
    }
    assert(a =~= b);
}

} // verus!
