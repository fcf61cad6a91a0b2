//! What every call is told: which settings, directories and images reach Podman, Parallax and the
//! host, whatever command is executed.

use vstd::prelude::*;

use crate::command::{CommandView, OptionsView};
use crate::config::{overridden, ConfigView, EdfView};
use crate::context::{run_ctx, PodmanView};
use crate::error::ErrorView;
use crate::execute::command_replay;
use crate::images::{migrate_replay, pull_replay};
use crate::imagestore::setup_replay;
use crate::laws::tells;
use crate::manifest::{ascending, image_list, image_list_is_the_one, names_image, yaml_document};
use crate::output::{succeeded, OutputView};
use crate::run::{
    pod_ctx, prepare_replay, provide_all_replay, provide_replay, run_edf_replay, run_replay,
    run_yaml_replay, terminals_replay,
};
use crate::shapes::{
    config_place, edf_steps, in_force, prepare_steps, provide_step, reading_call, run_steps,
    yaml_steps,
};
use crate::steps::{
    cleanup_call, finalize_steps, migrate_steps, provide_all_steps, pull_steps, setup_call,
    setup_steps,
};
use crate::text::precedes;
use crate::trace::{Call, Reply, Trace};
use crate::wording::{comes_before, texts_are_ordered_by_their_first_difference};

verus! {

/// The configuration that was loaded at one place of a trace.
pub open spec fn loaded_at<K, D>(trace: Trace<K, D>, place: int, loaded: ConfigView<K>) -> bool {
    &&& 0 <= place < trace.len()
    &&& trace[place].call is LoadConfig
    &&& trace[place].reply == Reply::<K, D>::Config(Ok(loaded))
}

/// The imagestore that holds: the one that the options name or else the configured one.
pub open spec fn chosen_store<K>(loaded: ConfigView<K>, options: OptionsView) -> Seq<char> {
    match options.parallax_imagestore {
        Some(path) => path,
        None => loaded.parallax_imagestore,
    }
}

/// Podman is called with nothing set but its path.
pub open spec fn sets_nothing(ctx: PodmanView, podman: Seq<char>) -> bool {
    &&& ctx.podman_path == podman
    &&& ctx.module is None
    &&& ctx.graphroot is None
    &&& ctx.runroot is None
    &&& ctx.parallax_mount_program is None
    &&& ctx.ro_store is None
    &&& ctx.podman_env is None
}

/// Podman is called with an additional store for reading, and with that graphroot, if any.
pub open spec fn adds_store(
    ctx: PodmanView,
    podman: Seq<char>,
    store: Seq<char>,
    graphroot: Option<Seq<char>>,
) -> bool {
    &&& ctx.podman_path == podman
    &&& ctx.module is None
    &&& ctx.graphroot == graphroot
    &&& ctx.runroot is None
    &&& ctx.parallax_mount_program is None
    &&& ctx.ro_store == Some(store)
    &&& ctx.podman_env is None
}

/// A context has the graphroot that the step at one place answered.
pub open spec fn has_graphroot_of<K, D>(trace: Trace<K, D>, place: int, ctx: PodmanView) -> bool {
    &&& 0 <= place < trace.len()
    &&& trace[place].call is DefaultGraphroot
    &&& ctx.graphroot is Some
    &&& trace[place].reply == Reply::<K, D>::Graphroot(Ok(ctx.graphroot->0))
}

/// The hook is told of the configuration as it was loaded, but for the imagestore that holds.
pub open spec fn hook_told<K>(
    told: ConfigView<K>,
    loaded: ConfigView<K>,
    store: Seq<char>,
) -> bool {
    &&& told.parallax_imagestore == store
    &&& told.parallax_mount_program == loaded.parallax_mount_program
    &&& told.parallax_mp_uid == loaded.parallax_mp_uid
    &&& told.parallax_mp_gid == loaded.parallax_mp_gid
    &&& told.parallax_mp_squashfuse_path == loaded.parallax_mp_squashfuse_path
    &&& told.parallax_mp_logfile == loaded.parallax_mp_logfile
    &&& told.parallax_path == loaded.parallax_path
    &&& told.podman_module == loaded.podman_module
    &&& told.podman_path == loaded.podman_path
    &&& told.document == loaded.document
}

/// Image handling as the loaded configuration and the options want it, call by call. Podman pulls
/// and looks for an image with its own settings. Parallax is told the graphroot that Podman
/// answered: two steps before a migration, and right after the configuration was loaded where
/// images are listed or removed. After a migration with success the image is looked for with the
/// same settings; no other look is told a graphroot.
pub open spec fn handled_right<K, D>(
    trace: Trace<K, D>,
    k: int,
    loaded: ConfigView<K>,
    options: OptionsView,
) -> bool {
    let store = chosen_store(loaded, options);
    let podman = loaded.podman_path;
    match trace[k].call {
        Call::HookRun { config, hook, arguments } => {
            &&& hook_told(config, loaded, store)
            &&& hook == "parallax_imagestore_create"@
            &&& arguments.len() == 1
            &&& arguments[0] == store
        },
        Call::PathExists { path } => path == store,
        Call::CreateDirAll { path } => {
            &&& path == store
            &&& k >= 1
            &&& trace[k - 1].call == (Call::<K, D>::PathExists { path })
            &&& trace[k - 1].reply == Reply::<K, D>::Exists(Ok(false))
        },
        Call::DefaultGraphroot { ctx } => adds_store(ctx, podman, store, None),
        Call::Images { ctx } => {
            &&& adds_store(ctx, podman, store, ctx.graphroot)
            &&& has_graphroot_of(trace, 1, ctx)
        },
        Call::Pull { image, ctx, verbose } => {
            &&& sets_nothing(ctx, podman)
            &&& verbose == options.verbose
            &&& k >= 1
            &&& trace[k - 1].call == (Call::<K, D>::Tell {
                line: "Pulling "@ + image + " with Podman..."@,
            })
        },
        Call::ImageExists { image, ctx } => {
            &&& sets_nothing(ctx, podman)
            &&& k >= 1
            &&& trace[k - 1].call is Pull
            &&& trace[k - 1].call->Pull_image == image
        },
        Call::ParallaxMigrate { parallax, ctx, image, verbose } => {
            &&& parallax == loaded.parallax_path
            &&& adds_store(ctx, podman, store, ctx.graphroot)
            &&& has_graphroot_of(trace, k - 2, ctx)
            &&& verbose == options.verbose
            &&& trace[k - 1].call == (Call::<K, D>::Tell {
                line: "Migrating "@ + image + " with Parallax..."@,
            })
            &&& trace[k].reply is Done
            &&& trace[k].reply->Done_0 is Ok ==> {
                &&& k + 1 < trace.len()
                &&& trace[k + 1].call == (Call::<K, D>::ParallaxExist { parallax, ctx, image })
            }
        },
        Call::ParallaxExist { parallax, ctx, image } => {
            &&& parallax == loaded.parallax_path
            &&& adds_store(ctx, podman, store, ctx.graphroot)
            &&& ctx.graphroot is Some ==> {
                &&& k >= 1
                &&& trace[k - 1].call is ParallaxMigrate
                &&& trace[k - 1].call->ParallaxMigrate_ctx == ctx
                &&& trace[k - 1].call->ParallaxMigrate_image == image
            }
        },
        Call::ParallaxRmi { parallax, ctx, image, verbose } => {
            &&& parallax == loaded.parallax_path
            &&& adds_store(ctx, podman, store, ctx.graphroot)
            &&& has_graphroot_of(trace, 1, ctx)
            &&& verbose == options.verbose
        },
        Call::Pause { millis } => millis == 100,
        _ => true,
    }
}

/// Preparing the imagestore.
proof fn setup_right<K, D>(
    trace: Trace<K, D>,
    at: int,
    loaded: ConfigView<K>,
    options: OptionsView,
)
    requires
        setup_replay(trace, at, overridden(loaded, options)) is Some,
    ensures
        forall|k: int|
            at <= k < (setup_replay(
                trace,
                at,
                overridden(loaded, options),
            )->0).0 ==> #[trigger] handled_right(trace, k, loaded, options),
{
    setup_steps(trace, at, overridden(loaded, options));
}

/// Migrating an image.
proof fn migrate_right<K, D>(
    trace: Trace<K, D>,
    at: int,
    image: Seq<char>,
    loaded: ConfigView<K>,
    options: OptionsView,
)
    requires
        migrate_replay(trace, at, image, overridden(loaded, options), options) is Some,
    ensures
        forall|k: int|
            at <= k < (migrate_replay(
                trace,
                at,
                image,
                overridden(loaded, options),
                options,
            )->0).0 ==> #[trigger] handled_right(trace, k, loaded, options),
{
    migrate_steps(trace, at, image, overridden(loaded, options), options);
}

/// Pulling an image.
proof fn pull_right<K, D>(
    trace: Trace<K, D>,
    at: int,
    image: Seq<char>,
    loaded: ConfigView<K>,
    options: OptionsView,
)
    requires
        pull_replay(trace, at, image, overridden(loaded, options), options) is Some,
    ensures
        forall|k: int|
            at <= k < (pull_replay(
                trace,
                at,
                image,
                overridden(loaded, options),
                options,
            )->0).0 ==> #[trigger] handled_right(trace, k, loaded, options),
{
    let config = overridden(loaded, options);
    if migrate_replay(trace, at + 3, image, config, options) is Some {
        migrate_right(trace, at + 3, image, loaded, options);
    }
}

/// Providing an image.
proof fn provide_right<K, D>(
    trace: Trace<K, D>,
    at: int,
    image: Seq<char>,
    loaded: ConfigView<K>,
    options: OptionsView,
    output: OutputView,
)
    requires
        provide_replay(trace, at, image, overridden(loaded, options), options, output) is Some,
    ensures
        forall|k: int|
            at <= k < (provide_replay(
                trace,
                at,
                image,
                overridden(loaded, options),
                options,
                output,
            )->0).0 ==> #[trigger] handled_right(trace, k, loaded, options),
{
    let config = overridden(loaded, options);
    if pull_replay(trace, at + 1, image, config, options) is Some {
        pull_right(trace, at + 1, image, loaded, options);
    }
}

/// Providing several images.
proof fn provide_all_right<K, D>(
    trace: Trace<K, D>,
    at: int,
    images: Seq<Seq<char>>,
    loaded: ConfigView<K>,
    options: OptionsView,
    output: OutputView,
)
    requires
        provide_all_replay(
            trace,
            at,
            images,
            overridden(loaded, options),
            options,
            output,
        ) is Some,
    ensures
        forall|k: int|
            at <= k < (provide_all_replay(
                trace,
                at,
                images,
                overridden(loaded, options),
                options,
                output,
            )->0).0 ==> #[trigger] handled_right(trace, k, loaded, options),
    decreases images.len(),
{
    let config = overridden(loaded, options);
    if images.len() > 0 {
        provide_right(trace, at, images[0], loaded, options, output);
        let (next, first) = provide_replay(trace, at, images[0], config, options, output)->0;
        if let Ok(provided) = first {
            provide_all_right(trace, next, images.skip(1), loaded, options, provided);
        }
    }
}

/// Running a container or a pod.
proof fn run_right<K, D>(
    trace: Trace<K, D>,
    filepath: Seq<char>,
    container_cmd: Seq<Seq<char>>,
    options: OptionsView,
    result: Result<OutputView, ErrorView>,
    k: int,
)
    requires
        tells(trace, (CommandView::Run { filepath, container_cmd }), options, result),
        0 <= k < trace.len(),
        k > config_place(trace),
    ensures
        exists|loaded: ConfigView<K>|
            #[trigger] loaded_at(trace, config_place(trace), loaded) && handled_right(
                trace,
                k,
                loaded,
                options,
            ),
{
    let (begin, config) = run_steps(trace, filepath, container_cmd, options, result);
    let place = config_place(trace);
    let loaded = trace[place].reply->Config_0->Ok_0;
    if k < begin {
        assert(setup_call(trace[k].call, in_force(trace, place, options)->0));
    }
    assert(in_force(trace, place, options) is Some);
    assert(loaded_at(trace, place, loaded));
    if k < begin {
        prepared_right(trace, filepath, container_cmd, options, result);
        assert(handled_right(trace, k, loaded, options));
    } else if let Ok(edf) = trace[0].reply->Edf_0 {
        edf_right(trace, begin, edf, container_cmd, loaded, options, k);
        assert(handled_right(trace, k, loaded, options));
    } else {
        yaml_right(trace, begin, filepath, container_cmd, loaded, options, k);
        assert(handled_right(trace, k, loaded, options));
    }
}

/// Running a container.
proof fn edf_right<K, D>(
    trace: Trace<K, D>,
    at: int,
    edf: EdfView<D>,
    command: Seq<Seq<char>>,
    loaded: ConfigView<K>,
    options: OptionsView,
    k: int,
)
    requires
        run_edf_replay(trace, at, edf, command, overridden(loaded, options), options) is Some,
        at <= k < (run_edf_replay(
            trace,
            at,
            edf,
            command,
            overridden(loaded, options),
            options,
        )->0).0,
    ensures
        handled_right(trace, k, loaded, options),
{
    reveal(run_edf_replay);
    let config = overridden(loaded, options);
    if k >= at + 2 {
        let user = trace[at + 1].reply->User_0->Ok_0;
        let id = trace[at].reply->Id_0;
        provide_right(trace, at + 2, edf.image, loaded, options, succeeded(""@));
        let (next, provided) = provide_replay(
            trace,
            at + 2,
            edf.image,
            config,
            options,
            succeeded(""@),
        )->0;
        if k >= next {
            let (go, interactive, tty) = terminals_replay(trace, next)->0;
            if k >= go + 2 {
                let ctx = run_ctx(config, user.uid, id);
                finalize_steps(trace, go + 2, ctx, trace[go + 1].reply->Done_0);
                assert(cleanup_call(trace[k].call, ctx));
            }
        }
    }
}

/// Running a pod.
proof fn yaml_right<K, D>(
    trace: Trace<K, D>,
    at: int,
    path: Seq<char>,
    command: Seq<Seq<char>>,
    loaded: ConfigView<K>,
    options: OptionsView,
    k: int,
)
    requires
        run_yaml_replay(trace, at, path, command, overridden(loaded, options), options) is Some,
        at <= k < (run_yaml_replay(
            trace,
            at,
            path,
            command,
            overridden(loaded, options),
            options,
        )->0).0,
    ensures
        handled_right(trace, k, loaded, options),
{
    reveal(run_yaml_replay);
    let config = overridden(loaded, options);
    if k >= at + 3 {
        let user = trace[at].reply->User_0->Ok_0;
        let id = trace[at + 1].reply->Id_0;
        let manifest = yaml_document(trace[at + 2].reply->Contents_0->Ok_0)->Ok_0;
        let images = image_list(manifest);
        provide_all_right(trace, at + 3, images, loaded, options, succeeded(""@));
        let (go, provided) = provide_all_replay(
            trace,
            at + 3,
            images,
            config,
            options,
            succeeded(""@),
        )->0;
        if k >= go {
            let down = if trace[go].reply->Done_0 is Err {
                go + 1
            } else {
                go + 2
            };
            if k > down {
                let ctx = pod_ctx(config, user.uid, id);
                provide_all_steps(trace, at + 3, images, config, options, succeeded(""@));
                finalize_steps(trace, down + 1, ctx, trace[down].reply->Done_0);
                assert(cleanup_call(trace[k].call, ctx));
            }
        }
    }
}

/// The first steps of a run.
proof fn prepared_right<K, D>(
    trace: Trace<K, D>,
    filepath: Seq<char>,
    container_cmd: Seq<Seq<char>>,
    options: OptionsView,
    result: Result<OutputView, ErrorView>,
)
    requires
        tells(trace, (CommandView::Run { filepath, container_cmd }), options, result),
        in_force(trace, config_place(trace), options) is Some,
    ensures
        prepare_replay(trace, config_place(trace), options) is Some,
        forall|k: int|
            config_place(trace) < k < (prepare_replay(trace, config_place(trace), options)->0).0
                ==> #[trigger] handled_right(
                trace,
                k,
                trace[config_place(trace)].reply->Config_0->Ok_0,
                options,
            ),
{
    reveal(command_replay);
    reveal(run_replay);
    let place = config_place(trace);
    setup_right(trace, place + 1, trace[place].reply->Config_0->Ok_0, options);
}

/// The calls that can come before the configuration is loaded, and the one that loads it.
pub open spec fn needs_no_config<K, D>(call: Call<K, D>) -> bool {
    call is LoadConfig || call is Validate || call is Render || call is ReadToString
}

/// Whatever the command: a configuration was loaded before every call that needs one, and images
/// are handled as that configuration and the options want it.
pub proof fn images_are_handled_as_configured<K, D>(
    trace: Trace<K, D>,
    command: CommandView,
    options: OptionsView,
    result: Result<OutputView, ErrorView>,
    k: int,
)
    requires
        tells(trace, command, options, result),
        0 <= k < trace.len(),
        !needs_no_config(trace[k].call),
    ensures
        exists|place: int, loaded: ConfigView<K>|
            place < k && #[trigger] loaded_at(trace, place, loaded) && handled_right(
                trace,
                k,
                loaded,
                options,
            ),
{
    if let CommandView::Run { filepath, container_cmd } = command {
        let (begin, config) = run_steps(trace, filepath, container_cmd, options, result);
        let place = config_place(trace);
        if k <= place {
            if k < begin {
                assert(reading_call(trace[k].call));
            } else {
                prepare_steps(trace, place, options);
            }
        }
        run_right(trace, filepath, container_cmd, options, result, k);
        let loaded = choose|loaded: ConfigView<K>|
            #[trigger] loaded_at(trace, place, loaded) && handled_right(
                trace,
                k,
                loaded,
                options,
            );
        assert(loaded_at(trace, place, loaded));
    } else {
        let loaded = trace[0].reply->Config_0->Ok_0;
        match command {
            CommandView::Pull { image } => pulling_right(trace, command, options, result, k),
            CommandView::Migrate { image } => pulling_right(trace, command, options, result, k),
            CommandView::Images => listing_right(trace, command, options, result, k),
            CommandView::Rmi { image } => listing_right(trace, command, options, result, k),
            _ => {
                reveal(command_replay);
            },
        }
        assert(loaded_at(trace, 0, loaded) && handled_right(trace, k, loaded, options));
    }
}

/// Pulling and migrating on command.
proof fn pulling_right<K, D>(
    trace: Trace<K, D>,
    command: CommandView,
    options: OptionsView,
    result: Result<OutputView, ErrorView>,
    k: int,
)
    requires
        tells(trace, command, options, result),
        command is Pull || command is Migrate,
        0 <= k < trace.len(),
        !needs_no_config(trace[k].call),
    ensures
        k > 0,
        loaded_at(trace, 0, trace[0].reply->Config_0->Ok_0),
        handled_right(trace, k, trace[0].reply->Config_0->Ok_0, options),
{
    reveal(command_replay);
    let loaded = trace[0].reply->Config_0->Ok_0;
    prepare_steps(trace, 0, options);
    let (next, prepared) = prepare_replay(trace, 0, options)->0;
    if k > 0 {
        setup_right(trace, 1, loaded, options);
        if k >= next {
            match command {
                CommandView::Pull { image } => pull_right(trace, next, image, loaded, options),
                CommandView::Migrate { image } => migrate_right(
                    trace,
                    next,
                    image,
                    loaded,
                    options,
                ),
                _ => {},
            }
        }
    }
}

/// Listing and removing on command.
proof fn listing_right<K, D>(
    trace: Trace<K, D>,
    command: CommandView,
    options: OptionsView,
    result: Result<OutputView, ErrorView>,
    k: int,
)
    requires
        tells(trace, command, options, result),
        command is Images || command is Rmi,
        0 <= k < trace.len(),
        !needs_no_config(trace[k].call),
    ensures
        k > 0,
        loaded_at(trace, 0, trace[0].reply->Config_0->Ok_0),
        handled_right(trace, k, trace[0].reply->Config_0->Ok_0, options),
{
    reveal(command_replay);
    let loaded = trace[0].reply->Config_0->Ok_0;
    if k > 0 && trace[1].reply->Graphroot_0 is Ok {
        setup_right(trace, 2, loaded, options);
        setup_steps(trace, 2, overridden(loaded, options));
    }
}

/// Removing an image ends well exactly where Parallax was told, in the last call and in no other, to
/// remove that image, and did. It was told the configured path of Podman, the imagestore that holds,
/// and the graphroot that Podman answered in the second call. Nothing is printed then, and the code
/// is 0.
pub proof fn removing_an_image_ends_with_parallax<K, D>(
    trace: Trace<K, D>,
    image: Seq<char>,
    options: OptionsView,
    result: Result<OutputView, ErrorView>,
)
    requires
        tells(trace, (CommandView::Rmi { image }), options, result),
    ensures
        forall|j: int|
            0 <= j < trace.len() && (#[trigger] trace[j]).call is ParallaxRmi ==> j == trace.len()
                - 1,
        result is Ok <==> trace.last().call is ParallaxRmi && trace.last().reply->Done_0 is Ok,
        result is Ok ==> {
            let loaded = trace[0].reply->Config_0->Ok_0;
            let call = trace.last().call;
            &&& trace.len() >= 5
            &&& loaded_at(trace, 0, loaded)
            &&& has_graphroot_of(trace, 1, call->ParallaxRmi_ctx)
            &&& adds_store(
                call->ParallaxRmi_ctx,
                loaded.podman_path,
                chosen_store(loaded, options),
                call->ParallaxRmi_ctx.graphroot,
            )
            &&& call->ParallaxRmi_parallax == loaded.parallax_path
            &&& call->ParallaxRmi_image == image
            &&& call->ParallaxRmi_verbose == options.verbose
            &&& trace.last().reply is Done
            &&& result->Ok_0.return_code == 0
            &&& result->Ok_0.stdout.len() == 0
            &&& result->Ok_0.stderr.len() == 0
        },
{
    reveal(command_replay);
    reveal_strlit("");
    let loaded = trace[0].reply->Config_0;
    if loaded is Ok && trace[1].reply->Graphroot_0 is Ok {
        setup_steps(trace, 2, overridden(loaded->Ok_0, options));
        setup_ends(trace, 2, overridden(loaded->Ok_0, options));
    }
}

/// Listing images ends well exactly where Podman was told, in the last call and in no other, to list
/// them, and did. It was told the imagestore that holds, and the graphroot that it had answered in
/// the second call. The library itself prints nothing then, and the code is 0.
pub proof fn listing_images_ends_with_podman<K, D>(
    trace: Trace<K, D>,
    options: OptionsView,
    result: Result<OutputView, ErrorView>,
)
    requires
        tells(trace, CommandView::Images, options, result),
    ensures
        forall|j: int|
            0 <= j < trace.len() && (#[trigger] trace[j]).call is Images ==> j == trace.len() - 1,
        result is Ok <==> trace.last().call is Images && trace.last().reply->Done_0 is Ok,
        result is Ok ==> {
            let loaded = trace[0].reply->Config_0->Ok_0;
            let ctx = trace.last().call->Images_ctx;
            &&& trace.len() >= 5
            &&& loaded_at(trace, 0, loaded)
            &&& has_graphroot_of(trace, 1, ctx)
            &&& adds_store(
                ctx,
                loaded.podman_path,
                chosen_store(loaded, options),
                ctx.graphroot,
            )
            &&& trace.last().reply is Done
            &&& result->Ok_0.return_code == 0
            &&& result->Ok_0.stdout.len() == 0
            &&& result->Ok_0.stderr.len() == 0
        },
{
    reveal(command_replay);
    reveal_strlit("");
    let loaded = trace[0].reply->Config_0;
    if loaded is Ok && trace[1].reply->Graphroot_0 is Ok {
        setup_steps(trace, 2, overridden(loaded->Ok_0, options));
        setup_ends(trace, 2, overridden(loaded->Ok_0, options));
    }
}

/// Preparing the imagestore ends well only after the hook was run and the directory was found or
/// created.
proof fn setup_ends<K, D>(trace: Trace<K, D>, at: int, config: ConfigView<K>)
    requires
        setup_replay(trace, at, config) is Some,
    ensures
        ({
            let (end, result) = setup_replay(trace, at, config)->0;
            &&& trace[at].call is HookRun
            &&& result is Ok ==> end >= at + 2 && store_is_there(
                trace,
                end - 1,
                config.parallax_imagestore,
            )
        }),
{
    setup_steps(trace, at, config);
}

/// The step at one place showed that a directory is there: it was found, or created.
pub open spec fn store_is_there<K, D>(trace: Trace<K, D>, k: int, store: Seq<char>) -> bool {
    ||| trace[k].call == (Call::<K, D>::PathExists { path: store }) && trace[k].reply == Reply::<
        K,
        D,
    >::Exists(Ok(true))
    ||| trace[k].call == (Call::<K, D>::CreateDirAll { path: store }) && trace[k].reply is Accepted
        && trace[k].reply->Accepted_0 is Ok
}

/// The image that a call is about.
pub open spec fn image_of<K, D>(call: Call<K, D>) -> Option<Seq<char>> {
    match call {
        Call::Pull { image, .. } => Some(image),
        Call::ImageExists { image, .. } => Some(image),
        Call::ParallaxExist { image, .. } => Some(image),
        Call::ParallaxMigrate { image, .. } => Some(image),
        Call::ParallaxRmi { image, .. } => Some(image),
        Call::RunFromEdf { edf, .. } => Some(edf.image),
        _ => None,
    }
}

/// Pulling, migrating or removing an image is about that image alone.
pub proof fn only_that_image_is_handled<K, D>(
    trace: Trace<K, D>,
    command: CommandView,
    image: Seq<char>,
    options: OptionsView,
    result: Result<OutputView, ErrorView>,
    k: int,
)
    requires
        tells(trace, command, options, result),
        command == (CommandView::Pull { image }) || command == (CommandView::Migrate { image })
            || command == (CommandView::Rmi { image }),
        0 <= k < trace.len(),
    ensures
        image_of(trace[k].call) is Some ==> image_of(trace[k].call) == Some(image),
{
    reveal(command_replay);
    if command is Rmi {
        let loaded = trace[0].reply->Config_0;
        if loaded is Ok && trace[1].reply->Graphroot_0 is Ok {
            setup_steps(trace, 2, overridden(loaded->Ok_0, options));
        }
    } else {
        prepare_steps(trace, 0, options);
        let (next, prepared) = prepare_replay(trace, 0, options)->0;
        if let Ok(config) = prepared {
            if command is Pull {
                pull_steps(trace, next, image, config, options);
            } else {
                migrate_steps(trace, next, image, config, options);
            }
        }
    }
}

/// A run is about the image of its environment definition alone or, where the file is a manifest,
/// about the images that the manifest names as it was read in this run.
pub proof fn only_images_of_the_file_are_handled<K, D>(
    trace: Trace<K, D>,
    filepath: Seq<char>,
    container_cmd: Seq<Seq<char>>,
    options: OptionsView,
    result: Result<OutputView, ErrorView>,
    k: int,
)
    requires
        tells(trace, (CommandView::Run { filepath, container_cmd }), options, result),
        0 <= k < trace.len(),
        image_of(trace[k].call) is Some,
    ensures
        trace[0].call == (Call::<K, D>::Render { path: filepath }),
        trace[0].reply is Edf,
        match trace[0].reply->Edf_0 {
            Ok(edf) => image_of(trace[k].call) == Some(edf.image),
            Err(_) => exists|r: int|
                {
                    &&& 0 <= r < k
                    &&& (#[trigger] trace[r]).call == (Call::<K, D>::ReadToString {
                        path: filepath,
                    })
                    &&& trace[r].reply is Contents
                    &&& trace[r].reply->Contents_0 is Ok
                    &&& yaml_document(trace[r].reply->Contents_0->Ok_0) is Ok
                    &&& names_image(
                        yaml_document(trace[r].reply->Contents_0->Ok_0)->Ok_0,
                        image_of(trace[k].call)->0,
                    )
                },
        },
{
    let (begin, config) = run_steps(trace, filepath, container_cmd, options, result);
    if let Ok(edf) = trace[0].reply->Edf_0 {
        let go = edf_steps(trace, begin, edf, container_cmd, config, options);
    } else {
        let (go, down) = yaml_steps(trace, begin, filepath, container_cmd, config, options);
        assert(begin + 3 <= k < go);
        manifest_was_read(trace, begin, filepath, container_cmd, config, options);
        let manifest = yaml_document(trace[begin + 2].reply->Contents_0->Ok_0)->Ok_0;
        let image = choose|image: Seq<char>| #[trigger]
            image_list(manifest).contains(image) && provide_step(trace, k, image, config, options);
        image_list_is_the_one(manifest, image_list(manifest));
        assert(names_image(manifest, image));
        assert(image_of(trace[k].call) == Some(image));
        assert(trace[begin + 2].call == (Call::<K, D>::ReadToString { path: filepath }));
    }
}

/// A manifest that images are provided for was read with success.
proof fn manifest_was_read<K, D>(
    trace: Trace<K, D>,
    at: int,
    path: Seq<char>,
    command: Seq<Seq<char>>,
    config: ConfigView<K>,
    options: OptionsView,
)
    requires
        run_yaml_replay(trace, at, path, command, config, options) is Some,
        at + 3 < (run_yaml_replay(trace, at, path, command, config, options)->0).0,
    ensures
        trace[at + 2].reply is Contents,
        trace[at + 2].reply->Contents_0 is Ok,
        yaml_document(trace[at + 2].reply->Contents_0->Ok_0) is Ok,
{
    reveal(run_yaml_replay);
}

/// The last steps of a migration that ended well: Podman answered its graphroot, Parallax migrated
/// the image, and found it afterwards.
pub open spec fn migrated_last<K, D>(trace: Trace<K, D>, image: Seq<char>) -> bool {
    let n = trace.len() as int;
    &&& n >= 7
    &&& trace[n - 4].call is DefaultGraphroot
    &&& trace[n - 2].call is ParallaxMigrate
    &&& trace[n - 2].call->ParallaxMigrate_image == image
    &&& trace[n - 2].reply is Done
    &&& trace[n - 2].reply->Done_0 is Ok
    &&& trace[n - 1].call is ParallaxExist
    &&& trace[n - 1].call->ParallaxExist_image == image
    &&& trace[n - 1].reply == Reply::<K, D>::Found(Ok(true))
}

/// Podman pulled an image in one step, and found it in the next.
pub open spec fn pulled_and_found<K, D>(trace: Trace<K, D>, k: int, image: Seq<char>) -> bool {
    &&& trace[k].call is Pull
    &&& trace[k].call->Pull_image == image
    &&& trace[k].reply is Done
    &&& trace[k].reply->Done_0 is Ok
    &&& trace[k + 1].call is ImageExists
    &&& trace[k + 1].call->ImageExists_image == image
    &&& trace[k + 1].reply == Reply::<K, D>::Found(Ok(true))
}

/// A migration that ended well migrated the image and found it; a pull that ended well did so too,
/// right after Podman had pulled the image, once, and found it.
pub proof fn pulls_and_migrations_end_with_the_image<K, D>(
    trace: Trace<K, D>,
    command: CommandView,
    image: Seq<char>,
    options: OptionsView,
    outcome: OutputView,
)
    requires
        tells(trace, command, options, Ok(outcome)),
        command == (CommandView::Pull { image }) || command == (CommandView::Migrate { image }),
    ensures
        migrated_last(trace, image),
        outcome.return_code == 0,
        outcome.stdout.len() == 0,
        outcome.stderr.len() == 0,
        command is Pull ==> trace.len() >= 10 && pulled_and_found(trace, trace.len() - 6, image),
        forall|j: int|
            0 <= j < trace.len() && (#[trigger] trace[j]).call is Pull ==> command is Pull && j
                == trace.len() - 6,
        forall|j: int|
            0 <= j < trace.len() && (#[trigger] trace[j]).call is ParallaxMigrate ==> j
                == trace.len() - 2,
{
    reveal_strlit("");
    reveal(command_replay);
    prepare_steps(trace, 0, options);
    let (next, prepared) = prepare_replay(trace, 0, options)->0;
    let config = prepared->Ok_0;
    setup_steps(trace, 1, config);
    setup_ends(trace, 1, config);
}

/// The calls that use the imagestore.
pub open spec fn uses_the_store<K, D>(call: Call<K, D>) -> bool {
    match call {
        Call::Images { .. } => true,
        Call::Pull { .. } => true,
        Call::ImageExists { .. } => true,
        Call::ParallaxExist { .. } => true,
        Call::ParallaxMigrate { .. } => true,
        Call::ParallaxRmi { .. } => true,
        Call::RunFromEdf { .. } => true,
        Call::KubePlay { .. } => true,
        _ => false,
    }
}

/// At one place a directory was found or created, after the hook that may create it was run.
pub open spec fn store_prepared<K, D>(trace: Trace<K, D>, k: int, store: Seq<char>) -> bool {
    &&& store_is_there(trace, k, store)
    &&& exists|h: int| 0 <= h < k && (#[trigger] trace[h]).call is HookRun
}

/// The imagestore that holds is there before anything uses it, and the hook was run before that.
pub proof fn the_imagestore_is_there_first<K, D>(
    trace: Trace<K, D>,
    command: CommandView,
    options: OptionsView,
    result: Result<OutputView, ErrorView>,
    k: int,
)
    requires
        tells(trace, command, options, result),
        0 <= k < trace.len(),
        uses_the_store(trace[k].call),
    ensures
        exists|place: int, loaded: ConfigView<K>, j: int|
            {
                &&& place < j < k
                &&& #[trigger] loaded_at(trace, place, loaded)
                &&& #[trigger] store_prepared(trace, j, chosen_store(loaded, options))
            },
{
    match command {
        CommandView::Run { filepath, container_cmd } => {
            let (begin, config) = run_steps(trace, filepath, container_cmd, options, result);
            let place = config_place(trace);
            assert(k >= begin);
            let loaded = trace[place].reply->Config_0->Ok_0;
            prepare_steps(trace, place, options);
            run_prepared(trace, filepath, container_cmd, options, result);
            setup_ends(trace, place + 1, config);
            assert(loaded_at(trace, place, loaded));
            assert(trace[place + 1].call is HookRun);
            assert(store_prepared(trace, begin - 1, chosen_store(loaded, options)));
        },
        CommandView::Images => listing_prepared(trace, command, options, result, k),
        CommandView::Rmi { .. } => listing_prepared(trace, command, options, result, k),
        _ => {
            reveal(command_replay);
            if command is Pull || command is Migrate {
                prepare_steps(trace, 0, options);
                let (next, prepared) = prepare_replay(trace, 0, options)->0;
                assert(k >= next);
                let loaded = trace[0].reply->Config_0->Ok_0;
                setup_ends(trace, 1, overridden(loaded, options));
                assert(loaded_at(trace, 0, loaded));
                assert(trace[1].call is HookRun);
                assert(store_prepared(trace, next - 1, chosen_store(loaded, options)));
            }
        },
    }
}

/// A run that goes on after its first steps has prepared the imagestore.
proof fn run_prepared<K, D>(
    trace: Trace<K, D>,
    filepath: Seq<char>,
    container_cmd: Seq<Seq<char>>,
    options: OptionsView,
    result: Result<OutputView, ErrorView>,
)
    requires
        tells(trace, (CommandView::Run { filepath, container_cmd }), options, result),
        prepare_replay(trace, config_place(trace), options) is Some,
        (prepare_replay(trace, config_place(trace), options)->0).0 < trace.len(),
    ensures
        (prepare_replay(trace, config_place(trace), options)->0).1 is Ok,
{
    reveal(command_replay);
    reveal(run_replay);
}

/// Listing and removing images comes after the imagestore was prepared.
proof fn listing_prepared<K, D>(
    trace: Trace<K, D>,
    command: CommandView,
    options: OptionsView,
    result: Result<OutputView, ErrorView>,
    k: int,
)
    requires
        tells(trace, command, options, result),
        command is Images || command is Rmi,
        0 <= k < trace.len(),
        uses_the_store(trace[k].call),
    ensures
        exists|place: int, loaded: ConfigView<K>, j: int|
            {
                &&& place < j < k
                &&& #[trigger] loaded_at(trace, place, loaded)
                &&& #[trigger] store_prepared(trace, j, chosen_store(loaded, options))
            },
{
    reveal(command_replay);
    let loaded = trace[0].reply->Config_0->Ok_0;
    let config = overridden(loaded, options);
    if trace[0].reply->Config_0 is Ok && trace[1].reply->Graphroot_0 is Ok {
        setup_steps(trace, 2, config);
        setup_ends(trace, 2, config);
        let (next, prepared) = setup_replay(trace, 2, config)->0;
        assert(k == next);
        assert(loaded_at(trace, 0, loaded));
        assert(trace[2].call is HookRun);
        assert(store_prepared(trace, next - 1, chosen_store(loaded, options)));
    }
}

/// The configuration is loaded, the user looked up and the identifier of a run drawn at most once.
pub proof fn each_is_asked_once<K, D>(
    trace: Trace<K, D>,
    command: CommandView,
    options: OptionsView,
    result: Result<OutputView, ErrorView>,
    j: int,
    k: int,
)
    requires
        tells(trace, command, options, result),
        0 <= j < trace.len(),
        0 <= k < trace.len(),
    ensures
        trace[j].call is LoadConfig && trace[k].call is LoadConfig ==> j == k,
        trace[j].call is CurrentUser && trace[k].call is CurrentUser ==> j == k,
        trace[j].call is NewRunId && trace[k].call is NewRunId ==> j == k,
{
    asked_where(trace, command, options, result, j);
    asked_where(trace, command, options, result, k);
}

/// The place at which something is asked that is asked once.
spec fn asked_place<K, D>(
    trace: Trace<K, D>,
    command: CommandView,
    options: OptionsView,
    call: Call<K, D>,
) -> int {
    if command is Run {
        let place = config_place(trace);
        let begin = (prepare_replay(trace, place, options)->0).0;
        if call is LoadConfig {
            place
        } else if (call is NewRunId) == (trace[0].reply->Edf_0 is Ok) {
            begin
        } else {
            begin + 1
        }
    } else {
        0
    }
}

/// Where something is asked that is asked once.
proof fn asked_where<K, D>(
    trace: Trace<K, D>,
    command: CommandView,
    options: OptionsView,
    result: Result<OutputView, ErrorView>,
    k: int,
)
    requires
        tells(trace, command, options, result),
        0 <= k < trace.len(),
    ensures
        ({
            let call = trace[k].call;
            call is LoadConfig || call is CurrentUser || call is NewRunId ==> k == asked_place(
                trace,
                command,
                options,
                call,
            )
        }),
{
    match command {
        CommandView::Run { filepath, container_cmd } => {
            let (begin, config) = run_steps(trace, filepath, container_cmd, options, result);
            if k >= begin {
                if let Ok(edf) = trace[0].reply->Edf_0 {
                    let go = edf_steps(trace, begin, edf, container_cmd, config, options);
                } else {
                    let (go, down) = yaml_steps(
                        trace,
                        begin,
                        filepath,
                        container_cmd,
                        config,
                        options,
                    );
                }
            }
        },
        CommandView::Images => listing_asks(trace, command, options, result, k),
        CommandView::Rmi { .. } => listing_asks(trace, command, options, result, k),
        _ => {
            reveal(command_replay);
            if command is Pull || command is Migrate {
                prepare_steps(trace, 0, options);
                let (next, prepared) = prepare_replay(trace, 0, options)->0;
                if let Ok(config) = prepared {
                    match command {
                        CommandView::Pull { image } => pull_steps(
                            trace,
                            next,
                            image,
                            config,
                            options,
                        ),
                        CommandView::Migrate { image } => migrate_steps(
                            trace,
                            next,
                            image,
                            config,
                            options,
                        ),
                        _ => {},
                    }
                }
            }
        },
    }
}

/// Where listing and removing images asks for the configuration.
proof fn listing_asks<K, D>(
    trace: Trace<K, D>,
    command: CommandView,
    options: OptionsView,
    result: Result<OutputView, ErrorView>,
    k: int,
)
    requires
        tells(trace, command, options, result),
        command is Images || command is Rmi,
        0 <= k < trace.len(),
    ensures
        trace[k].call is LoadConfig || trace[k].call is CurrentUser || trace[k].call is NewRunId
            ==> k == 0,
{
    reveal(command_replay);
    let loaded = trace[0].reply->Config_0;
    if loaded is Ok && trace[1].reply->Graphroot_0 is Ok {
        setup_steps(trace, 2, overridden(loaded->Ok_0, options));
    }
}

/// An image was looked for in the imagestore, to see whether it has to be pulled.
pub open spec fn looked_for<K, D>(trace: Trace<K, D>, k: int) -> bool {
    trace[k].call is ParallaxExist && trace[k].call->ParallaxExist_ctx.graphroot is None
}

/// Pulling an image does not look for it in this way.
proof fn pull_looks_for_nothing<K, D>(
    trace: Trace<K, D>,
    at: int,
    image: Seq<char>,
    config: ConfigView<K>,
    options: OptionsView,
)
    requires
        pull_replay(trace, at, image, config, options) is Some,
    ensures
        forall|k: int|
            at <= k < (pull_replay(trace, at, image, config, options)->0).0
                ==> !#[trigger] looked_for(trace, k),
{
}

/// Ascending images are looked for in their order.
proof fn provide_all_in_order<K, D>(
    trace: Trace<K, D>,
    at: int,
    images: Seq<Seq<char>>,
    config: ConfigView<K>,
    options: OptionsView,
    output: OutputView,
)
    requires
        provide_all_replay(trace, at, images, config, options, output) is Some,
        ascending(images),
    ensures
        ({
            let end = (provide_all_replay(trace, at, images, config, options, output)->0).0;
            &&& forall|k: int|
                at <= k < end && #[trigger] looked_for(trace, k) ==> images.contains(
                    trace[k].call->ParallaxExist_image,
                )
            &&& forall|j: int, k: int|
                at <= j < k < end && #[trigger] looked_for(trace, j) && #[trigger] looked_for(
                    trace,
                    k,
                ) ==> precedes(
                    trace[j].call->ParallaxExist_image,
                    trace[k].call->ParallaxExist_image,
                )
        }),
    decreases images.len(),
{
    if images.len() > 0 {
        let (next, first) = provide_replay(trace, at, images[0], config, options, output)->0;
        if pull_replay(trace, at + 1, images[0], config, options) is Some {
            pull_looks_for_nothing(trace, at + 1, images[0], config, options);
        }
        assert(images.contains(images[0]));
        assert forall|k: int| at < k < next implies !#[trigger] looked_for(trace, k) by {}
        if let Ok(provided) = first {
            let rest = images.skip(1);
            assert forall|i: int, j: int| 0 <= i < j < rest.len() implies precedes(
                #[trigger] rest[i],
                #[trigger] rest[j],
            ) by {
                assert(rest[i] == images[i + 1] && rest[j] == images[j + 1]);
            }
            provide_all_in_order(trace, next, rest, config, options, provided);
            let end = (provide_all_replay(trace, next, rest, config, options, provided)->0).0;
            assert forall|k: int| next <= k < end && #[trigger] looked_for(trace, k) implies {
                &&& images.contains(trace[k].call->ParallaxExist_image)
                &&& precedes(images[0], trace[k].call->ParallaxExist_image)
            } by {
                let image = trace[k].call->ParallaxExist_image;
                let i = choose|i: int| 0 <= i < rest.len() && rest[i] == image;
                assert(images[i + 1] == image);
            }
        }
    }
}

/// The images of a manifest are looked for one after the other, in the order of their characters, and
/// each at most once; the image of an environment definition is looked for at most once.
pub proof fn images_are_looked_for_in_order<K, D>(
    trace: Trace<K, D>,
    filepath: Seq<char>,
    container_cmd: Seq<Seq<char>>,
    options: OptionsView,
    result: Result<OutputView, ErrorView>,
    j: int,
    k: int,
)
    requires
        tells(trace, (CommandView::Run { filepath, container_cmd }), options, result),
        0 <= j < k < trace.len(),
        looked_for(trace, j),
        looked_for(trace, k),
    ensures
        trace[0].reply->Edf_0 is Err,
        comes_before(
            trace[j].call->ParallaxExist_image,
            trace[k].call->ParallaxExist_image,
        ),
{
    let (begin, config) = run_steps(trace, filepath, container_cmd, options, result);
    assert(j >= begin);
    if let Ok(edf) = trace[0].reply->Edf_0 {
        let go = edf_steps(trace, begin, edf, container_cmd, config, options);
        assert(begin + 2 <= j);
        reveal(run_edf_replay);
        if pull_replay(trace, begin + 3, edf.image, config, options) is Some {
            pull_looks_for_nothing(trace, begin + 3, edf.image, config, options);
        }
        let (next, provided) = provide_replay(
            trace,
            begin + 2,
            edf.image,
            config,
            options,
            succeeded(""@),
        )->0;
        if k >= next {
            let (ready, interactive, tty) = terminals_replay(trace, next)->0;
            assert(k < ready || trace[ready].call is RunFromEdf);
        }
    } else {
        let (go, down) = yaml_steps(trace, begin, filepath, container_cmd, config, options);
        assert(begin + 3 <= j && k < go);
        manifest_was_read(trace, begin, filepath, container_cmd, config, options);
        let images = image_list(yaml_document(trace[begin + 2].reply->Contents_0->Ok_0)->Ok_0);
        image_list_is_the_one(
            yaml_document(trace[begin + 2].reply->Contents_0->Ok_0)->Ok_0,
            images,
        );
        pod_looks_in_order(trace, begin, filepath, container_cmd, config, options, j, k);
        texts_are_ordered_by_their_first_difference(
            trace[j].call->ParallaxExist_image,
            trace[k].call->ParallaxExist_image,
        );
    }
}

/// A pod looks for its images in order.
proof fn pod_looks_in_order<K, D>(
    trace: Trace<K, D>,
    at: int,
    path: Seq<char>,
    command: Seq<Seq<char>>,
    config: ConfigView<K>,
    options: OptionsView,
    j: int,
    k: int,
)
    requires
        run_yaml_replay(trace, at, path, command, config, options) is Some,
        at + 3 <= j < k < (run_yaml_replay(trace, at, path, command, config, options)->0).0,
        looked_for(trace, j),
        looked_for(trace, k),
        ascending(image_list(yaml_document(trace[at + 2].reply->Contents_0->Ok_0)->Ok_0)),
    ensures
        precedes(trace[j].call->ParallaxExist_image, trace[k].call->ParallaxExist_image),
{
    reveal(run_yaml_replay);
    let manifest = yaml_document(trace[at + 2].reply->Contents_0->Ok_0)->Ok_0;
    let images = image_list(manifest);
    provide_all_in_order(trace, at + 3, images, config, options, succeeded(""@));
    let (go, provided) = provide_all_replay(
        trace,
        at + 3,
        images,
        config,
        options,
        succeeded(""@),
    )->0;
    if k >= go {
        let down = if trace[go].reply->Done_0 is Ok {
            go + 2
        } else {
            go + 1
        };
        if k > down {
            let ctx = pod_ctx(
                config,
                trace[at].reply->User_0->Ok_0.uid,
                trace[at + 1].reply->Id_0,
            );
            provide_all_steps(trace, at + 3, images, config, options, succeeded(""@));
            finalize_steps(trace, down + 1, ctx, trace[down].reply->Done_0);
            assert(cleanup_call(trace[k].call, ctx));
        }
    }
}

} // verus!
