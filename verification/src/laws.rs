//! What holds of every execution of a command.

use vstd::prelude::*;

use crate::cleanup::{
    elapsed_since, finalize_replay, pause_nanos, removal_replay, rootdirs_replay, timeout_warning,
    CLEANUP_TIMEOUT,
};
use crate::command::{CommandView, FormatOutput, OptionsView};
use crate::config::{ConfigView, EdfView};
use crate::context::{
    rootdirs_of, roots_base, run_ctx, simple_form, CurrentUser, PodmanView, RunId,
};
use crate::deps::RemovalView;
use crate::error::ErrorView;
use crate::execute::command_replay;
use crate::loading::with_options;
use crate::manifest::{image_list, image_list_is_the_one, names_image, yaml_document};
use crate::output::{succeeded, OutputView};
use crate::run::{
    pod_ctx, prepare_replay, provide_all_replay, run_edf_replay, run_replay, run_yaml_replay,
};
use crate::shapes::{edf_steps, heeds, prepare_steps, provide_step, run_steps, yaml_steps};
use crate::steps::{
    cleanup_call, found_in_store, migrate_steps, missed_in_store, pull_steps, setup_steps,
};
use crate::text::{hex_digit, parent_of, parent_of_a_name};
use crate::trace::{Call, Reply, Trace};

verus! {

/// A trace tells of the execution of a command with that result, and of nothing else.
pub open spec fn tells<K, D>(
    trace: Trace<K, D>,
    command: CommandView,
    options: OptionsView,
    result: Result<OutputView, ErrorView>,
) -> bool {
    command_replay(trace, 0, command, options) == Some((trace.len() as int, result))
}

/// Validating a file takes one call and always yields an outcome: code 0 for a valid file, and code
/// 1 with the reason for an invalid one. No configuration is loaded, and neither Podman nor
/// Parallax is called.
pub proof fn validate_only_validates<K, D>(
    trace: Trace<K, D>,
    filepath: Seq<char>,
    output: FormatOutput,
    options: OptionsView,
    result: Result<OutputView, ErrorView>,
)
    requires
        tells(trace, (CommandView::Validate { filepath, output }), options, result),
    ensures
        trace.len() == 1,
        trace[0].call == (Call::<K, D>::Validate { path: filepath }),
        result is Ok,
        match trace[0].reply->Accepted_0 {
            Ok(()) => {
                &&& result->Ok_0.return_code == 0
                &&& result->Ok_0.stdout == filepath + " is a valid EDF file"@
                &&& result->Ok_0.stderr.len() == 0
            },
            Err(reason) => {
                &&& result->Ok_0.return_code == 1
                &&& result->Ok_0.stdout == filepath + " is an INVALID EDF file"@
                &&& result->Ok_0.stderr == reason
            },
        },
{
    reveal(command_replay);
}

/// Rendering a file takes one call and always yields an outcome. No configuration is loaded, and
/// neither Podman nor Parallax is called.
pub proof fn render_only_renders<K, D>(
    trace: Trace<K, D>,
    filepath: Seq<char>,
    output: FormatOutput,
    options: OptionsView,
    result: Result<OutputView, ErrorView>,
)
    requires
        tells(trace, (CommandView::Render { filepath, output }), options, result),
    ensures
        trace.len() == 1,
        trace[0].call == (Call::<K, D>::Render { path: filepath }),
        result is Ok,
        match trace[0].reply->Edf_0 {
            Ok(edf) => {
                &&& result->Ok_0.return_code == 0
                &&& edf.json matches Some(text) ==> result->Ok_0.stdout == text
                &&& edf.json is None ==> result->Ok_0.stdout == "ERROR"@
                &&& result->Ok_0.stderr.len() == 0
            },
            Err(reason) => {
                &&& result->Ok_0.return_code == 1
                &&& result->Ok_0.stdout.len() == 0
                &&& result->Ok_0.stderr == reason
            },
        },
{
    reveal_strlit("");
    reveal(command_replay);
}

/// A file that is neither an environment definition nor YAML is refused after it was read, before a
/// configuration is loaded.
pub proof fn unsupported_input_is_refused_first<K, D>(
    trace: Trace<K, D>,
    filepath: Seq<char>,
    container_cmd: Seq<Seq<char>>,
    options: OptionsView,
    result: Result<OutputView, ErrorView>,
    contents: Seq<char>,
)
    requires
        tells(trace, (CommandView::Run { filepath, container_cmd }), options, result),
        trace[0].reply is Edf,
        trace[0].reply->Edf_0 is Err,
        trace[1].reply == Reply::<K, D>::Contents(Ok(contents)),
        yaml_document(contents) is Err,
    ensures
        trace.len() == 2,
        trace[0].call == (Call::<K, D>::Render { path: filepath }),
        trace[1].call == (Call::<K, D>::ReadToString { path: filepath }),
        result == Err::<OutputView, ErrorView>(
            ErrorView::UnsupportedInput(filepath + " is not valid EDF nor YAML"@),
        ),
{
    reveal(command_replay);
    reveal(run_replay);
}

/// A container is run only once its image was found in the imagestore.
pub proof fn containers_run_from_the_imagestore<K, D>(
    trace: Trace<K, D>,
    filepath: Seq<char>,
    container_cmd: Seq<Seq<char>>,
    options: OptionsView,
    result: Result<OutputView, ErrorView>,
    k: int,
)
    requires
        tells(trace, (CommandView::Run { filepath, container_cmd }), options, result),
        0 <= k < trace.len(),
        trace[k].call is RunFromEdf,
    ensures
        trace[0].reply == Reply::<K, D>::Edf(Ok(trace[k].call->RunFromEdf_edf)),
        exists|j: int|
            0 <= j < k && #[trigger] found_in_store(
                trace,
                j,
                trace[k].call->RunFromEdf_edf.image,
            ),
{
    let (begin, config) = run_steps(trace, filepath, container_cmd, options, result);
    if begin < trace.len() {
        if let Ok(edf) = trace[0].reply->Edf_0 {
            let go = edf_steps(trace, begin, edf, container_cmd, config, options);
            assert(k == go);
        } else {
            let (go, down) = yaml_steps(trace, begin, filepath, container_cmd, config, options);
        }
    }
}

/// A pod is played only once every image that its manifest names was found in the imagestore.
pub proof fn pods_run_from_the_imagestore<K, D>(
    trace: Trace<K, D>,
    filepath: Seq<char>,
    container_cmd: Seq<Seq<char>>,
    options: OptionsView,
    result: Result<OutputView, ErrorView>,
    k: int,
)
    requires
        tells(trace, (CommandView::Run { filepath, container_cmd }), options, result),
        0 <= k < trace.len(),
        trace[k].call is KubePlay,
    ensures
        trace[k].call->KubePlay_path == filepath,
        exists|r: int, contents: Seq<char>|
            {
                &&& 0 <= r < k
                &&& trace[r].call == (Call::<K, D>::ReadToString { path: filepath })
                &&& trace[r].reply == Reply::<K, D>::Contents(Ok(contents))
                &&& #[trigger] images_found(trace, r, k, contents)
            },
{
    let (begin, config) = run_steps(trace, filepath, container_cmd, options, result);
    if begin < trace.len() {
        if let Ok(edf) = trace[0].reply->Edf_0 {
            let go = edf_steps(trace, begin, edf, container_cmd, config, options);
        } else {
            let (go, down) = yaml_steps(trace, begin, filepath, container_cmd, config, options);
            assert(k == go);
            let contents = trace[begin + 2].reply->Contents_0->Ok_0;
            let manifest = yaml_document(contents)->Ok_0;
            assert forall|image: Seq<char>| #[trigger] names_image(manifest, image) implies exists|
                j: int,
            |
                begin + 2 < j < k && #[trigger] found_in_store(trace, j, image) by {
                image_list_is_the_one(manifest, image_list(manifest));
                assert(image_list(manifest).contains(image));
            }
            assert(images_found(trace, begin + 2, k, contents));
        }
    }
}

/// All images that a manifest names were found in the imagestore, in steps between two places.
pub open spec fn images_found<K, D>(
    trace: Trace<K, D>,
    from: int,
    to: int,
    contents: Seq<char>,
) -> bool {
    &&& yaml_document(contents) is Ok
    &&& forall|image: Seq<char>| #[trigger]
        names_image(yaml_document(contents)->Ok_0, image) ==> exists|j: int|
            from < j < to && #[trigger] found_in_store(trace, j, image)
}

/// A run pulls only images that it has just missed in the imagestore.
pub proof fn runs_pull_only_what_is_missing<K, D>(
    trace: Trace<K, D>,
    filepath: Seq<char>,
    container_cmd: Seq<Seq<char>>,
    options: OptionsView,
    result: Result<OutputView, ErrorView>,
    k: int,
)
    requires
        tells(trace, (CommandView::Run { filepath, container_cmd }), options, result),
        0 <= k < trace.len(),
        trace[k].call is Pull,
    ensures
        k >= 2,
        missed_in_store(trace, k - 2, trace[k].call->Pull_image),
{
    let (begin, config) = run_steps(trace, filepath, container_cmd, options, result);
    if begin < trace.len() {
        if let Ok(edf) = trace[0].reply->Edf_0 {
            let go = edf_steps(trace, begin, edf, container_cmd, config, options);
            assert(provide_step(trace, k, edf.image, config, options));
        } else {
            let (go, down) = yaml_steps(trace, begin, filepath, container_cmd, config, options);
        }
    }
}

/// A container that was run is cleaned up in the next step, whatever came of it, and no second one
/// is run.
pub proof fn containers_are_cleaned_up<K, D>(
    trace: Trace<K, D>,
    filepath: Seq<char>,
    container_cmd: Seq<Seq<char>>,
    options: OptionsView,
    result: Result<OutputView, ErrorView>,
    k: int,
)
    requires
        tells(trace, (CommandView::Run { filepath, container_cmd }), options, result),
        0 <= k < trace.len(),
        trace[k].call is RunFromEdf,
    ensures
        trace[k].call->RunFromEdf_command == container_cmd,
        k + 1 < trace.len(),
        trace[k + 1].call == (Call::<K, D>::CleanupContainer {
            name: trace[k].call->RunFromEdf_container.name,
            ctx: trace[k].call->RunFromEdf_ctx,
        }),
        forall|j: int|
            0 <= j < trace.len() && (#[trigger] trace[j]).call is RunFromEdf ==> j == k,
{
    let (begin, config) = run_steps(trace, filepath, container_cmd, options, result);
    if begin < trace.len() {
        if let Ok(edf) = trace[0].reply->Edf_0 {
            let go = edf_steps(trace, begin, edf, container_cmd, config, options);
            assert(k == go);
            assert forall|j: int| 0 <= j < trace.len() && (
            #[trigger] trace[j]).call is RunFromEdf implies j == k by {
                if begin <= j && j < go {
                    assert(!provide_step(trace, j, edf.image, config, options));
                }
            }
        } else {
            let (go, down) = yaml_steps(trace, begin, filepath, container_cmd, config, options);
        }
    }
}

/// A pod that was played, with or without success, is taken down by force, and no second one is
/// played. The command is run in between, and only where the pod was played with success.
pub proof fn pods_are_taken_down<K, D>(
    trace: Trace<K, D>,
    filepath: Seq<char>,
    container_cmd: Seq<Seq<char>>,
    options: OptionsView,
    result: Result<OutputView, ErrorView>,
    k: int,
)
    requires
        tells(trace, (CommandView::Run { filepath, container_cmd }), options, result),
        0 <= k < trace.len(),
        trace[k].call is KubePlay,
    ensures
        ({
            let ctx = trace[k].call->KubePlay_ctx;
            let played = trace[k].reply->Done_0 is Ok;
            let down: int = if played {
                k + 2
            } else {
                k + 1
            };
            &&& down < trace.len()
            &&& trace[k].reply is Done
            &&& trace[down].call == (Call::<K, D>::KubeDown { path: filepath, force: true, ctx })
            &&& played ==> trace[k + 1].call is ExecInteractive
                && trace[k + 1].call->ExecInteractive_ctx == ctx
                && trace[k + 1].call->ExecInteractive_command == container_cmd
            &&& forall|j: int|
                #![trigger trace[j]]
                0 <= j < trace.len() ==> {
                    &&& trace[j].call is KubePlay ==> j == k
                    &&& trace[j].call is KubeDown ==> j == down
                    &&& trace[j].call is ExecInteractive ==> played && j == k + 1
                }
        }),
{
    let (begin, config) = run_steps(trace, filepath, container_cmd, options, result);
    if begin < trace.len() {
        if let Ok(edf) = trace[0].reply->Edf_0 {
            let go = edf_steps(trace, begin, edf, container_cmd, config, options);
        } else {
            let (go, down) = yaml_steps(trace, begin, filepath, container_cmd, config, options);
            assert(k == go);
        }
    }
}

/// The code of a run that ended well is the one with which the container, or the command in the
/// pod, ended.
pub proof fn runs_keep_the_exit_code<K, D>(
    trace: Trace<K, D>,
    filepath: Seq<char>,
    container_cmd: Seq<Seq<char>>,
    options: OptionsView,
    outcome: OutputView,
)
    requires
        tells(trace, (CommandView::Run { filepath, container_cmd }), options, Ok(outcome)),
    ensures
        exists|k: int|
            {
                &&& 0 <= k < trace.len()
                &&& (#[trigger] trace[k]).call is RunFromEdf || trace[k].call is ExecInteractive
                &&& trace[k].reply == Reply::<K, D>::Code(Ok(outcome.return_code))
            },
{
    let (begin, config) = run_steps(trace, filepath, container_cmd, options, Ok(outcome));
    if let Ok(edf) = trace[0].reply->Edf_0 {
        let go = edf_steps(trace, begin, edf, container_cmd, config, options);
        assert(trace[go].reply == Reply::<K, D>::Code(Ok(outcome.return_code)));
    } else {
        let (go, down) = yaml_steps(trace, begin, filepath, container_cmd, config, options);
        assert(trace[go + 1].reply == Reply::<K, D>::Code(Ok(outcome.return_code)));
    }
}

/// The step at one place cleaned up, with success, the workload whose directories are under a path.
pub open spec fn workload_cleaned<K, D>(trace: Trace<K, D>, k: int, path: Seq<char>) -> bool {
    &&& match trace[k].call {
        Call::CleanupContainer { ctx, .. } => rootdirs_of(ctx) == Some(path),
        Call::KubeDown { ctx, .. } => rootdirs_of(ctx) == Some(path),
        _ => false,
    }
    &&& trace[k].reply is Done
    &&& trace[k].reply->Done_0 is Ok
}

/// Whatever the command, a directory is removed only where it is the one of this run, named by the
/// user and by the identifier of the run, and only after the workload of this run was cleaned up
/// with success. A command that runs nothing removes no directory.
pub proof fn only_the_directories_of_the_run_are_removed<K, D>(
    trace: Trace<K, D>,
    command: CommandView,
    options: OptionsView,
    result: Result<OutputView, ErrorView>,
    k: int,
)
    requires
        tells(trace, command, options, result),
        0 <= k < trace.len(),
        trace[k].call is RemoveDirAll,
    ensures
        command is Run,
        exists|user: CurrentUser, id: RunId|
            {
                &&& trace[k].call->RemoveDirAll_path == #[trigger] roots_base(user.uid, id)
                &&& answered_before(trace, k, Call::CurrentUser, Reply::User(Ok(user)))
                &&& answered_before(trace, k, Call::NewRunId, Reply::Id(id))
            },
        exists|j: int|
            0 <= j < k && #[trigger] workload_cleaned(trace, j, trace[k].call->RemoveDirAll_path),
{
    reveal(command_replay);
    match command {
        CommandView::Validate { .. } => {},
        CommandView::Render { .. } => {},
        CommandView::Images => {
            listing_removes_nothing(trace, command, options, result, k);
        },
        CommandView::Rmi { .. } => {
            listing_removes_nothing(trace, command, options, result, k);
        },
        CommandView::Pull { image } => {
            prepare_steps(trace, 0, options);
            let (next, prepared) = prepare_replay(trace, 0, options)->0;
            if let Ok(config) = prepared {
                pull_steps(trace, next, image, config, options);
            }
        },
        CommandView::Migrate { image } => {
            prepare_steps(trace, 0, options);
            let (next, prepared) = prepare_replay(trace, 0, options)->0;
            if let Ok(config) = prepared {
                migrate_steps(trace, next, image, config, options);
            }
        },
        CommandView::Run { filepath, container_cmd } => {
            run_removes_its_own(trace, filepath, container_cmd, options, result, k);
        },
    }
}

/// Listing and removing images removes no directory.
proof fn listing_removes_nothing<K, D>(
    trace: Trace<K, D>,
    command: CommandView,
    options: OptionsView,
    result: Result<OutputView, ErrorView>,
    k: int,
)
    requires
        tells(trace, command, options, result),
        command is Images || command is Rmi,
        0 <= k < trace.len(),
    ensures
        !(trace[k].call is RemoveDirAll),
{
    reveal(command_replay);
    let loaded = trace[0].reply->Config_0;
    if let Ok(config) = with_options(loaded, options) {
        if trace[1].reply->Graphroot_0 is Ok {
            setup_steps(trace, 2, config);
        }
    }
}

/// A run removes only its own directories.
proof fn run_removes_its_own<K, D>(
    trace: Trace<K, D>,
    filepath: Seq<char>,
    container_cmd: Seq<Seq<char>>,
    options: OptionsView,
    result: Result<OutputView, ErrorView>,
    k: int,
)
    requires
        tells(trace, (CommandView::Run { filepath, container_cmd }), options, result),
        0 <= k < trace.len(),
        trace[k].call is RemoveDirAll,
    ensures
        exists|user: CurrentUser, id: RunId|
            {
                &&& trace[k].call->RemoveDirAll_path == #[trigger] roots_base(user.uid, id)
                &&& answered_before(trace, k, Call::CurrentUser, Reply::User(Ok(user)))
                &&& answered_before(trace, k, Call::NewRunId, Reply::Id(id))
            },
        exists|j: int|
            0 <= j < k && #[trigger] workload_cleaned(trace, j, trace[k].call->RemoveDirAll_path),
{
    let (begin, config) = run_steps(trace, filepath, container_cmd, options, result);
    if begin < trace.len() {
        if let Ok(edf) = trace[0].reply->Edf_0 {
            let go = edf_steps(trace, begin, edf, container_cmd, config, options);
            let user = trace[begin + 1].reply->User_0->Ok_0;
            let id = trace[begin].reply->Id_0;
            run_directories(config, user.uid, id);
            assert(cleanup_call(trace[k].call, run_ctx(config, user.uid, id)));
            assert(trace[k].call->RemoveDirAll_path == roots_base(user.uid, id));
            assert(step_is(trace, begin + 1, Call::CurrentUser, Reply::User(Ok(user))));
            assert(step_is(trace, begin, Call::NewRunId, Reply::Id(id)));
            assert(workload_cleaned(trace, go + 1, roots_base(user.uid, id)));
        } else {
            let (go, down) = yaml_steps(trace, begin, filepath, container_cmd, config, options);
            let user = trace[begin].reply->User_0->Ok_0;
            let id = trace[begin + 1].reply->Id_0;
            run_directories(config, user.uid, id);
            assert(cleanup_call(trace[k].call, pod_ctx(config, user.uid, id)));
            assert(rootdirs_of(pod_ctx(config, user.uid, id)) == rootdirs_of(
                run_ctx(config, user.uid, id),
            ));
            assert(trace[k].call->RemoveDirAll_path == roots_base(user.uid, id));
            assert(step_is(trace, begin, Call::CurrentUser, Reply::User(Ok(user))));
            assert(step_is(trace, begin + 1, Call::NewRunId, Reply::Id(id)));
            assert(workload_cleaned(trace, down, roots_base(user.uid, id)));
        }
    }
}

/// The step at one place.
pub open spec fn step_is<K, D>(
    trace: Trace<K, D>,
    k: int,
    call: Call<K, D>,
    reply: Reply<K, D>,
) -> bool {
    trace[k].call == call && trace[k].reply == reply
}

/// A step that took place before another one.
pub open spec fn answered_before<K, D>(
    trace: Trace<K, D>,
    k: int,
    call: Call<K, D>,
    reply: Reply<K, D>,
) -> bool {
    exists|j: int| 0 <= j < k && #[trigger] step_is(trace, j, call, reply)
}

/// The graphroot and the runroot of a run are two different directories in the directory of the
/// run, which is therefore what is removed after the run.
pub proof fn run_directories<K>(config: ConfigView<K>, uid: u32, run_id: RunId)
    ensures
        ({
            let ctx = run_ctx(config, uid, run_id);
            let base = roots_base(uid, run_id);
            &&& parent_of(ctx.graphroot->0) == Some(base)
            &&& parent_of(ctx.runroot->0) == Some(base)
            &&& ctx.graphroot->0 != ctx.runroot->0
            &&& rootdirs_of(ctx) == Some(base)
        }),
{
    reveal_strlit("/graphroot");
    reveal_strlit("/runroot");
    reveal_strlit("graphroot");
    reveal_strlit("runroot");
    let base = roots_base(uid, run_id);
    let tag = run_id.tag();
    assert(base.last() == tag[11]);
    assert(tag[11] == simple_form(run_id.bits)[11]);
    let nibble = ((run_id.bits >> ((4 * (31 - 11int)) as u128)) & 0xf) as nat;
    assert(tag[11] == hex_digit(nibble));
    let bits = run_id.bits;
    let shift: u128 = (4 * (31 - 11int)) as u128;
    assert((bits >> shift) & 0xf <= 0xf) by (bit_vector);
    assert(tag[11] != '/' && tag[11] != '.');
    assert(base + "/graphroot"@ =~= base + seq!['/'] + "graphroot"@);
    assert(base + "/runroot"@ =~= base + seq!['/'] + "runroot"@);
    parent_of_a_name(base, "graphroot"@);
    parent_of_a_name(base, "runroot"@);
    assert((base + "/graphroot"@).len() != (base + "/runroot"@).len());
}

/// A call that passes the verbosity on, where it takes one.
pub open spec fn obeys_verbosity<K, D>(call: Call<K, D>, verbosity: bool) -> bool {
    match call {
        Call::Pull { verbose, .. } => verbose == verbosity,
        Call::ParallaxMigrate { verbose, .. } => verbose == verbosity,
        Call::ParallaxRmi { verbose, .. } => verbose == verbosity,
        _ => true,
    }
}

/// A call that knows of no other imagestore.
pub open spec fn obeys_imagestore<K, D>(call: Call<K, D>, store: Seq<char>) -> bool {
    match call {
        Call::HookRun { config, arguments, .. } => config.parallax_imagestore == store && arguments
            == seq![store],
        Call::PathExists { path } => path == store,
        Call::CreateDirAll { path } => path == store,
        Call::Pull { ctx, .. } => ctx.ro_store is None,
        Call::ImageExists { ctx, .. } => ctx.ro_store is None,
        Call::DefaultGraphroot { ctx } => ctx.ro_store == Some(store),
        Call::Images { ctx } => ctx.ro_store == Some(store),
        Call::ParallaxExist { ctx, .. } => ctx.ro_store == Some(store),
        Call::ParallaxMigrate { ctx, .. } => ctx.ro_store == Some(store),
        Call::ParallaxRmi { ctx, .. } => ctx.ro_store == Some(store),
        Call::RunFromEdf { ctx, .. } => ctx.ro_store == Some(store),
        Call::ExecInteractive { ctx, .. } => ctx.ro_store == Some(store),
        Call::KubePlay { ctx, .. } => ctx.ro_store == Some(store),
        Call::KubeDown { ctx, .. } => ctx.ro_store == Some(store),
        Call::CleanupContainer { ctx, .. } => ctx.ro_store == Some(store),
        _ => true,
    }
}

/// A call that heeds the options of the invocation.
pub open spec fn obeys<K, D>(call: Call<K, D>, options: OptionsView) -> bool {
    &&& obeys_verbosity(call, options.verbose)
    &&& options.parallax_imagestore is Some ==> obeys_imagestore(
        call,
        options.parallax_imagestore->0,
    )
}

/// Whatever the command, every call heeds the options: the verbosity that they ask for reaches
/// every pull, migration and removal, and an imagestore that they name is the only one that any
/// call is told of.
pub proof fn options_reach_every_call<K, D>(
    trace: Trace<K, D>,
    command: CommandView,
    options: OptionsView,
    result: Result<OutputView, ErrorView>,
    k: int,
)
    requires
        tells(trace, command, options, result),
        0 <= k < trace.len(),
    ensures
        obeys(trace[k].call, options),
{
    reveal(command_replay);
    match command {
        CommandView::Validate { .. } => {},
        CommandView::Render { .. } => {},
        CommandView::Images => {
            listing_obeys(trace, command, options, result, k);
        },
        CommandView::Rmi { .. } => {
            listing_obeys(trace, command, options, result, k);
        },
        CommandView::Pull { image } => {
            prepare_steps(trace, 0, options);
            let (next, prepared) = prepare_replay(trace, 0, options)->0;
            if let Ok(config) = prepared {
                pull_steps(trace, next, image, config, options);
            }
        },
        CommandView::Migrate { image } => {
            prepare_steps(trace, 0, options);
            let (next, prepared) = prepare_replay(trace, 0, options)->0;
            if let Ok(config) = prepared {
                migrate_steps(trace, next, image, config, options);
            }
        },
        CommandView::Run { filepath, container_cmd } => {
            run_obeys(trace, filepath, container_cmd, options, result, k);
        },
    }
}

/// Listing and removing images heeds the options.
proof fn listing_obeys<K, D>(
    trace: Trace<K, D>,
    command: CommandView,
    options: OptionsView,
    result: Result<OutputView, ErrorView>,
    k: int,
)
    requires
        tells(trace, command, options, result),
        command is Images || command is Rmi,
        0 <= k < trace.len(),
    ensures
        obeys(trace[k].call, options),
{
    reveal(command_replay);
    let loaded = trace[0].reply->Config_0;
    if let Ok(config) = with_options(loaded, options) {
        assert(heeds(config, options));
        if trace[1].reply->Graphroot_0 is Ok {
            setup_steps(trace, 2, config);
        }
    }
}

/// Running heeds the options.
proof fn run_obeys<K, D>(
    trace: Trace<K, D>,
    filepath: Seq<char>,
    container_cmd: Seq<Seq<char>>,
    options: OptionsView,
    result: Result<OutputView, ErrorView>,
    k: int,
)
    requires
        tells(trace, (CommandView::Run { filepath, container_cmd }), options, result),
        0 <= k < trace.len(),
    ensures
        obeys(trace[k].call, options),
{
    let (begin, config) = run_steps(trace, filepath, container_cmd, options, result);
    if begin <= k {
        if let Ok(edf) = trace[0].reply->Edf_0 {
            let go = edf_steps(trace, begin, edf, container_cmd, config, options);
        } else {
            let (go, down) = yaml_steps(trace, begin, filepath, container_cmd, config, options);
        }
    }
}

/// Once a pull or a migration succeeded, its last call found the image in the imagestore. Nothing
/// is printed then, and the code is 0.
pub proof fn pulled_images_are_in_the_imagestore<K, D>(
    trace: Trace<K, D>,
    command: CommandView,
    image: Seq<char>,
    options: OptionsView,
    outcome: OutputView,
)
    requires
        tells(trace, command, options, Ok(outcome)),
        command == (CommandView::Pull { image }) || command == (CommandView::Migrate { image }),
    ensures
        trace.len() > 0,
        found_in_store(trace, trace.len() - 1, image),
        outcome == succeeded(Seq::empty()),
{
    reveal(command_replay);
    reveal_strlit("");
    assert(""@ =~= Seq::empty());
    prepare_steps(trace, 0, options);
    let (next, prepared) = prepare_replay(trace, 0, options)->0;
    if let Ok(config) = prepared {
        if command is Pull {
            pull_steps(trace, next, image, config, options);
        } else {
            migrate_steps(trace, next, image, config, options);
        }
    }
}

/// The step at one place showed that there is nothing under a path.
pub open spec fn gone<K, D>(trace: Trace<K, D>, k: int, path: Seq<char>) -> bool {
    ||| trace[k].call == (Call::<K, D>::RemoveDirAll { path }) && trace[k].reply == Reply::<
        K,
        D,
    >::Removal(RemovalView::NotFound)
    ||| trace[k].call == (Call::<K, D>::IsPresent { path }) && trace[k].reply == Reply::<
        K,
        D,
    >::Flag(false)
}

/// A run that ends well and leaves no word in the stream for complaints leaves no directory behind:
/// its last call showed that there is nothing under the path of the directories of a run.
pub proof fn quiet_runs_leave_nothing_behind<K, D>(
    trace: Trace<K, D>,
    filepath: Seq<char>,
    container_cmd: Seq<Seq<char>>,
    options: OptionsView,
    outcome: OutputView,
)
    requires
        tells(trace, (CommandView::Run { filepath, container_cmd }), options, Ok(outcome)),
        outcome.stderr.len() == 0,
    ensures
        trace.len() > 0,
        exists|user: CurrentUser, id: RunId|
            {
                &&& #[trigger] gone(trace, trace.len() - 1, roots_base(user.uid, id))
                &&& answered_before(
                    trace,
                    trace.len() as int,
                    Call::CurrentUser,
                    Reply::User(Ok(user)),
                )
                &&& answered_before(trace, trace.len() as int, Call::NewRunId, Reply::Id(id))
            },
{
    let (begin, config) = run_steps(trace, filepath, container_cmd, options, Ok(outcome));
    let end = trace.len() as int;
    if let Ok(edf) = trace[0].reply->Edf_0 {
        let go = edf_steps(trace, begin, edf, container_cmd, config, options);
        let user = trace[begin + 1].reply->User_0->Ok_0;
        let id = trace[begin].reply->Id_0;
        assert(step_is(trace, begin + 1, Call::CurrentUser, Reply::User(Ok(user))));
        assert(step_is(trace, begin, Call::NewRunId, Reply::Id(id)));
        quiet_container(trace, begin, edf, container_cmd, config, options, outcome);
    } else {
        let (go, down) = yaml_steps(trace, begin, filepath, container_cmd, config, options);
        let user = trace[begin].reply->User_0->Ok_0;
        let id = trace[begin + 1].reply->Id_0;
        assert(step_is(trace, begin, Call::CurrentUser, Reply::User(Ok(user))));
        assert(step_is(trace, begin + 1, Call::NewRunId, Reply::Id(id)));
        quiet_pod(trace, begin, filepath, container_cmd, config, options, outcome);
    }
}

/// A container that ends well and quietly leaves no directory behind.
proof fn quiet_container<K, D>(
    trace: Trace<K, D>,
    at: int,
    edf: EdfView<D>,
    command: Seq<Seq<char>>,
    config: ConfigView<K>,
    options: OptionsView,
    outcome: OutputView,
)
    requires
        run_edf_replay(trace, at, edf, command, config, options) == Some(
            (trace.len() as int, Ok::<OutputView, ErrorView>(outcome)),
        ),
        outcome.stderr.len() == 0,
    ensures
        gone(
            trace,
            trace.len() - 1,
            roots_base(trace[at + 1].reply->User_0->Ok_0.uid, trace[at].reply->Id_0),
        ),
{
    let go = edf_steps(trace, at, edf, command, config, options);
    reveal(run_edf_replay);
    let user = trace[at + 1].reply->User_0->Ok_0;
    let id = trace[at].reply->Id_0;
    let ctx = run_ctx(config, user.uid, id);
    run_directories(config, user.uid, id);
    quiet_cleanup(trace, go + 2, ctx, trace[go + 1].reply->Done_0, roots_base(user.uid, id));
}

/// A pod that ends well and quietly leaves no directory behind.
proof fn quiet_pod<K, D>(
    trace: Trace<K, D>,
    at: int,
    path: Seq<char>,
    command: Seq<Seq<char>>,
    config: ConfigView<K>,
    options: OptionsView,
    outcome: OutputView,
)
    requires
        run_yaml_replay(trace, at, path, command, config, options) == Some(
            (trace.len() as int, Ok::<OutputView, ErrorView>(outcome)),
        ),
        outcome.stderr.len() == 0,
    ensures
        gone(
            trace,
            trace.len() - 1,
            roots_base(trace[at].reply->User_0->Ok_0.uid, trace[at + 1].reply->Id_0),
        ),
{
    reveal(run_yaml_replay);
    let user = trace[at].reply->User_0->Ok_0;
    let id = trace[at + 1].reply->Id_0;
    let ctx = pod_ctx(config, user.uid, id);
    let manifest = yaml_document(trace[at + 2].reply->Contents_0->Ok_0)->Ok_0;
    let (go, provided) = provide_all_replay(
        trace,
        at + 3,
        image_list(manifest),
        config,
        options,
        succeeded(""@),
    )->0;
    let down = if trace[go].reply->Done_0 is Ok {
        go + 2
    } else {
        go + 1
    };
    run_directories(config, user.uid, id);
    assert(rootdirs_of(ctx) == rootdirs_of(run_ctx(config, user.uid, id)));
    quiet_cleanup(trace, down + 1, ctx, trace[down].reply->Done_0, roots_base(user.uid, id));
}

/// The end of a run leaves either a warning or no directory.
proof fn quiet_cleanup<K, D>(
    trace: Trace<K, D>,
    at: int,
    ctx: PodmanView,
    cleaned: Result<(), ErrorView>,
    base: Seq<char>,
)
    requires
        finalize_replay(trace, at, ctx, cleaned) is Some,
        rootdirs_of(ctx) == Some(base),
    ensures
        match (finalize_replay(trace, at, ctx, cleaned)->0).1 {
            Some(warning) => warning.len() > 0,
            None => gone(trace, (finalize_replay(trace, at, ctx, cleaned)->0).0 - 1, base),
        },
{
    reveal_strlit("Warning: Podman rootdirs ");
    reveal_strlit("Warning: Podman rootdirs retained because workload cleanup failed: ");
    if cleaned is Ok {
        let start = trace[at].reply->Nanos_0;
        removal_ends(trace, at + 1, base, start, Seq::empty(), 0);
    }
}

/// Removing a directory leaves either a warning or no directory.
proof fn removal_ends<K, D>(
    trace: Trace<K, D>,
    at: int,
    base: Seq<char>,
    start: u64,
    last_error: Seq<char>,
    paused: nat,
)
    requires
        removal_replay(trace, at, base, start, last_error, paused) is Some,
    ensures
        match (removal_replay(trace, at, base, start, last_error, paused)->0).1 {
            Some(warning) => warning.len() > 0,
            None => gone(
                trace,
                (removal_replay(trace, at, base, start, last_error, paused)->0).0 - 1,
                base,
            ),
        },
    decreases CLEANUP_TIMEOUT - paused,
{
    reveal_strlit("Warning: Podman rootdirs ");
    let error = match trace[at].reply->Removal_0 {
        RemovalView::Failed(message) => message,
        _ => last_error,
    };
    let waited = paused + pause_nanos();
    if elapsed_since(start, trace[at + 3].reply->Nanos_0, waited) < CLEANUP_TIMEOUT {
        if removal_replay(trace, at + 4, base, start, error, waited) is Some {
            removal_ends(trace, at + 4, base, start, error, waited);
        }
    }
}

/// A cleanup from one place to another, of a directory that was still there at the last look, when at
/// least the time for the cleanup had passed: so many pauses were made, and the warning tells of that
/// time, of the last error, and of the names that were left.
pub open spec fn timed_out<K, D>(
    trace: Trace<K, D>,
    at: int,
    end: int,
    base: Seq<char>,
    pauses: nat,
    error: Seq<char>,
    warning: Seq<char>,
) -> bool {
    let start = trace[at].reply->Nanos_0;
    let now = trace[end - 2].reply->Nanos_0;
    let elapsed = elapsed_since(start, now, pauses * pause_nanos());
    &&& 1 <= pauses
    &&& end == at + 2 + 4 * pauses
    &&& trace[at].call is Clock
    &&& trace[end - 3].call == (Call::<K, D>::IsPresent { path: base })
    &&& trace[end - 3].reply == Reply::<K, D>::Flag(true)
    &&& trace[end - 2].call is Clock
    &&& trace[end - 1].call == (Call::<K, D>::DirEntries { path: base })
    &&& elapsed >= CLEANUP_TIMEOUT
    &&& warning == timeout_warning(base, elapsed, error, trace[end - 1].reply->Names_0)
}

/// A cleanup leaves a warning only where the directory was still there when the time was over, and it
/// ends after at most as many attempts as pauses fit in that time.
pub proof fn cleanups_warn_when_the_time_is_over<K, D>(
    trace: Trace<K, D>,
    at: int,
    ctx: PodmanView,
    end: int,
    warning: Option<Seq<char>>,
)
    requires
        rootdirs_replay(trace, at, ctx) == Some((end, warning)),
    ensures
        end <= at + 2 + 4 * 50,
        warning is Some ==> rootdirs_of(ctx) is Some && exists|pauses: nat, error: Seq<char>|
            pauses <= 50 && #[trigger] timed_out(
                trace,
                at,
                end,
                rootdirs_of(ctx)->0,
                pauses,
                error,
                warning->0,
            ),
{
    if let Some(base) = rootdirs_of(ctx) {
        removal_warns(trace, at, base, 0, Seq::empty());
    }
}

/// A cleanup that has made some pauses leaves a warning only when the time is over.
proof fn removal_warns<K, D>(
    trace: Trace<K, D>,
    at: int,
    base: Seq<char>,
    pauses: nat,
    last_error: Seq<char>,
)
    requires
        trace[at].call is Clock,
        pauses < 50,
        removal_replay(
            trace,
            at + 1 + 4 * pauses,
            base,
            trace[at].reply->Nanos_0,
            last_error,
            pauses * pause_nanos(),
        ) is Some,
    ensures
        ({
            let (end, warning) = removal_replay(
                trace,
                at + 1 + 4 * pauses,
                base,
                trace[at].reply->Nanos_0,
                last_error,
                pauses * pause_nanos(),
            )->0;
            &&& end <= at + 2 + 4 * 50
            &&& warning is Some ==> exists|total: nat, error: Seq<char>|
                total <= 50 && #[trigger] timed_out(
                    trace,
                    at,
                    end,
                    base,
                    total,
                    error,
                    warning->0,
                )
        }),
    decreases 50 - pauses,
{
    let start = trace[at].reply->Nanos_0;
    let here = at + 1 + 4 * pauses;
    let error = match trace[here].reply->Removal_0 {
        RemovalView::Failed(message) => message,
        _ => last_error,
    };
    let paused = pauses * pause_nanos();
    let more = (pauses + 1) as nat;
    assert(paused + pause_nanos() == more * pause_nanos()) by (nonlinear_arith)
        requires
            paused == pauses * pause_nanos(),
            more == pauses + 1,
    ;
    assert(more * pause_nanos() == more * 100_000_000);
    let now = trace[here + 3].reply->Nanos_0;
    if trace[here].reply->Removal_0 is NotFound || trace[here + 2].reply == Reply::<K, D>::Flag(
        false,
    ) {
    } else if elapsed_since(start, now, more * pause_nanos()) < CLEANUP_TIMEOUT {
        removal_warns(trace, at, base, more, error);
    } else {
        let (end, warning) = removal_replay(trace, here, base, start, last_error, paused)->0;
        assert(timed_out(trace, at, end, base, more, error, warning->0));
    }
}

} // verus!
