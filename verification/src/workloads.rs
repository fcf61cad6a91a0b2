//! What a run is told: the settings and directories in which containers and pods are run, and how
//! they are run.

use vstd::prelude::*;

use crate::calls::chosen_store;
use crate::command::{CommandView, OptionsView};
use crate::config::{overridden, ConfigView};
use crate::context::{
    rootdirs_of, roots_base, run_ctx, ContainerView, CurrentUser, PodmanView, RunId,
};
use crate::error::ErrorView;
use crate::laws::{answered_before, run_directories, step_is, tells};
use crate::output::OutputView;
use crate::run::pod_ctx;
use crate::shapes::{config_place, edf_steps, prepare_steps, run_steps, terminals_seen, yaml_steps};
use crate::steps::cleanup_call;
use crate::text::{decimal, hex_digit};
use crate::trace::{Call, Reply, Trace};

verus! {

/// The first twelve of the thirty-two hexadecimal digits of an identifier, the highest first.
pub open spec fn twelve_digits(id: RunId) -> Seq<char> {
    Seq::new(12, |k: int| hex_digit(((id.bits >> ((124 - 4 * k) as u128)) & 0xf) as nat))
}

/// The directory of a run: under that of shared memory, named by the user and by the identifier.
pub open spec fn directory_of(user: CurrentUser, id: RunId) -> Seq<char> {
    "/dev/shm/sarusctl-"@ + decimal(user.uid as nat) + "-"@ + twelve_digits(id)
}

/// The mount program finds its user, group, helper and log file in the environment, as they are
/// configured, and nothing else.
pub open spec fn tells_mount_program<K>(
    env: Seq<(Seq<char>, Seq<char>)>,
    loaded: ConfigView<K>,
) -> bool {
    &&& env.len() == 4
    &&& env[0].0 == "PARALLAX_MP_UID"@
    &&& env[0].1 == decimal(loaded.parallax_mp_uid as nat)
    &&& env[1].0 == "PARALLAX_MP_GID"@
    &&& env[1].1 == decimal(loaded.parallax_mp_gid as nat)
    &&& env[2].0 == "PARALLAX_MP_SQUASHFUSE_CMD"@
    &&& env[2].1 == loaded.parallax_mp_squashfuse_path
    &&& env[3].0 == "PARALLAX_MP_LOGFILE"@
    &&& env[3].1 == loaded.parallax_mp_logfile
}

/// Podman is set up for a run: with the configured path and mount program, the imagestore that
/// holds, and a graphroot and a runroot in the directory of the run.
pub open spec fn set_up_for_run<K>(
    ctx: PodmanView,
    loaded: ConfigView<K>,
    options: OptionsView,
    directory: Seq<char>,
) -> bool {
    &&& ctx.podman_path == loaded.podman_path
    &&& ctx.graphroot == Some(directory + "/graphroot"@)
    &&& ctx.runroot == Some(directory + "/runroot"@)
    &&& ctx.parallax_mount_program == Some(loaded.parallax_mount_program)
    &&& ctx.ro_store == Some(chosen_store(loaded, options))
    &&& ctx.podman_env is Some
    &&& tells_mount_program(ctx.podman_env->0, loaded)
}

/// A container is run in the foreground and kept until it is cleaned up, as the user with the
/// looked-up number, under a name made of the identifier of the run; whether it is interactive and
/// has a terminal is what the steps before saw.
pub open spec fn run_in_foreground<K, D>(
    trace: Trace<K, D>,
    k: int,
    container: ContainerView,
    user: CurrentUser,
    id: RunId,
) -> bool {
    &&& container.name == "sarusctl-"@ + twelve_digits(id)
    &&& terminals_seen(trace, k, container.interactive, container.tty)
    &&& !container.detach
    &&& !container.auto_remove
    &&& container.set_env
    &&& container.pidfile is None
    &&& container.user == Some(decimal(user.uid as nat))
}

/// A call of a run, as the loaded configuration, the options, the user and the identifier want it.
/// Containers are run with the configured module, pods without any.
pub open spec fn run_as_configured<K, D>(
    trace: Trace<K, D>,
    k: int,
    loaded: ConfigView<K>,
    options: OptionsView,
    user: CurrentUser,
    id: RunId,
) -> bool {
    let directory = directory_of(user, id);
    match trace[k].call {
        Call::RunFromEdf { ctx, container, .. } => {
            &&& set_up_for_run(ctx, loaded, options, directory)
            &&& ctx.module == Some(loaded.podman_module)
            &&& run_in_foreground(trace, k, container, user, id)
        },
        Call::CleanupContainer { name, ctx } => {
            &&& set_up_for_run(ctx, loaded, options, directory)
            &&& ctx.module == Some(loaded.podman_module)
            &&& name == "sarusctl-"@ + twelve_digits(id)
        },
        Call::KubePlay { ctx, .. } => {
            &&& set_up_for_run(ctx, loaded, options, directory)
            &&& ctx.module is None
        },
        Call::ExecInteractive { ctx, .. } => {
            &&& set_up_for_run(ctx, loaded, options, directory)
            &&& ctx.module is None
        },
        Call::KubeDown { ctx, force, .. } => {
            &&& set_up_for_run(ctx, loaded, options, directory)
            &&& ctx.module is None
            &&& force
        },
        Call::RemoveDirAll { path } => path == directory,
        Call::IsPresent { path } => path == directory,
        Call::DirEntries { path } => path == directory,
        _ => true,
    }
}

/// The calls in which a workload is run or cleaned up after.
pub open spec fn workload_call<K, D>(call: Call<K, D>) -> bool {
    match call {
        Call::RunFromEdf { .. } => true,
        Call::CleanupContainer { .. } => true,
        Call::KubePlay { .. } => true,
        Call::ExecInteractive { .. } => true,
        Call::KubeDown { .. } => true,
        Call::RemoveDirAll { .. } => true,
        Call::IsPresent { .. } => true,
        Call::DirEntries { .. } => true,
        _ => false,
    }
}

/// What was answered before one place: the configuration, the user, and the identifier of the run.
pub open spec fn known_before<K, D>(
    trace: Trace<K, D>,
    k: int,
    loaded: ConfigView<K>,
    user: CurrentUser,
    id: RunId,
) -> bool {
    &&& answered_before(trace, k, Call::LoadConfig, Reply::Config(Ok(loaded)))
    &&& answered_before(trace, k, Call::CurrentUser, Reply::User(Ok(user)))
    &&& answered_before(trace, k, Call::NewRunId, Reply::Id(id))
}

/// Every call that runs a workload, or cleans up after it, is as the configuration that was loaded,
/// the options, the user who was looked up and the identifier that was drawn want it.
pub proof fn workloads_run_as_configured<K, D>(
    trace: Trace<K, D>,
    filepath: Seq<char>,
    container_cmd: Seq<Seq<char>>,
    options: OptionsView,
    result: Result<OutputView, ErrorView>,
    k: int,
)
    requires
        tells(trace, (CommandView::Run { filepath, container_cmd }), options, result),
        0 <= k < trace.len(),
        workload_call(trace[k].call),
    ensures
        exists|loaded: ConfigView<K>, user: CurrentUser, id: RunId|
            #[trigger] known_before(trace, k, loaded, user, id) && run_as_configured(
                trace,
                k,
                loaded,
                options,
                user,
                id,
            ),
{
    let (begin, config) = run_steps(trace, filepath, container_cmd, options, result);
    let place = config_place(trace);
    assert(k >= begin);
    let loaded = trace[place].reply->Config_0->Ok_0;
    assert(step_is(trace, place, Call::LoadConfig, Reply::Config(Ok(loaded))));
    prepare_steps(trace, place, options);
    if let Ok(edf) = trace[0].reply->Edf_0 {
        let go = edf_steps(trace, begin, edf, container_cmd, config, options);
        let user = trace[begin + 1].reply->User_0->Ok_0;
        let id = trace[begin].reply->Id_0;
        let ctx = run_ctx(config, user.uid, id);
        assert(k >= go);
        run_settings(loaded, options, user, id);
        assert(step_is(trace, begin + 1, Call::CurrentUser, Reply::User(Ok(user))));
        assert(step_is(trace, begin, Call::NewRunId, Reply::Id(id)));
        if k >= go + 2 {
            assert(cleanup_call(trace[k].call, ctx));
        }
        assert(run_as_configured(trace, k, loaded, options, user, id));
        assert(known_before(trace, k, loaded, user, id));
    } else {
        let (go, down) = yaml_steps(trace, begin, filepath, container_cmd, config, options);
        let user = trace[begin].reply->User_0->Ok_0;
        let id = trace[begin + 1].reply->Id_0;
        let ctx = pod_ctx(config, user.uid, id);
        assert(k >= go);
        run_settings(loaded, options, user, id);
        assert(step_is(trace, begin, Call::CurrentUser, Reply::User(Ok(user))));
        assert(step_is(trace, begin + 1, Call::NewRunId, Reply::Id(id)));
        if k > down {
            assert(cleanup_call(trace[k].call, ctx));
        }
        assert(run_as_configured(trace, k, loaded, options, user, id));
        assert(known_before(trace, k, loaded, user, id));
    }
}

/// The settings of a run.
proof fn run_settings<K>(
    loaded: ConfigView<K>,
    options: OptionsView,
    user: CurrentUser,
    id: RunId,
)
    ensures
        ({
            let ctx = run_ctx(overridden(loaded, options), user.uid, id);
            &&& set_up_for_run(ctx, loaded, options, directory_of(user, id))
            &&& ctx.module == Some(loaded.podman_module)
            &&& rootdirs_of(ctx) == Some(directory_of(user, id))
        }),
        twelve_digits(id) == id.tag(),
{
    assert(twelve_digits(id) =~= id.tag());
    run_directories(overridden(loaded, options), user.uid, id);
    assert(roots_base(user.uid, id) == directory_of(user, id));
}

} // verus!
