//! That what a trace tells took place.

use vstd::prelude::*;

use crate::command::{CommandSpec, CommandView, ExecOptions, OptionsView};
use crate::config::{Config, Edf};
use crate::context::{drawn, is_random_uuid, ContainerCtx, CurrentUser, PodmanCtx};
use crate::deps::{AppDeps, ContainerRuntime, HostOps, RasterOps, Removal, UserContext};
use crate::error::{plain_reply, plain_result, viewed_reply, viewed_result, AppError, ErrorView};
use crate::execute::{execute_command, execute_command_with_options, executed};
use crate::laws::tells;
use crate::output::{AppOutput, OutputView};
use crate::podman::HookOutput;
use crate::text::texts;
use crate::trace::{genuine, hook_reply, Call, Reply, Step, Trace};
use crate::user::RealUserContext;

verus! {

/// Every step of an execution is a call that the surroundings got, with these very arguments, and with
/// the answer that they gave to it. The identifier of a run is drawn at random.
pub proof fn steps_took_place<R, C, U, H>(
    deps: AppDeps<R, C, U, H>,
    trace: Trace<R::ConfigDocument, R::EdfDocument>,
    command: CommandView,
    options: OptionsView,
    result: Result<OutputView, ErrorView>,
    k: int,
) where
    R: RasterOps,
    C: ContainerRuntime<R::EdfDocument>,
    U: UserContext,
    H: HostOps<R::ConfigDocument>,

    requires
        executed(deps, trace, command, options, result),
        0 <= k < trace.len(),
    ensures
        tells(trace, command, options, result),
        took_place(deps, trace[k]),
{
    assert(genuine(deps, trace[k]));
    reveal(genuine);
}

/// A call that the surroundings got, with the answer that they gave to it.
pub open spec fn took_place<R, C, U, H>(
    deps: AppDeps<R, C, U, H>,
    step: Step<R::ConfigDocument, R::EdfDocument>,
) -> bool where
    R: RasterOps,
    C: ContainerRuntime<R::EdfDocument>,
    U: UserContext,
    H: HostOps<R::ConfigDocument>,
 {
    match step.call {
        Call::LoadConfig => exists|r: Result<Config<R::ConfigDocument>, AppError>| #[trigger]
            call_ensures(R::load_config, (deps.raster,), r)
                && step.reply is Config && step.reply->Config_0 == viewed_result(r),
        Call::Validate { path } => exists|p: &str, r: Result<(), String>| #[trigger]
            call_ensures(R::validate, (deps.raster, p), r) && p@ == path
                && step.reply is Accepted && step.reply->Accepted_0 == plain_reply(r),
        Call::Render { path } => exists|p: &str, r: Result<Edf<R::EdfDocument>, String>| #[trigger]
            call_ensures(R::render, (deps.raster, p), r) && p@ == path
                && step.reply is Edf && step.reply->Edf_0 == viewed_reply(r),
        Call::CurrentUser => exists|r: Result<CurrentUser, AppError>| #[trigger]
            call_ensures(U::current_user, (deps.user,), r)
                && step.reply is User && step.reply->User_0 == plain_result(r),
        Call::DefaultGraphroot { ctx } => exists|c: &PodmanCtx, r: Result<String, AppError>|
         #[trigger]
            call_ensures(C::default_graphroot, (deps.runtime, c), r) && c@ == ctx
                && step.reply is Graphroot && step.reply->Graphroot_0 == viewed_result(r),
        Call::Images { ctx } => exists|c: &PodmanCtx, r: Result<(), AppError>| #[trigger]
            call_ensures(C::images, (deps.runtime, c), r) && c@ == ctx
                && step.reply is Done && step.reply->Done_0 == plain_result(r),
        Call::Pull { image, ctx, verbose } => exists|
            i: &str,
            c: &PodmanCtx,
            r: Result<(), AppError>,
        | #[trigger]
            call_ensures(C::pull, (deps.runtime, i, c, verbose), r) && i@ == image && c@ == ctx
                && step.reply is Done && step.reply->Done_0 == plain_result(r),
        Call::ImageExists { image, ctx } => exists|
            i: &str,
            c: &PodmanCtx,
            r: Result<bool, AppError>,
        | #[trigger]
            call_ensures(C::image_exists, (deps.runtime, i, c), r) && i@ == image && c@ == ctx
                && step.reply is Found && step.reply->Found_0 == plain_result(r),
        Call::ParallaxExist { parallax, ctx, image } => exists|
            p: &str,
            c: &PodmanCtx,
            i: &str,
            r: Result<bool, AppError>,
        | #[trigger]
            call_ensures(C::parallax_exist, (deps.runtime, p, c, i), r) && p@ == parallax && c@
                == ctx && i@ == image && step.reply is Found && step.reply->Found_0 == plain_result(r),
        Call::ParallaxMigrate { parallax, ctx, image, verbose } => exists|
            p: &str,
            c: &PodmanCtx,
            i: &str,
            r: Result<(), AppError>,
        | #[trigger]
            call_ensures(C::parallax_migrate, (deps.runtime, p, c, i, verbose), r) && p@ == parallax
                && c@ == ctx && i@ == image && step.reply is Done && step.reply->Done_0 == plain_result(r),
        Call::ParallaxRmi { parallax, ctx, image, verbose } => exists|
            p: &str,
            c: &PodmanCtx,
            i: &str,
            r: Result<(), AppError>,
        | #[trigger]
            call_ensures(C::parallax_rmi, (deps.runtime, p, c, i, verbose), r) && p@ == parallax
                && c@ == ctx && i@ == image && step.reply is Done && step.reply->Done_0 == plain_result(r),
        Call::RunFromEdf { edf, ctx, container, command } => exists|
            e: &Edf<R::EdfDocument>,
            c: &PodmanCtx,
            n: &ContainerCtx,
            a: &[String],
            r: Result<i32, AppError>,
        | #[trigger]
            call_ensures(C::run_from_edf, (deps.runtime, e, c, n, a), r) && e@ == edf && c@ == ctx
                && n@ == container && texts(a@) == command
                && step.reply is Code && step.reply->Code_0 == plain_result(r),
        Call::ExecInteractive { name, ctx, command } => exists|
            n: &str,
            c: &PodmanCtx,
            a: &[String],
            r: Result<i32, AppError>,
        | #[trigger]
            call_ensures(C::exec_interactive, (deps.runtime, n, c, a), r) && n@ == name && c@
                == ctx && texts(a@) == command && step.reply is Code && step.reply->Code_0 == plain_result(r),
        Call::KubePlay { path, ctx } => exists|p: &str, c: &PodmanCtx, r: Result<(), AppError>|
         #[trigger]
            call_ensures(C::kube_play, (deps.runtime, p, c), r) && p@ == path && c@ == ctx
                && step.reply is Done && step.reply->Done_0 == plain_result(r),
        Call::KubeDown { path, force, ctx } => exists|
            p: &str,
            c: &PodmanCtx,
            r: Result<(), AppError>,
        | #[trigger]
            call_ensures(C::kube_down, (deps.runtime, p, force, c), r) && p@ == path && c@ == ctx
                && step.reply is Done && step.reply->Done_0 == plain_result(r),
        Call::CleanupContainer { name, ctx } => exists|
            n: &str,
            c: &PodmanCtx,
            r: Result<(), AppError>,
        | #[trigger]
            call_ensures(C::cleanup_container, (deps.runtime, n, c), r) && n@ == name && c@
                == ctx && step.reply is Done && step.reply->Done_0 == plain_result(r),
        Call::NewRunId => step.reply matches Reply::Id(id) && drawn(id.bits) && is_random_uuid(id.bits),
        Call::HookRun { config, hook, arguments } => exists|
            c: &Config<R::ConfigDocument>,
            h: &str,
            a: &[String],
            r: Result<Option<HookOutput>, String>,
        | #[trigger]
            call_ensures(H::hook_run, (deps.host, c, h, a), r) && c@ == config && h@ == hook
                && texts(a@) == arguments && step.reply is Hook && step.reply->Hook_0 == hook_reply(r),
        Call::PathExists { path } => exists|p: &str, r: Result<bool, String>| #[trigger]
            call_ensures(H::path_exists, (deps.host, p), r) && p@ == path
                && step.reply is Exists && step.reply->Exists_0 == plain_reply(r),
        Call::CreateDirAll { path } => exists|p: &str, r: Result<(), String>| #[trigger]
            call_ensures(H::create_dir_all, (deps.host, p), r) && p@ == path
                && step.reply is Accepted && step.reply->Accepted_0 == plain_reply(r),
        Call::ReadToString { path } => exists|p: &str, r: Result<String, String>| #[trigger]
            call_ensures(H::read_to_string, (deps.host, p), r) && p@ == path
                && step.reply is Contents && step.reply->Contents_0 == viewed_reply(r),
        Call::RemoveDirAll { path } => exists|p: &str, r: Removal| #[trigger]
            call_ensures(H::remove_dir_all, (deps.host, p), r) && p@ == path
                && step.reply is Removal && step.reply->Removal_0 == r@,
        Call::IsPresent { path } => exists|p: &str, r: bool| #[trigger]
            call_ensures(H::is_present, (deps.host, p), r) && p@ == path
                && step.reply is Flag && step.reply->Flag_0 == r,
        Call::DirEntries { path } => exists|p: &str, r: Vec<String>| #[trigger]
            call_ensures(H::dir_entries, (deps.host, p), r) && p@ == path
                && step.reply is Names && step.reply->Names_0 == texts(r@),
        Call::Pause { millis } => call_ensures(H::pause, (deps.host, millis), ())
                && step.reply is Nothing,
        Call::Clock => exists|r: u64| #[trigger]
            call_ensures(H::clock, (deps.host,), r) && step.reply is Nanos && step.reply->Nanos_0 == r,
        Call::Tell { line } => exists|l: &str| #[trigger]
            call_ensures(H::tell, (deps.host, l), ()) && l@ == line && step.reply is Nothing,
        Call::StdinIsTerminal => exists|r: bool| #[trigger]
            call_ensures(H::stdin_is_terminal, (deps.host,), r)
                && step.reply is Flag && step.reply->Flag_0 == r,
        Call::StdoutIsTerminal => exists|r: bool| #[trigger]
            call_ensures(H::stdout_is_terminal, (deps.host,), r)
                && step.reply is Flag && step.reply->Flag_0 == r,
    }
}

/// What an execution results in is told by a trace of steps that took place; without options, as
/// with those that ask for no verbosity and name no imagestore.
pub proof fn executions_are_told<R, C, U, H>(
    command: CommandSpec,
    deps: &AppDeps<'_, R, C, U, H>,
    options: ExecOptions,
    result: Result<AppOutput, AppError>,
    plain: Result<AppOutput, AppError>,
) where
    R: RasterOps,
    C: ContainerRuntime<R::EdfDocument>,
    U: UserContext,
    H: HostOps<R::ConfigDocument>,

    requires
        call_ensures(
            execute_command_with_options::<R, C, U, H>,
            (command, deps, options),
            result,
        ),
        call_ensures(execute_command::<R, C, U, H>, (command, deps), plain),
    ensures
        exists|trace: Trace<R::ConfigDocument, R::EdfDocument>| #[trigger]
            tells(trace, command@, options@, viewed_result(result)) && all_took_place(*deps, trace),
        exists|trace: Trace<R::ConfigDocument, R::EdfDocument>| #[trigger]
            tells(
                trace,
                command@,
                (OptionsView { verbose: false, parallax_imagestore: None }),
                viewed_result(plain),
            ) && all_took_place(*deps, trace),
{
    let told = choose|trace: Trace<R::ConfigDocument, R::EdfDocument>| #[trigger]
        executed(*deps, trace, command@, options@, viewed_result(result));
    assert(tells(told, command@, options@, viewed_result(result)));
    assert forall|k: int| 0 <= k < told.len() implies took_place(*deps, #[trigger] told[k]) by {
        steps_took_place(*deps, told, command@, options@, viewed_result(result), k);
    }
    assert(all_took_place(*deps, told));
    let quiet = OptionsView { verbose: false, parallax_imagestore: None };
    let other = choose|trace: Trace<R::ConfigDocument, R::EdfDocument>| #[trigger]
        executed(*deps, trace, command@, quiet, viewed_result(plain));
    assert(tells(other, command@, quiet, viewed_result(plain)));
    assert forall|k: int| 0 <= k < other.len() implies took_place(*deps, #[trigger] other[k]) by {
        steps_took_place(*deps, other, command@, quiet, viewed_result(plain), k);
    }
    assert(all_took_place(*deps, other));
}

/// All steps of a trace took place.
pub open spec fn all_took_place<R, C, U, H>(
    deps: AppDeps<R, C, U, H>,
    trace: Trace<R::ConfigDocument, R::EdfDocument>,
) -> bool where
    R: RasterOps,
    C: ContainerRuntime<R::EdfDocument>,
    U: UserContext,
    H: HostOps<R::ConfigDocument>,
 {
    forall|k: int| 0 <= k < trace.len() ==> took_place(deps, #[trigger] trace[k])
}

/// The user of this process is the one whose number the system gives, in the group whose number it
/// gives; the lookup does not fail.
pub proof fn the_user_is_that_of_the_process(
    context: &RealUserContext,
    user: Result<CurrentUser, AppError>,
)
    requires
        call_ensures(RealUserContext::current_user, (context,), user),
    ensures
        user is Ok,
        call_ensures(users::get_current_uid, (), user->Ok_0.uid),
        call_ensures(users::get_current_gid, (), user->Ok_0.gid),
{
}

} // verus!
