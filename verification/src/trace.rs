//! Traces: the calls that a command makes to its surroundings, each with the answer that it got.

use vstd::prelude::*;

use crate::config::{Config, ConfigView, Edf, EdfView};
use crate::context::{
    drawn, is_random_uuid, ContainerCtx, ContainerView, CurrentUser, PodmanCtx, PodmanView, RunId,
};
use crate::deps::{
    AppDeps, ContainerRuntime, HostOps, RasterOps, Removal, RemovalView, UserContext,
};
use crate::error::{plain_reply, plain_result, viewed_reply, viewed_result, AppError, ErrorView};
use crate::podman::{HookOutput, HookView};
use crate::text::texts;

verus! {

/// A call to the surroundings.
pub enum Call<K, D> {
    LoadConfig,
    Validate { path: Seq<char> },
    Render { path: Seq<char> },
    CurrentUser,
    DefaultGraphroot { ctx: PodmanView },
    Images { ctx: PodmanView },
    Pull { image: Seq<char>, ctx: PodmanView, verbose: bool },
    ImageExists { image: Seq<char>, ctx: PodmanView },
    ParallaxExist { parallax: Seq<char>, ctx: PodmanView, image: Seq<char> },
    ParallaxMigrate { parallax: Seq<char>, ctx: PodmanView, image: Seq<char>, verbose: bool },
    ParallaxRmi { parallax: Seq<char>, ctx: PodmanView, image: Seq<char>, verbose: bool },
    RunFromEdf {
        edf: EdfView<D>,
        ctx: PodmanView,
        container: ContainerView,
        command: Seq<Seq<char>>,
    },
    ExecInteractive { name: Seq<char>, ctx: PodmanView, command: Seq<Seq<char>> },
    KubePlay { path: Seq<char>, ctx: PodmanView },
    KubeDown { path: Seq<char>, force: bool, ctx: PodmanView },
    CleanupContainer { name: Seq<char>, ctx: PodmanView },
    NewRunId,
    HookRun { config: ConfigView<K>, hook: Seq<char>, arguments: Seq<Seq<char>> },
    PathExists { path: Seq<char> },
    CreateDirAll { path: Seq<char> },
    ReadToString { path: Seq<char> },
    RemoveDirAll { path: Seq<char> },
    IsPresent { path: Seq<char> },
    DirEntries { path: Seq<char> },
    Pause { millis: u64 },
    Clock,
    Tell { line: Seq<char> },
    StdinIsTerminal,
    StdoutIsTerminal,
}

/// An answer to a call.
pub enum Reply<K, D> {
    Nothing,
    Done(Result<(), ErrorView>),
    Found(Result<bool, ErrorView>),
    Code(Result<i32, ErrorView>),
    Graphroot(Result<Seq<char>, ErrorView>),
    Config(Result<ConfigView<K>, ErrorView>),
    User(Result<CurrentUser, ErrorView>),
    Edf(Result<EdfView<D>, Seq<char>>),
    Accepted(Result<(), Seq<char>>),
    Exists(Result<bool, Seq<char>>),
    Contents(Result<Seq<char>, Seq<char>>),
    Hook(Result<Option<HookView>, Seq<char>>),
    Id(RunId),
    Removal(RemovalView),
    Flag(bool),
    Names(Seq<Seq<char>>),
    Nanos(u64),
}

/// A call with its answer.
pub struct Step<K, D> {
    pub call: Call<K, D>,
    pub reply: Reply<K, D>,
}

/// A sequence of steps, in the order in which they took place.
pub type Trace<K, D> = Seq<Step<K, D>>;

/// What a part of a trace tells of some work: where the part ends, and what the work resulted in.
/// There is nothing to tell where the trace is not that of such work.
pub type Told<T> = Option<(int, Result<T, ErrorView>)>;

/// A trace that begins like another one.
pub open spec fn extends<K, D>(longer: Trace<K, D>, trace: Trace<K, D>) -> bool {
    &&& trace.len() <= longer.len()
    &&& forall|k: int|
        #![trigger longer[k]]
        #![trigger trace[k]]
        0 <= k < trace.len() ==> longer[k] == trace[k]
}

/// The answer that a trace has at one place, where the call there is the given one.
pub open spec fn answer<K, D>(trace: Trace<K, D>, at: int, call: Call<K, D>) -> Option<
    Reply<K, D>,
> {
    if 0 <= at < trace.len() && trace[at].call == call {
        Some(trace[at].reply)
    } else {
        None
    }
}

/// Several lines were told, one after the other.
pub open spec fn lines_told<K, D>(trace: Trace<K, D>, at: int, lines: Seq<Seq<char>>) -> bool {
    forall|k: int|
        0 <= k < lines.len() ==> answer(
            trace,
            at + k,
            Call::Tell { line: #[trigger] lines[k] },
        ) == Some(Reply::<K, D>::Nothing)
}

/// A hook, with what it left behind as sequences.
pub open spec fn hook_reply(reply: Result<Option<HookOutput>, String>) -> Result<
    Option<HookView>,
    Seq<char>,
> {
    match reply {
        Ok(Some(output)) => Ok(Some(output@)),
        Ok(None) => Ok(None),
        Err(message) => Err(message@),
    }
}

/// A step that took place: the surroundings were called so, and answered so.
#[verifier::opaque]
pub open spec fn genuine<R, C, U, H>(
    deps: AppDeps<R, C, U, H>,
    step: Step<R::ConfigDocument, R::EdfDocument>,
) -> bool where
    R: RasterOps,
    C: ContainerRuntime<R::EdfDocument>,
    U: UserContext,
    H: HostOps<R::ConfigDocument>,
 {
    let reply = step.reply;
    match step.call {
        Call::LoadConfig => exists|r: Result<Config<R::ConfigDocument>, AppError>| #[trigger]
            call_ensures(R::load_config, (deps.raster,), r)
                && reply is Config && reply->Config_0 == viewed_result(r),
        Call::Validate { path } => exists|p: &str, r: Result<(), String>| #[trigger]
            call_ensures(R::validate, (deps.raster, p), r) && p@ == path
                && reply is Accepted && reply->Accepted_0 == plain_reply(r),
        Call::Render { path } => exists|p: &str, r: Result<Edf<R::EdfDocument>, String>| #[trigger]
            call_ensures(R::render, (deps.raster, p), r) && p@ == path
                && reply is Edf && reply->Edf_0 == viewed_reply(r),
        Call::CurrentUser => exists|r: Result<CurrentUser, AppError>| #[trigger]
            call_ensures(U::current_user, (deps.user,), r)
                && reply is User && reply->User_0 == plain_result(r),
        Call::DefaultGraphroot { ctx } => exists|c: &PodmanCtx, r: Result<String, AppError>|
         #[trigger]
            call_ensures(C::default_graphroot, (deps.runtime, c), r) && c@ == ctx
                && reply is Graphroot && reply->Graphroot_0 == viewed_result(r),
        Call::Images { ctx } => exists|c: &PodmanCtx, r: Result<(), AppError>| #[trigger]
            call_ensures(C::images, (deps.runtime, c), r) && c@ == ctx
                && reply is Done && reply->Done_0 == plain_result(r),
        Call::Pull { image, ctx, verbose } => exists|
            i: &str,
            c: &PodmanCtx,
            r: Result<(), AppError>,
        | #[trigger]
            call_ensures(C::pull, (deps.runtime, i, c, verbose), r) && i@ == image && c@ == ctx
                && reply is Done && reply->Done_0 == plain_result(r),
        Call::ImageExists { image, ctx } => exists|
            i: &str,
            c: &PodmanCtx,
            r: Result<bool, AppError>,
        | #[trigger]
            call_ensures(C::image_exists, (deps.runtime, i, c), r) && i@ == image && c@ == ctx
                && reply is Found && reply->Found_0 == plain_result(r),
        Call::ParallaxExist { parallax, ctx, image } => exists|
            p: &str,
            c: &PodmanCtx,
            i: &str,
            r: Result<bool, AppError>,
        | #[trigger]
            call_ensures(C::parallax_exist, (deps.runtime, p, c, i), r) && p@ == parallax && c@
                == ctx && i@ == image && reply is Found && reply->Found_0 == plain_result(r),
        Call::ParallaxMigrate { parallax, ctx, image, verbose } => exists|
            p: &str,
            c: &PodmanCtx,
            i: &str,
            r: Result<(), AppError>,
        | #[trigger]
            call_ensures(C::parallax_migrate, (deps.runtime, p, c, i, verbose), r) && p@ == parallax
                && c@ == ctx && i@ == image && reply is Done && reply->Done_0 == plain_result(r),
        Call::ParallaxRmi { parallax, ctx, image, verbose } => exists|
            p: &str,
            c: &PodmanCtx,
            i: &str,
            r: Result<(), AppError>,
        | #[trigger]
            call_ensures(C::parallax_rmi, (deps.runtime, p, c, i, verbose), r) && p@ == parallax
                && c@ == ctx && i@ == image && reply is Done && reply->Done_0 == plain_result(r),
        Call::RunFromEdf { edf, ctx, container, command } => exists|
            e: &Edf<R::EdfDocument>,
            c: &PodmanCtx,
            n: &ContainerCtx,
            a: &[String],
            r: Result<i32, AppError>,
        | #[trigger]
            call_ensures(C::run_from_edf, (deps.runtime, e, c, n, a), r) && e@ == edf && c@ == ctx
                && n@ == container && texts(a@) == command
                && reply is Code && reply->Code_0 == plain_result(r),
        Call::ExecInteractive { name, ctx, command } => exists|
            n: &str,
            c: &PodmanCtx,
            a: &[String],
            r: Result<i32, AppError>,
        | #[trigger]
            call_ensures(C::exec_interactive, (deps.runtime, n, c, a), r) && n@ == name && c@
                == ctx && texts(a@) == command && reply is Code && reply->Code_0 == plain_result(r),
        Call::KubePlay { path, ctx } => exists|p: &str, c: &PodmanCtx, r: Result<(), AppError>|
         #[trigger]
            call_ensures(C::kube_play, (deps.runtime, p, c), r) && p@ == path && c@ == ctx
                && reply is Done && reply->Done_0 == plain_result(r),
        Call::KubeDown { path, force, ctx } => exists|
            p: &str,
            c: &PodmanCtx,
            r: Result<(), AppError>,
        | #[trigger]
            call_ensures(C::kube_down, (deps.runtime, p, force, c), r) && p@ == path && c@ == ctx
                && reply is Done && reply->Done_0 == plain_result(r),
        Call::CleanupContainer { name, ctx } => exists|
            n: &str,
            c: &PodmanCtx,
            r: Result<(), AppError>,
        | #[trigger]
            call_ensures(C::cleanup_container, (deps.runtime, n, c), r) && n@ == name && c@
                == ctx && reply is Done && reply->Done_0 == plain_result(r),
        Call::NewRunId => reply matches Reply::Id(id) && drawn(id.bits) && is_random_uuid(id.bits),
        Call::HookRun { config, hook, arguments } => exists|
            c: &Config<R::ConfigDocument>,
            h: &str,
            a: &[String],
            r: Result<Option<HookOutput>, String>,
        | #[trigger]
            call_ensures(H::hook_run, (deps.host, c, h, a), r) && c@ == config && h@ == hook
                && texts(a@) == arguments && reply is Hook && reply->Hook_0 == hook_reply(r),
        Call::PathExists { path } => exists|p: &str, r: Result<bool, String>| #[trigger]
            call_ensures(H::path_exists, (deps.host, p), r) && p@ == path
                && reply is Exists && reply->Exists_0 == plain_reply(r),
        Call::CreateDirAll { path } => exists|p: &str, r: Result<(), String>| #[trigger]
            call_ensures(H::create_dir_all, (deps.host, p), r) && p@ == path
                && reply is Accepted && reply->Accepted_0 == plain_reply(r),
        Call::ReadToString { path } => exists|p: &str, r: Result<String, String>| #[trigger]
            call_ensures(H::read_to_string, (deps.host, p), r) && p@ == path
                && reply is Contents && reply->Contents_0 == viewed_reply(r),
        Call::RemoveDirAll { path } => exists|p: &str, r: Removal| #[trigger]
            call_ensures(H::remove_dir_all, (deps.host, p), r) && p@ == path
                && reply is Removal && reply->Removal_0 == r@,
        Call::IsPresent { path } => exists|p: &str, r: bool| #[trigger]
            call_ensures(H::is_present, (deps.host, p), r) && p@ == path
                && reply is Flag && reply->Flag_0 == r,
        Call::DirEntries { path } => exists|p: &str, r: Vec<String>| #[trigger]
            call_ensures(H::dir_entries, (deps.host, p), r) && p@ == path
                && reply is Names && reply->Names_0 == texts(r@),
        Call::Pause { millis } => call_ensures(H::pause, (deps.host, millis), ())
                && reply is Nothing,
        Call::Clock => exists|r: u64| #[trigger]
            call_ensures(H::clock, (deps.host,), r) && reply is Nanos && reply->Nanos_0 == r,
        Call::Tell { line } => exists|l: &str| #[trigger]
            call_ensures(H::tell, (deps.host, l), ()) && l@ == line && reply is Nothing,
        Call::StdinIsTerminal => exists|r: bool| #[trigger]
            call_ensures(H::stdin_is_terminal, (deps.host,), r)
                && reply is Flag && reply->Flag_0 == r,
        Call::StdoutIsTerminal => exists|r: bool| #[trigger]
            call_ensures(H::stdout_is_terminal, (deps.host,), r)
                && reply is Flag && reply->Flag_0 == r,
    }
}

} // verus!
