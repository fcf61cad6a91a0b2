//! Running a container from an environment definition, or a pod from a Kubernetes manifest.

use vstd::prelude::*;
use vstd::string::*;

use crate::cleanup::finalize_replay;
use crate::command::{ExecOptions, OptionsView};
use crate::config::{Config, ConfigView, Edf, EdfView};
use crate::context::{
    build_parallax_seed_ctx, build_run_ctx, run_ctx, seed_ctx, text_option, ContainerCtx,
    ContainerView, PodmanCtx, PodmanView, RunId,
};
use crate::deps::{ContainerRuntime, HostOps, RasterOps, UserContext};
use crate::error::{
    combine_error_with_warning, plain_result, viewed_result, warned_error, AppError, ErrorView,
};
use crate::images::{pull_keeps, pull_replay};
use crate::imagestore::{setup_keeps, setup_replay};
use crate::loading::with_options;
use crate::manifest::{
    extract_images_from_yaml_value, get_join_container_from_yaml_manifest, image_list, manifest_of,
    parse_yaml_value_from_str, podman_container, yaml_document,
};
use crate::output::{
    append_warning, merge_output, merged, succeeded, with_warning, AppOutput, OutputView,
};
use crate::session::Session;
use crate::text::{decimal, decimal_text, texts};
use crate::trace::{answer, extends, Call, Reply, Told, Trace};

verus! {

/// An error, with the warning that goes with it, if any.
pub open spec fn warned(err: ErrorView, warning: Option<Seq<char>>) -> ErrorView {
    match warning {
        Some(warning) => warned_error(err, warning),
        None => err,
    }
}

/// The result of running a container: its code, or why there is none, and the warning that the
/// cleanup left. `output` is the outcome of the steps before.
pub open spec fn run_result(
    output: OutputView,
    ran: Result<i32, ErrorView>,
    warning: Option<Seq<char>>,
) -> Result<OutputView, ErrorView> {
    match ran {
        Err(err) => Err(warned(err, warning)),
        Ok(code) => {
            let ended = OutputView { return_code: code, ..output };
            match warning {
                Some(warning) => Ok(with_warning(ended, warning)),
                None => Ok(ended),
            }
        },
    }
}

/// The result of running a command in a pod: as that of running a container, but for a pod that
/// could not be taken down, which is an error of its own.
pub open spec fn pod_result(
    output: OutputView,
    ran: Result<i32, ErrorView>,
    down: Result<(), ErrorView>,
    warning: Option<Seq<char>>,
) -> Result<OutputView, ErrorView> {
    match (ran, down) {
        (Ok(_), Err(err)) => Err(warned(err, warning)),
        _ => run_result(output, ran, warning),
    }
}

/// Adds a warning to an error, if there is one.
fn warn(err: AppError, warning: Option<String>) -> (combined: AppError)
    ensures
        combined@ == warned(err@, text_option(warning)),
{
    match warning {
        Some(warning) => combine_error_with_warning(err, warning),
        None => err,
    }
}

/// The result of running a container.
pub fn run_outcome(
    output: AppOutput,
    ran: Result<i32, AppError>,
    warning: Option<String>,
) -> (result: Result<AppOutput, AppError>)
    ensures
        viewed_result(result) == run_result(output@, plain_result(ran), text_option(warning)),
{
    match ran {
        Err(err) => Err(warn(err, warning)),
        Ok(code) => {
            let mut ended = output;
            ended.return_code = code;
            if let Some(warning) = warning {
                append_warning(&mut ended, warning);
            }
            Ok(ended)
        },
    }
}

/// The result of running a command in a pod.
pub fn pod_outcome(
    output: AppOutput,
    ran: Result<i32, AppError>,
    down: Result<(), AppError>,
    warning: Option<String>,
) -> (result: Result<AppOutput, AppError>)
    ensures
        viewed_result(result) == pod_result(
            output@,
            plain_result(ran),
            plain_result(down),
            text_option(warning),
        ),
{
    if ran.is_ok() {
        if let Err(err) = down {
            return Err(warn(err, warning));
        }
    }
    run_outcome(output, ran, warning)
}

/// What a trace tells of providing an image: it is pulled where it is not in the imagestore.
/// `output` is the outcome of the steps before.
pub open spec fn provide_replay<K, D>(
    trace: Trace<K, D>,
    at: int,
    image: Seq<char>,
    config: ConfigView<K>,
    options: OptionsView,
    output: OutputView,
) -> Told<OutputView> {
    match answer(
        trace,
        at,
        Call::ParallaxExist { parallax: config.parallax_path, ctx: seed_ctx(config), image },
    ) {
        Some(Reply::Found(Ok(true))) => Some((at + 1, Ok(output))),
        Some(Reply::Found(Ok(false))) => match pull_replay(trace, at + 1, image, config, options) {
            None => None,
            Some((next, Err(err))) => Some((next, Err(err))),
            Some((next, Ok(pulled))) => Some((next, Ok(merged(output, pulled)))),
        },
        Some(Reply::Found(Err(err))) => Some((at + 1, Err(err))),
        _ => None,
    }
}

/// What a trace tells of providing several images, one after the other.
pub open spec fn provide_all_replay<K, D>(
    trace: Trace<K, D>,
    at: int,
    images: Seq<Seq<char>>,
    config: ConfigView<K>,
    options: OptionsView,
    output: OutputView,
) -> Told<OutputView>
    decreases images.len(),
{
    if images.len() == 0 {
        Some((at, Ok(output)))
    } else {
        match provide_replay(trace, at, images[0], config, options, output) {
            None => None,
            Some((next, Err(err))) => Some((next, Err(err))),
            Some((next, Ok(provided))) => provide_all_replay(
                trace,
                next,
                images.skip(1),
                config,
                options,
                provided,
            ),
        }
    }
}

/// What a trace tells of the terminals: where the part ends, whether the input is one, and whether
/// both ends are.
pub open spec fn terminals_replay<K, D>(trace: Trace<K, D>, at: int) -> Option<(int, bool, bool)> {
    match (answer(trace, at, Call::StdinIsTerminal), answer(trace, at + 1, Call::StdinIsTerminal)) {
        (Some(Reply::Flag(interactive)), Some(Reply::Flag(false))) => Some(
            (at + 2, interactive, false),
        ),
        (Some(Reply::Flag(interactive)), Some(Reply::Flag(true))) => match answer(
            trace,
            at + 2,
            Call::StdoutIsTerminal,
        ) {
            Some(Reply::Flag(tty)) => Some((at + 3, interactive, tty)),
            _ => None,
        },
        _ => None,
    }
}

/// The container that is run from an environment definition.
pub open spec fn edf_container(
    uid: u32,
    run_id: RunId,
    interactive: bool,
    tty: bool,
) -> ContainerView {
    ContainerView {
        name: "sarusctl-"@ + run_id.tag(),
        interactive,
        tty,
        detach: false,
        auto_remove: false,
        set_env: true,
        pidfile: None,
        user: Some(decimal(uid as nat)),
    }
}

/// What a trace tells of running a container whose image is provided: it is run, cleaned up after,
/// and what Podman kept of the run is removed.
pub open spec fn container_replay<K, D>(
    trace: Trace<K, D>,
    at: int,
    edf: EdfView<D>,
    ctx: PodmanView,
    container: ContainerView,
    command: Seq<Seq<char>>,
    output: OutputView,
) -> Told<OutputView> {
    match (
        answer(trace, at, Call::RunFromEdf { edf, ctx, container, command }),
        answer(trace, at + 1, Call::CleanupContainer { name: container.name, ctx }),
    ) {
        (Some(Reply::Code(ran)), Some(Reply::Done(cleaned))) => match finalize_replay(
            trace,
            at + 2,
            ctx,
            cleaned,
        ) {
            Some((end, warning)) => Some((end, run_result(output, ran, warning))),
            None => None,
        },
        _ => None,
    }
}

/// What a trace tells of running an environment definition.
#[verifier::opaque]
pub open spec fn run_edf_replay<K, D>(
    trace: Trace<K, D>,
    at: int,
    edf: EdfView<D>,
    command: Seq<Seq<char>>,
    config: ConfigView<K>,
    options: OptionsView,
) -> Told<OutputView> {
    match (answer(trace, at, Call::NewRunId), answer(trace, at + 1, Call::CurrentUser)) {
        (Some(Reply::Id(run_id)), Some(Reply::User(Err(err)))) => Some((at + 2, Err(err))),
        (Some(Reply::Id(run_id)), Some(Reply::User(Ok(user)))) => match provide_replay(
            trace,
            at + 2,
            edf.image,
            config,
            options,
            succeeded(""@),
        ) {
            None => None,
            Some((next, Err(err))) => Some((next, Err(err))),
            Some((next, Ok(output))) => match terminals_replay(trace, next) {
                None => None,
                Some((ready, interactive, tty)) => container_replay(
                    trace,
                    ready,
                    edf,
                    run_ctx(config, user.uid, run_id),
                    edf_container(user.uid, run_id, interactive, tty),
                    command,
                    output,
                ),
            },
        },
        _ => None,
    }
}

/// The context in which a pod is run. The module is left out: `podman kube play` heeds only some
/// of its settings, so that they are better stated in the manifest.
pub open spec fn pod_ctx<K>(config: ConfigView<K>, uid: u32, run_id: RunId) -> PodmanView {
    PodmanView { module: None, ..run_ctx(config, uid, run_id) }
}

/// What a trace tells of running a pod whose images are provided: it is played, the command is run
/// in its container if that succeeded, the pod is taken down in any case, and what Podman kept of
/// the run is removed.
pub open spec fn pod_replay<K, D>(
    trace: Trace<K, D>,
    at: int,
    path: Seq<char>,
    ctx: PodmanView,
    container: Seq<char>,
    command: Seq<Seq<char>>,
    output: OutputView,
) -> Told<OutputView> {
    let attempt: Told<i32> = match answer(trace, at, Call::KubePlay { path, ctx }) {
        Some(Reply::Done(Err(err))) => Some((at + 1, Err(err))),
        Some(Reply::Done(Ok(()))) => match answer(
            trace,
            at + 1,
            Call::ExecInteractive { name: container, ctx, command },
        ) {
            Some(Reply::Code(ran)) => Some((at + 2, ran)),
            _ => None,
        },
        _ => None,
    };
    match attempt {
        None => None,
        Some((next, ran)) => match answer(trace, next, Call::KubeDown { path, force: true, ctx }) {
            Some(Reply::Done(down)) => match finalize_replay(trace, next + 1, ctx, down) {
                Some((end, warning)) => Some((end, pod_result(output, ran, down, warning))),
                None => None,
            },
            _ => None,
        },
    }
}

/// The error of a file that cannot be read.
pub open spec fn unreadable(path: Seq<char>, message: Seq<char>) -> ErrorView {
    ErrorView::Io("failed to read "@ + path + ": "@ + message)
}

/// What a trace tells of running a Kubernetes manifest.
#[verifier::opaque]
pub open spec fn run_yaml_replay<K, D>(
    trace: Trace<K, D>,
    at: int,
    path: Seq<char>,
    command: Seq<Seq<char>>,
    config: ConfigView<K>,
    options: OptionsView,
) -> Told<OutputView> {
    match answer(trace, at, Call::CurrentUser) {
        Some(Reply::User(Err(err))) => Some((at + 1, Err(err))),
        Some(Reply::User(Ok(user))) => match (
            answer(trace, at + 1, Call::NewRunId),
            answer(trace, at + 2, Call::ReadToString { path }),
        ) {
            (Some(Reply::Id(run_id)), Some(Reply::Contents(Err(message)))) => Some(
                (at + 3, Err(unreadable(path, message))),
            ),
            (Some(Reply::Id(run_id)), Some(Reply::Contents(Ok(contents)))) => match manifest_of(
                yaml_document(contents),
            ) {
                Err(err) => Some((at + 3, Err(err))),
                Ok(manifest) => match provide_all_replay(
                    trace,
                    at + 3,
                    image_list(manifest),
                    config,
                    options,
                    succeeded(""@),
                ) {
                    None => None,
                    Some((next, Err(err))) => Some((next, Err(err))),
                    Some((next, Ok(output))) => match podman_container(manifest) {
                        Err(err) => Some((next, Err(err))),
                        Ok(container) => pod_replay(
                            trace,
                            next,
                            path,
                            pod_ctx(config, user.uid, run_id),
                            container,
                            command,
                            output,
                        ),
                    },
                },
            },
            _ => None,
        },
        _ => None,
    }
}

/// What a trace tells of loading the configuration and preparing the imagestore.
pub open spec fn prepare_replay<K, D>(trace: Trace<K, D>, at: int, options: OptionsView) -> Told<
    ConfigView<K>,
> {
    match answer(trace, at, Call::LoadConfig) {
        Some(Reply::Config(loaded)) => match with_options(loaded, options) {
            Err(err) => Some((at + 1, Err(err))),
            Ok(config) => match setup_replay(trace, at + 1, config) {
                None => None,
                Some((next, Err(err))) => Some((next, Err(err))),
                Some((next, Ok(()))) => Some((next, Ok(config))),
            },
        },
        _ => None,
    }
}

/// What a trace tells of running a file: an environment definition where it renders as one, and
/// otherwise a Kubernetes manifest. A file that is neither is refused before anything is loaded.
#[verifier::opaque]
pub open spec fn run_replay<K, D>(
    trace: Trace<K, D>,
    at: int,
    path: Seq<char>,
    command: Seq<Seq<char>>,
    options: OptionsView,
) -> Told<OutputView> {
    match answer(trace, at, Call::Render { path }) {
        Some(Reply::Edf(Ok(edf))) => match prepare_replay(trace, at + 1, options) {
            None => None,
            Some((next, Err(err))) => Some((next, Err(err))),
            Some((next, Ok(config))) => run_edf_replay(trace, next, edf, command, config, options),
        },
        Some(Reply::Edf(Err(_))) => match answer(trace, at + 1, Call::ReadToString { path }) {
            Some(Reply::Contents(Err(message))) => Some((at + 2, Err(unreadable(path, message)))),
            Some(Reply::Contents(Ok(contents))) => if yaml_document(contents) is Err {
                Some(
                    (
                        at + 2,
                        Err(ErrorView::UnsupportedInput(path + " is not valid EDF nor YAML"@)),
                    ),
                )
            } else {
                match prepare_replay(trace, at + 2, options) {
                    None => None,
                    Some((next, Err(err))) => Some((next, Err(err))),
                    Some((next, Ok(config))) => run_yaml_replay(
                        trace,
                        next,
                        path,
                        command,
                        config,
                        options,
                    ),
                }
            },
            _ => None,
        },
        _ => None,
    }
}

/// What a trace tells of providing an image, a longer one tells too.
proof fn provide_keeps<K, D>(
    longer: Trace<K, D>,
    trace: Trace<K, D>,
    at: int,
    image: Seq<char>,
    config: ConfigView<K>,
    options: OptionsView,
    output: OutputView,
)
    requires
        extends(longer, trace),
        provide_replay(trace, at, image, config, options, output) is Some,
    ensures
        provide_replay(longer, at, image, config, options, output) == provide_replay(
            trace,
            at,
            image,
            config,
            options,
            output,
        ),
{
    if pull_replay(trace, at + 1, image, config, options) is Some {
        pull_keeps(longer, trace, at + 1, image, config, options);
    }
}

/// What a trace tells of providing several images, a longer one tells too.
proof fn provide_all_keeps<K, D>(
    longer: Trace<K, D>,
    trace: Trace<K, D>,
    at: int,
    images: Seq<Seq<char>>,
    config: ConfigView<K>,
    options: OptionsView,
    output: OutputView,
)
    requires
        extends(longer, trace),
        provide_all_replay(trace, at, images, config, options, output) is Some,
    ensures
        provide_all_replay(longer, at, images, config, options, output) == provide_all_replay(
            trace,
            at,
            images,
            config,
            options,
            output,
        ),
    decreases images.len(),
{
    if images.len() > 0 {
        provide_keeps(longer, trace, at, images[0], config, options, output);
        if let Some((next, Ok(provided))) = provide_replay(
            trace,
            at,
            images[0],
            config,
            options,
            output,
        ) {
            provide_all_keeps(longer, trace, next, images.skip(1), config, options, provided);
        }
    }
}

/// What a trace tells of loading the configuration and preparing the imagestore, a longer one tells
/// too.
pub(crate) proof fn prepare_keeps<K, D>(
    longer: Trace<K, D>,
    trace: Trace<K, D>,
    at: int,
    options: OptionsView,
)
    requires
        extends(longer, trace),
        prepare_replay(trace, at, options) is Some,
    ensures
        prepare_replay(longer, at, options) == prepare_replay(trace, at, options),
{
    if let Some(Reply::Config(loaded)) = answer(trace, at, Call::LoadConfig) {
        if let Ok(config) = with_options(loaded, options) {
            setup_keeps(longer, trace, at + 1, config);
        }
    }
}

/// The error of a file that cannot be read.
fn unreadable_error(path: &str, message: String) -> (err: AppError)
    ensures
        err@ == unreadable(path@, message@),
{
    AppError::Io(
        "failed to read ".to_string().concat(path).concat(": ").concat(message.as_str()),
    )
}

impl<'a, R, C, U, H> Session<'a, R, C, U, H> where
    R: RasterOps,
    C: ContainerRuntime<R::EdfDocument>,
    U: UserContext,
    H: HostOps<R::ConfigDocument>,
 {
    /// Loads the configuration and prepares the imagestore.
    pub(crate) fn prepare(&mut self, options: &ExecOptions) -> (config: Result<
        Config<R::ConfigDocument>,
        AppError,
    >)
        requires
            old(self).wf(),
        ensures
            final(self).continues(*old(self)),
            prepare_replay(final(self).trace(), old(self).place(), options@) == Some(
                (final(self).place(), viewed_result(config)),
            ),
    {
        let config = match self.load_config(options) {
            Ok(config) => config,
            Err(err) => {
                return Err(err);
            },
        };
        match self.setup_imagestore(&config) {
            Ok(()) => Ok(config),
            Err(err) => Err(err),
        }
    }

    /// Pulls an image where it is not in the imagestore.
    fn provide(
        &mut self,
        image: &str,
        config: &Config<R::ConfigDocument>,
        options: &ExecOptions,
        output: AppOutput,
    ) -> (result: Result<AppOutput, AppError>)
        requires
            old(self).wf(),
        ensures
            final(self).continues(*old(self)),
            provide_replay(
                final(self).trace(),
                old(self).place(),
                image@,
                config@,
                options@,
                output@,
            ) == Some((final(self).place(), viewed_result(result))),
    {
        let seed = build_parallax_seed_ctx(config);
        let mut output = output;
        match self.parallax_exist(config.parallax_path.as_str(), &seed, image) {
            Err(err) => Err(err),
            Ok(found) => {
                if !found {
                    match self.pull_command(image, config, options) {
                        Ok(pulled) => {
                            merge_output(&mut output, pulled);
                        },
                        Err(err) => {
                            return Err(err);
                        },
                    }
                }
                Ok(output)
            },
        }
    }

    /// Pulls the images of a list that are not in the imagestore.
    fn provide_all(
        &mut self,
        images: &Vec<String>,
        config: &Config<R::ConfigDocument>,
        options: &ExecOptions,
        output: AppOutput,
    ) -> (result: Result<AppOutput, AppError>)
        requires
            old(self).wf(),
        ensures
            final(self).continues(*old(self)),
            provide_all_replay(
                final(self).trace(),
                old(self).place(),
                texts(images@),
                config@,
                options@,
                output@,
            ) == Some((final(self).place(), viewed_result(result))),
    {
        let ghost all = texts(images@);
        let ghost given = output@;
        let mut total = output;
        let mut k: usize = 0;
        proof {
            assert(all.skip(0) =~= all);
        }
        while k < images.len()
            invariant
                k <= images@.len(),
                all == texts(images@),
                given == output@,
                self.continues(*old(self)),
                forall|longer: Trace<R::ConfigDocument, R::EdfDocument>| #[trigger]
                    extends(longer, self.trace()) ==> provide_all_replay(
                        longer,
                        old(self).place(),
                        all,
                        config@,
                        options@,
                        given,
                    ) == provide_all_replay(
                        longer,
                        self.place(),
                        all.skip(k as int),
                        config@,
                        options@,
                        total@,
                    ),
            decreases images@.len() - k,
        {
            let ghost earlier = *self;
            let ghost before = total@;
            let provided = self.provide(images[k].as_str(), config, options, total);
            proof {
                assert(all.skip(k as int).skip(1) =~= all.skip(k + 1));
                assert(all.skip(k as int)[0] == images@[k as int]@);
                assert(extends(self.trace(), earlier.trace()));
            }
            match provided {
                Ok(provided) => {
                    total = provided;
                },
                Err(err) => {
                    return Err(err);
                },
            }
            proof {
                assert forall|longer: Trace<R::ConfigDocument, R::EdfDocument>| #[trigger]
                    extends(longer, self.trace()) implies provide_all_replay(
                    longer,
                    old(self).place(),
                    all,
                    config@,
                    options@,
                    given,
                ) == provide_all_replay(
                    longer,
                    self.place(),
                    all.skip(k + 1),
                    config@,
                    options@,
                    total@,
                ) by {
                    assert(extends(longer, earlier.trace()));
                    provide_keeps(
                        longer,
                        self.trace(),
                        earlier.place(),
                        images@[k as int]@,
                        config@,
                        options@,
                        before,
                    );
                }
            }
            k = k + 1;
        }
        proof {
            assert(extends(self.trace(), self.trace()));
        }
        Ok(total)
    }

    /// Whether the input is a terminal, and whether both ends are.
    fn terminals(&mut self) -> (both: (bool, bool))
        requires
            old(self).wf(),
        ensures
            final(self).continues(*old(self)),
            terminals_replay(final(self).trace(), old(self).place()) == Some(
                (final(self).place(), both.0, both.1),
            ),
    {
        let interactive = self.stdin_is_terminal();
        let mut tty = self.stdin_is_terminal();
        if tty {
            tty = self.stdout_is_terminal();
        }
        (interactive, tty)
    }

    /// Runs a container whose image is provided, and cleans up after it.
    fn run_container(
        &mut self,
        edf: &Edf<R::EdfDocument>,
        ctx: &PodmanCtx,
        container: &ContainerCtx,
        container_cmd: &Vec<String>,
        output: AppOutput,
    ) -> (result: Result<AppOutput, AppError>)
        requires
            old(self).wf(),
        ensures
            final(self).continues(*old(self)),
            container_replay(
                final(self).trace(),
                old(self).place(),
                edf@,
                ctx@,
                container@,
                texts(container_cmd@),
                output@,
            ) == Some((final(self).place(), viewed_result(result))),
    {
        let ran = self.run_from_edf(edf, ctx, container, container_cmd.as_slice());
        let cleaned = self.cleanup_container(container.name.as_str(), ctx);
        let warning = self.finalize_podman_cleanup(ctx, &cleaned);
        run_outcome(output, ran, warning)
    }

    /// Runs a command in a pod whose images are provided, and takes the pod down.
    fn run_pod(
        &mut self,
        filepath: &str,
        ctx: &PodmanCtx,
        container: &str,
        container_cmd: &Vec<String>,
        output: AppOutput,
    ) -> (result: Result<AppOutput, AppError>)
        requires
            old(self).wf(),
        ensures
            final(self).continues(*old(self)),
            pod_replay(
                final(self).trace(),
                old(self).place(),
                filepath@,
                ctx@,
                container@,
                texts(container_cmd@),
                output@,
            ) == Some((final(self).place(), viewed_result(result))),
    {
        let ran = match self.kube_play(filepath, ctx) {
            Ok(()) => self.exec_interactive(container, ctx, container_cmd.as_slice()),
            Err(err) => Err(err),
        };
        let down = self.kube_down(filepath, true, ctx);
        let warning = self.finalize_podman_cleanup(ctx, &down);
        pod_outcome(output, ran, down, warning)
    }

    /// Runs a container from an environment definition.
    fn run_edf_command(
        &mut self,
        edf: &Edf<R::EdfDocument>,
        container_cmd: &Vec<String>,
        config: &Config<R::ConfigDocument>,
        options: &ExecOptions,
    ) -> (result: Result<AppOutput, AppError>)
        requires
            old(self).wf(),
        ensures
            final(self).continues(*old(self)),
            run_edf_replay(
                final(self).trace(),
                old(self).place(),
                edf@,
                texts(container_cmd@),
                config@,
                options@,
            ) == Some((final(self).place(), viewed_result(result))),
    {
        proof {
            reveal(run_edf_replay);
        }
        let run_id = self.new_run_id();
        let user = match self.current_user() {
            Ok(user) => user,
            Err(err) => {
                return Err(err);
            },
        };
        let ctx = build_run_ctx(config, &user, &run_id);
        let image = edf.image.as_str();
        let provided = self.provide(image, config, options, AppOutput::success(""));
        let ghost ready = self.trace();
        let output = match provided {
            Ok(output) => output,
            Err(err) => {
                return Err(err);
            },
        };
        let (interactive, tty) = self.terminals();
        let container = ContainerCtx {
            name: "sarusctl-".to_string().concat(run_id.tag_text().as_str()),
            interactive,
            tty,
            detach: false,
            auto_remove: false,
            set_env: true,
            pidfile: None,
            user: Some(decimal_text(user.uid as u128)),
        };
        let result = self.run_container(edf, &ctx, &container, container_cmd, output);
        proof {
            provide_keeps(
                self.trace(),
                ready,
                old(self).place() + 2,
                image@,
                config@,
                options@,
                succeeded(""@),
            );
        }
        result
    }

    /// Runs a command in a pod that a Kubernetes manifest describes.
    fn run_yaml_command(
        &mut self,
        filepath: &str,
        container_cmd: &Vec<String>,
        config: &Config<R::ConfigDocument>,
        options: &ExecOptions,
    ) -> (result: Result<AppOutput, AppError>)
        requires
            old(self).wf(),
        ensures
            final(self).continues(*old(self)),
            run_yaml_replay(
                final(self).trace(),
                old(self).place(),
                filepath@,
                texts(container_cmd@),
                config@,
                options@,
            ) == Some((final(self).place(), viewed_result(result))),
    {
        proof {
            reveal(run_yaml_replay);
        }
        let user = match self.current_user() {
            Ok(user) => user,
            Err(err) => {
                return Err(err);
            },
        };
        let run_id = self.new_run_id();
        let ctx = PodmanCtx { module: None, ..build_run_ctx(config, &user, &run_id) };
        let contents = match self.read_to_string(filepath) {
            Ok(contents) => contents,
            Err(message) => {
                return Err(unreadable_error(filepath, message));
            },
        };
        let manifest = match parse_yaml_value_from_str(contents.as_str()) {
            Ok(manifest) => manifest,
            Err(err) => {
                return Err(err);
            },
        };
        let images = match extract_images_from_yaml_value(&manifest) {
            Ok(images) => images,
            Err(err) => {
                return Err(err);
            },
        };
        let provided = self.provide_all(&images, config, options, AppOutput::success(""));
        let ghost ready = self.trace();
        let output = match provided {
            Ok(output) => output,
            Err(err) => {
                return Err(err);
            },
        };
        let container = match get_join_container_from_yaml_manifest(&manifest) {
            Ok(container) => container,
            Err(err) => {
                return Err(err);
            },
        };
        let result = self.run_pod(filepath, &ctx, container.as_str(), container_cmd, output);
        proof {
            provide_all_keeps(
                self.trace(),
                ready,
                old(self).place() + 3,
                texts(images@),
                config@,
                options@,
                succeeded(""@),
            );
        }
        result
    }

    /// Runs a file: an environment definition or a Kubernetes manifest.
    pub(crate) fn run_command(
        &mut self,
        filepath: &str,
        container_cmd: &Vec<String>,
        options: &ExecOptions,
    ) -> (result: Result<AppOutput, AppError>)
        requires
            old(self).wf(),
        ensures
            final(self).continues(*old(self)),
            run_replay(
                final(self).trace(),
                old(self).place(),
                filepath@,
                texts(container_cmd@),
                options@,
            ) == Some((final(self).place(), viewed_result(result))),
    {
        proof {
            reveal(run_replay);
        }
        match self.render(filepath) {
            Ok(edf) => {
                let prepared = self.prepare(options);
                let ghost ready = self.trace();
                let config = match prepared {
                    Ok(config) => config,
                    Err(err) => {
                        return Err(err);
                    },
                };
                let result = self.run_edf_command(&edf, container_cmd, &config, options);
                proof {
                    prepare_keeps(self.trace(), ready, old(self).place() + 1, options@);
                }
                result
            },
            Err(_) => {
                let contents = match self.read_to_string(filepath) {
                    Ok(contents) => contents,
                    Err(message) => {
                        return Err(unreadable_error(filepath, message));
                    },
                };
                if let Err(_) = parse_yaml_value_from_str(contents.as_str()) {
                    return Err(
                        AppError::UnsupportedInput(
                            filepath.to_string().concat(" is not valid EDF nor YAML"),
                        ),
                    );
                }
                let prepared = self.prepare(options);
                let ghost ready = self.trace();
                let config = match prepared {
                    Ok(config) => config,
                    Err(err) => {
                        return Err(err);
                    },
                };
                let result = self.run_yaml_command(filepath, container_cmd, &config, options);
                proof {
                    prepare_keeps(self.trace(), ready, old(self).place() + 2, options@);
                }
                result
            },
        }
    }
}

} // verus!
