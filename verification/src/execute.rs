//! Executing a command.

use vstd::prelude::*;
use vstd::string::*;

use crate::command::{default_options, CommandSpec, CommandView, ExecOptions, OptionsView};
use crate::config::{Edf, EdfView};
use crate::deps::{AppDeps, ContainerRuntime, HostOps, RasterOps, UserContext};
use crate::error::{plain_reply, viewed_reply, viewed_result, AppError, ErrorView};
use crate::images::{images_replay, migrate_replay, pull_replay, rmi_replay};
use crate::loading::with_options;
use crate::output::{failed, succeeded, AppOutput, OutputView};
use crate::run::{prepare_keeps, prepare_replay, run_replay};
use crate::session::Session;
use crate::trace::{answer, genuine, Call, Reply, Told, Trace};

verus! {

/// The outcome of validating a file.
pub open spec fn validation(path: Seq<char>, verdict: Result<(), Seq<char>>) -> OutputView {
    match verdict {
        Ok(()) => succeeded(path + " is a valid EDF file"@),
        Err(message) => failed(path + " is an INVALID EDF file"@, message),
    }
}

/// The outcome of validating a file.
pub fn validation_output(filepath: &str, verdict: Result<(), String>) -> (output: AppOutput)
    ensures
        output@ == validation(filepath@, plain_reply(verdict)),
{
    match verdict {
        Ok(()) => AppOutput::success(
            filepath.to_string().concat(" is a valid EDF file").as_str(),
        ),
        Err(message) => AppOutput::failure(
            filepath.to_string().concat(" is an INVALID EDF file").as_str(),
            message.as_str(),
        ),
    }
}

/// The outcome of rendering a file: its JSON text, or `ERROR` where it has none.
pub open spec fn rendering<D>(rendered: Result<EdfView<D>, Seq<char>>) -> OutputView {
    match rendered {
        Ok(edf) => succeeded(
            match edf.json {
                Some(text) => text,
                None => "ERROR"@,
            },
        ),
        Err(message) => failed(""@, message),
    }
}

/// The outcome of rendering a file.
pub fn render_output<D>(rendered: Result<Edf<D>, String>) -> (output: AppOutput)
    ensures
        output@ == rendering(viewed_reply(rendered)),
{
    match rendered {
        Ok(edf) => match edf.json {
            Some(text) => AppOutput::success(text.as_str()),
            None => AppOutput::success("ERROR"),
        },
        Err(message) => AppOutput::failure("", message.as_str()),
    }
}

/// What a trace tells of executing a command.
#[verifier::opaque]
pub open spec fn command_replay<K, D>(
    trace: Trace<K, D>,
    at: int,
    command: CommandView,
    options: OptionsView,
) -> Told<OutputView> {
    match command {
        CommandView::Validate { filepath, .. } => match answer(
            trace,
            at,
            Call::Validate { path: filepath },
        ) {
            Some(Reply::Accepted(verdict)) => Some((at + 1, Ok(validation(filepath, verdict)))),
            _ => None,
        },
        CommandView::Render { filepath, .. } => match answer(
            trace,
            at,
            Call::Render { path: filepath },
        ) {
            Some(Reply::Edf(rendered)) => Some((at + 1, Ok(rendering(rendered)))),
            _ => None,
        },
        CommandView::Images => match answer(trace, at, Call::LoadConfig) {
            Some(Reply::Config(loaded)) => match with_options(loaded, options) {
                Err(err) => Some((at + 1, Err(err))),
                Ok(config) => images_replay(trace, at + 1, config),
            },
            _ => None,
        },
        CommandView::Rmi { image } => match answer(trace, at, Call::LoadConfig) {
            Some(Reply::Config(loaded)) => match with_options(loaded, options) {
                Err(err) => Some((at + 1, Err(err))),
                Ok(config) => rmi_replay(trace, at + 1, image, config, options),
            },
            _ => None,
        },
        CommandView::Pull { image } => match prepare_replay(trace, at, options) {
            None => None,
            Some((next, Err(err))) => Some((next, Err(err))),
            Some((next, Ok(config))) => pull_replay(trace, next, image, config, options),
        },
        CommandView::Migrate { image } => match prepare_replay(trace, at, options) {
            None => None,
            Some((next, Err(err))) => Some((next, Err(err))),
            Some((next, Ok(config))) => migrate_replay(trace, next, image, config, options),
        },
        CommandView::Run { filepath, container_cmd } => run_replay(
            trace,
            at,
            filepath,
            container_cmd,
            options,
        ),
    }
}

/// A trace of calls to these surroundings with the answers that they gave which, read from its first
/// step to its last, tells of the execution of a command with that result.
pub open spec fn executed<R, C, U, H>(
    deps: AppDeps<R, C, U, H>,
    trace: Trace<R::ConfigDocument, R::EdfDocument>,
    command: CommandView,
    options: OptionsView,
    result: Result<OutputView, ErrorView>,
) -> bool where
    R: RasterOps,
    C: ContainerRuntime<R::EdfDocument>,
    U: UserContext,
    H: HostOps<R::ConfigDocument>,
 {
    &&& forall|k: int| 0 <= k < trace.len() ==> genuine(deps, #[trigger] trace[k])
    &&& command_replay(trace, 0, command, options) == Some((trace.len() as int, result))
}

impl<'a, R, C, U, H> Session<'a, R, C, U, H> where
    R: RasterOps,
    C: ContainerRuntime<R::EdfDocument>,
    U: UserContext,
    H: HostOps<R::ConfigDocument>,
 {
    /// Executes a command.
    fn execute(&mut self, command: &CommandSpec, options: &ExecOptions) -> (result: Result<
        AppOutput,
        AppError,
    >)
        requires
            old(self).wf(),
        ensures
            final(self).continues(*old(self)),
            command_replay(final(self).trace(), old(self).place(), command@, options@) == Some(
                (final(self).place(), viewed_result(result)),
            ),
    {
        proof {
            reveal(command_replay);
        }
        match command {
            CommandSpec::Validate { filepath, .. } => {
                let verdict = self.validate(filepath.as_str());
                Ok(validation_output(filepath.as_str(), verdict))
            },
            CommandSpec::Render { filepath, .. } => Ok(
                render_output(self.render(filepath.as_str())),
            ),
            CommandSpec::Images => match self.load_config(options) {
                Ok(config) => self.images_command(&config),
                Err(err) => Err(err),
            },
            CommandSpec::Rmi { image } => match self.load_config(options) {
                Ok(config) => self.rmi_command(image.as_str(), &config, options),
                Err(err) => Err(err),
            },
            CommandSpec::Pull { image } => {
                let prepared = self.prepare(options);
                let ghost ready = self.trace();
                match prepared {
                    Ok(config) => {
                        let result = self.pull_command(image.as_str(), &config, options);
                        proof {
                            prepare_keeps(self.trace(), ready, old(self).place(), options@);
                        }
                        result
                    },
                    Err(err) => Err(err),
                }
            },
            CommandSpec::Migrate { image } => {
                let prepared = self.prepare(options);
                let ghost ready = self.trace();
                match prepared {
                    Ok(config) => {
                        let result = self.migrate_command(image.as_str(), &config, options);
                        proof {
                            prepare_keeps(self.trace(), ready, old(self).place(), options@);
                        }
                        result
                    },
                    Err(err) => Err(err),
                }
            },
            CommandSpec::Run { filepath, container_cmd } => self.run_command(
                filepath.as_str(),
                container_cmd,
                options,
            ),
        }
    }
}

/// Executes a command. The calls that it makes to its surroundings, and its result for each way in
/// which they may be answered, are those that [`command_replay`] describes.
pub fn execute_command_with_options<R, C, U, H>(
    command: CommandSpec,
    deps: &AppDeps<'_, R, C, U, H>,
    options: ExecOptions,
) -> (result: Result<AppOutput, AppError>) where
    R: RasterOps,
    C: ContainerRuntime<R::EdfDocument>,
    U: UserContext,
    H: HostOps<R::ConfigDocument>,

    ensures
        exists|trace: Trace<R::ConfigDocument, R::EdfDocument>| #[trigger]
            executed(*deps, trace, command@, options@, viewed_result(result)),
{
    let mut session = Session::new(deps);
    let result = session.execute(&command, &options);
    proof {
        assert(executed(*deps, session.trace(), command@, options@, viewed_result(result)));
    }
    result
}

/// Executes a command with the default options.
pub fn execute_command<R, C, U, H>(
    command: CommandSpec,
    deps: &AppDeps<'_, R, C, U, H>,
) -> (result: Result<AppOutput, AppError>) where
    R: RasterOps,
    C: ContainerRuntime<R::EdfDocument>,
    U: UserContext,
    H: HostOps<R::ConfigDocument>,

    ensures
        exists|trace: Trace<R::ConfigDocument, R::EdfDocument>| #[trigger]
            executed(*deps, trace, command@, default_options(), viewed_result(result)),
{
    execute_command_with_options(command, deps, ExecOptions::default())
}

} // verus!
