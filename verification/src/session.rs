//! A session: one execution of a command, with a record of every call that it makes.

use vstd::prelude::*;

use crate::command::ExecOptions;
use crate::config::{Config, ConfigView, Edf};
use crate::context::{draw_uuid, ContainerCtx, CurrentUser, PodmanCtx, RunId};
use crate::deps::{AppDeps, ContainerRuntime, HostOps, RasterOps, Removal, UserContext};
use crate::error::{
    plain_reply, plain_result, viewed_reply, viewed_result, AppError, ErrorView,
};
use crate::loading::{load_config_with_options, with_options};
use crate::podman::HookOutput;
use crate::text::texts;
use crate::trace::{extends, genuine, hook_reply, Call, Reply, Step, Trace};

verus! {

/// The surroundings of a command, and the trace of the calls that it has made to them. Both are
/// reached through the methods of this module only, of which each makes one call and notes it.
pub struct Session<'a, R, C, U, H> where
    R: RasterOps,
    C: ContainerRuntime<R::EdfDocument>,
    U: UserContext,
    H: HostOps<R::ConfigDocument>,
 {
    deps: &'a AppDeps<'a, R, C, U, H>,
    log: Ghost<Trace<R::ConfigDocument, R::EdfDocument>>,
}

impl<'a, R, C, U, H> Session<'a, R, C, U, H> where
    R: RasterOps,
    C: ContainerRuntime<R::EdfDocument>,
    U: UserContext,
    H: HostOps<R::ConfigDocument>,
 {
    /// The calls that were made, each with its answer.
    pub closed spec fn trace(self) -> Trace<R::ConfigDocument, R::EdfDocument> {
        self.log@
    }

    /// The surroundings that were called.
    pub closed spec fn surroundings(self) -> AppDeps<'a, R, C, U, H> {
        *self.deps
    }

    /// All steps of the trace took place.
    pub open spec fn wf(self) -> bool {
        forall|k: int|
            0 <= k < self.trace().len() ==> genuine(
                self.surroundings(),
                #[trigger] self.trace()[k],
            )
    }

    /// This session is `before` and one step more.
    pub open spec fn noted(
        self,
        before: Self,
        call: Call<R::ConfigDocument, R::EdfDocument>,
        reply: Reply<R::ConfigDocument, R::EdfDocument>,
    ) -> bool {
        &&& self.surroundings() == before.surroundings()
        &&& self.trace() == before.trace().push(Step { call, reply })
        &&& self.wf()
    }

    /// This session is `before` and any number of steps more.
    pub open spec fn continues(self, before: Self) -> bool {
        &&& self.surroundings() == before.surroundings()
        &&& extends(self.trace(), before.trace())
        &&& self.wf()
    }

    /// The place in the trace where the next step goes.
    pub open spec fn place(self) -> int {
        self.trace().len() as int
    }

    /// A session that took down one more step that took place.
    proof fn noting(before: Self, after: Self)
        requires
            before.wf(),
            after.deps == before.deps,
            after.log@ == before.log@.push(after.log@.last()),
            genuine(*before.deps, after.log@.last()),
        ensures
            after.noted(before, after.log@.last().call, after.log@.last().reply),
    {
        assert forall|k: int| 0 <= k < after.trace().len() implies genuine(
            after.surroundings(),
            #[trigger] after.trace()[k],
        ) by {
            if k < before.trace().len() {
                assert(after.trace()[k] == before.trace()[k]);
            }
        }
    }

    /// A session in which nothing has been called.
    pub(crate) fn new(deps: &'a AppDeps<'a, R, C, U, H>) -> (session: Self)
        ensures
            session.surroundings() == *deps,
            session.trace().len() == 0,
            session.wf(),
    {
        Session { deps, log: Ghost(Seq::empty()) }
    }

    /// Loads the configuration and applies the options of the invocation to it.
    pub(crate) fn load_config(&mut self, options: &ExecOptions) -> (config: Result<
        Config<R::ConfigDocument>,
        AppError,
    >)
        requires
            old(self).wf(),
        ensures
            exists|answer: Result<ConfigView<R::ConfigDocument>, ErrorView>|
                {
                    &&& #[trigger] final(self).noted(
                        *old(self),
                        Call::LoadConfig,
                        Reply::Config(answer),
                    )
                    &&& viewed_result(config) == with_options(answer, options@)
                },
    {
        let config = load_config_with_options(self.deps.raster, options);
        proof {
            reveal(genuine);
            let answer = choose|answer: Result<Config<R::ConfigDocument>, AppError>|
                {
                    &&& #[trigger] call_ensures(R::load_config, (self.deps.raster,), answer)
                    &&& viewed_result(config) == with_options(viewed_result(answer), options@)
                };
            let reply = Reply::Config(viewed_result(answer));
            self.log@ = self.log@.push(Step { call: Call::LoadConfig, reply });
            Self::noting(*old(self), *self);
        }
        config
    }

    /// Has a file validated.
    pub(crate) fn validate(&mut self, path: &str) -> (answer: Result<(), String>)
        requires
            old(self).wf(),
        ensures
            final(self).noted(
                *old(self),
                Call::Validate { path: path@ },
                Reply::Accepted(plain_reply(answer)),
            ),
    {
        let answer = self.deps.raster.validate(path);
        proof {
            reveal(genuine);
            self.log@ = self.log@.push(
                Step {
                    call: Call::Validate { path: path@ },
                    reply: Reply::Accepted(plain_reply(answer)),
                },
            );
            Self::noting(*old(self), *self);
        }
        answer
    }

    /// Has a file rendered.
    pub(crate) fn render(&mut self, path: &str) -> (answer: Result<Edf<R::EdfDocument>, String>)
        requires
            old(self).wf(),
        ensures
            final(self).noted(
                *old(self),
                Call::Render { path: path@ },
                Reply::Edf(viewed_reply(answer)),
            ),
    {
        let answer = self.deps.raster.render(path);
        proof {
            reveal(genuine);
            self.log@ = self.log@.push(
                Step {
                    call: Call::Render { path: path@ },
                    reply: Reply::Edf(viewed_reply(answer)),
                },
            );
            Self::noting(*old(self), *self);
        }
        answer
    }

    /// Asks who the user is.
    pub(crate) fn current_user(&mut self) -> (answer: Result<CurrentUser, AppError>)
        requires
            old(self).wf(),
        ensures
            final(self).noted(
                *old(self),
                Call::CurrentUser,
                Reply::User(plain_result(answer)),
            ),
    {
        let answer = self.deps.user.current_user();
        proof {
            reveal(genuine);
            self.log@ = self.log@.push(
                Step {
                    call: Call::CurrentUser,
                    reply: Reply::User(plain_result(answer)),
                },
            );
            Self::noting(*old(self), *self);
        }
        answer
    }

    /// Asks Podman for its graphroot.
    pub(crate) fn default_graphroot(
        &mut self,
        ctx: &PodmanCtx,
    ) -> (answer: Result<String, AppError>)
        requires
            old(self).wf(),
        ensures
            final(self).noted(
                *old(self),
                Call::DefaultGraphroot { ctx: ctx@ },
                Reply::Graphroot(viewed_result(answer)),
            ),
    {
        let answer = self.deps.runtime.default_graphroot(ctx);
        proof {
            reveal(genuine);
            self.log@ = self.log@.push(
                Step {
                    call: Call::DefaultGraphroot { ctx: ctx@ },
                    reply: Reply::Graphroot(viewed_result(answer)),
                },
            );
            Self::noting(*old(self), *self);
        }
        answer
    }

    /// Has the images listed.
    pub(crate) fn images(&mut self, ctx: &PodmanCtx) -> (answer: Result<(), AppError>)
        requires
            old(self).wf(),
        ensures
            final(self).noted(
                *old(self),
                Call::Images { ctx: ctx@ },
                Reply::Done(plain_result(answer)),
            ),
    {
        let answer = self.deps.runtime.images(ctx);
        proof {
            reveal(genuine);
            self.log@ = self.log@.push(
                Step {
                    call: Call::Images { ctx: ctx@ },
                    reply: Reply::Done(plain_result(answer)),
                },
            );
            Self::noting(*old(self), *self);
        }
        answer
    }

    /// Has Podman pull an image.
    pub(crate) fn pull(
        &mut self,
        image: &str,
        ctx: &PodmanCtx,
        verbose: bool,
    ) -> (answer: Result<(), AppError>)
        requires
            old(self).wf(),
        ensures
            final(self).noted(
                *old(self),
                Call::Pull { image: image@, ctx: ctx@, verbose },
                Reply::Done(plain_result(answer)),
            ),
    {
        let answer = self.deps.runtime.pull(image, ctx, verbose);
        proof {
            reveal(genuine);
            self.log@ = self.log@.push(
                Step {
                    call: Call::Pull { image: image@, ctx: ctx@, verbose },
                    reply: Reply::Done(plain_result(answer)),
                },
            );
            Self::noting(*old(self), *self);
        }
        answer
    }

    /// Asks Podman whether it has an image.
    pub(crate) fn image_exists(
        &mut self,
        image: &str,
        ctx: &PodmanCtx,
    ) -> (answer: Result<bool, AppError>)
        requires
            old(self).wf(),
        ensures
            final(self).noted(
                *old(self),
                Call::ImageExists { image: image@, ctx: ctx@ },
                Reply::Found(plain_result(answer)),
            ),
    {
        let answer = self.deps.runtime.image_exists(image, ctx);
        proof {
            reveal(genuine);
            self.log@ = self.log@.push(
                Step {
                    call: Call::ImageExists { image: image@, ctx: ctx@ },
                    reply: Reply::Found(plain_result(answer)),
                },
            );
            Self::noting(*old(self), *self);
        }
        answer
    }

    /// Asks Parallax whether the imagestore has an image.
    pub(crate) fn parallax_exist(
        &mut self,
        parallax: &str,
        ctx: &PodmanCtx,
        image: &str,
    ) -> (answer: Result<bool, AppError>)
        requires
            old(self).wf(),
        ensures
            final(self).noted(
                *old(self),
                Call::ParallaxExist { parallax: parallax@, ctx: ctx@, image: image@ },
                Reply::Found(plain_result(answer)),
            ),
    {
        let answer = self.deps.runtime.parallax_exist(parallax, ctx, image);
        proof {
            reveal(genuine);
            self.log@ = self.log@.push(
                Step {
                    call: Call::ParallaxExist { parallax: parallax@, ctx: ctx@, image: image@ },
                    reply: Reply::Found(plain_result(answer)),
                },
            );
            Self::noting(*old(self), *self);
        }
        answer
    }

    /// Has Parallax copy an image to the imagestore.
    pub(crate) fn parallax_migrate(
        &mut self,
        parallax: &str,
        ctx: &PodmanCtx,
        image: &str,
        verbose: bool,
    ) -> (answer: Result<(), AppError>)
        requires
            old(self).wf(),
        ensures
            final(self).noted(
                *old(self),
                Call::ParallaxMigrate { parallax: parallax@, ctx: ctx@, image: image@, verbose },
                Reply::Done(plain_result(answer)),
            ),
    {
        let answer = self.deps.runtime.parallax_migrate(parallax, ctx, image, verbose);
        proof {
            reveal(genuine);
            self.log@ = self.log@.push(
                Step {
                    call: Call::ParallaxMigrate {
                        parallax: parallax@,
                        ctx: ctx@,
                        image: image@,
                        verbose,
                    },
                    reply: Reply::Done(plain_result(answer)),
                },
            );
            Self::noting(*old(self), *self);
        }
        answer
    }

    /// Has Parallax remove an image from the imagestore.
    pub(crate) fn parallax_rmi(
        &mut self,
        parallax: &str,
        ctx: &PodmanCtx,
        image: &str,
        verbose: bool,
    ) -> (answer: Result<(), AppError>)
        requires
            old(self).wf(),
        ensures
            final(self).noted(
                *old(self),
                Call::ParallaxRmi { parallax: parallax@, ctx: ctx@, image: image@, verbose },
                Reply::Done(plain_result(answer)),
            ),
    {
        let answer = self.deps.runtime.parallax_rmi(parallax, ctx, image, verbose);
        proof {
            reveal(genuine);
            self.log@ = self.log@.push(
                Step {
                    call: Call::ParallaxRmi {
                        parallax: parallax@,
                        ctx: ctx@,
                        image: image@,
                        verbose,
                    },
                    reply: Reply::Done(plain_result(answer)),
                },
            );
            Self::noting(*old(self), *self);
        }
        answer
    }

    /// Has a container run from an environment definition.
    pub(crate) fn run_from_edf(
        &mut self,
        edf: &Edf<R::EdfDocument>,
        ctx: &PodmanCtx,
        container: &ContainerCtx,
        command: &[String],
    ) -> (answer: Result<i32, AppError>)
        requires
            old(self).wf(),
        ensures
            final(self).noted(
                *old(self),
                Call::RunFromEdf {
                    edf: edf@,
                    ctx: ctx@,
                    container: container@,
                    command: texts(command@),
                },
                Reply::Code(plain_result(answer)),
            ),
    {
        let answer = self.deps.runtime.run_from_edf(edf, ctx, container, command);
        proof {
            reveal(genuine);
            self.log@ = self.log@.push(
                Step {
                    call: Call::RunFromEdf {
                        edf: edf@,
                        ctx: ctx@,
                        container: container@,
                        command: texts(command@),
                    },
                    reply: Reply::Code(plain_result(answer)),
                },
            );
            Self::noting(*old(self), *self);
        }
        answer
    }

    /// Has a command run in a container.
    pub(crate) fn exec_interactive(
        &mut self,
        container: &str,
        ctx: &PodmanCtx,
        command: &[String],
    ) -> (answer: Result<i32, AppError>)
        requires
            old(self).wf(),
        ensures
            final(self).noted(
                *old(self),
                Call::ExecInteractive { name: container@, ctx: ctx@, command: texts(command@) },
                Reply::Code(plain_result(answer)),
            ),
    {
        let answer = self.deps.runtime.exec_interactive(container, ctx, command);
        proof {
            reveal(genuine);
            self.log@ = self.log@.push(
                Step {
                    call: Call::ExecInteractive {
                        name: container@,
                        ctx: ctx@,
                        command: texts(command@),
                    },
                    reply: Reply::Code(plain_result(answer)),
                },
            );
            Self::noting(*old(self), *self);
        }
        answer
    }

    /// Has a pod played.
    pub(crate) fn kube_play(
        &mut self,
        path: &str,
        ctx: &PodmanCtx,
    ) -> (answer: Result<(), AppError>)
        requires
            old(self).wf(),
        ensures
            final(self).noted(
                *old(self),
                Call::KubePlay { path: path@, ctx: ctx@ },
                Reply::Done(plain_result(answer)),
            ),
    {
        let answer = self.deps.runtime.kube_play(path, ctx);
        proof {
            reveal(genuine);
            self.log@ = self.log@.push(
                Step {
                    call: Call::KubePlay { path: path@, ctx: ctx@ },
                    reply: Reply::Done(plain_result(answer)),
                },
            );
            Self::noting(*old(self), *self);
        }
        answer
    }

    /// Has a pod taken down.
    pub(crate) fn kube_down(
        &mut self,
        path: &str,
        force: bool,
        ctx: &PodmanCtx,
    ) -> (answer: Result<(), AppError>)
        requires
            old(self).wf(),
        ensures
            final(self).noted(
                *old(self),
                Call::KubeDown { path: path@, force, ctx: ctx@ },
                Reply::Done(plain_result(answer)),
            ),
    {
        let answer = self.deps.runtime.kube_down(path, force, ctx);
        proof {
            reveal(genuine);
            self.log@ = self.log@.push(
                Step {
                    call: Call::KubeDown { path: path@, force, ctx: ctx@ },
                    reply: Reply::Done(plain_result(answer)),
                },
            );
            Self::noting(*old(self), *self);
        }
        answer
    }

    /// Has what is left of a container removed.
    pub(crate) fn cleanup_container(
        &mut self,
        container: &str,
        ctx: &PodmanCtx,
    ) -> (answer: Result<(), AppError>)
        requires
            old(self).wf(),
        ensures
            final(self).noted(
                *old(self),
                Call::CleanupContainer { name: container@, ctx: ctx@ },
                Reply::Done(plain_result(answer)),
            ),
    {
        let answer = self.deps.runtime.cleanup_container(container, ctx);
        proof {
            reveal(genuine);
            self.log@ = self.log@.push(
                Step {
                    call: Call::CleanupContainer { name: container@, ctx: ctx@ },
                    reply: Reply::Done(plain_result(answer)),
                },
            );
            Self::noting(*old(self), *self);
        }
        answer
    }

    /// Makes up the identifier of a run.
    pub(crate) fn new_run_id(&mut self) -> (answer: RunId)
        requires
            old(self).wf(),
        ensures
            final(self).noted(
                *old(self),
                Call::NewRunId,
                Reply::Id(answer),
            ),
    {
        let answer = RunId { bits: draw_uuid() };
        proof {
            reveal(genuine);
            self.log@ = self.log@.push(
                Step {
                    call: Call::NewRunId,
                    reply: Reply::Id(answer),
                },
            );
            Self::noting(*old(self), *self);
        }
        answer
    }

    /// Has a hook of the host run.
    pub(crate) fn hook_run(
        &mut self,
        config: &Config<R::ConfigDocument>,
        hook: &str,
        arguments: &[String],
    ) -> (answer: Result<Option<HookOutput>, String>)
        requires
            old(self).wf(),
        ensures
            final(self).noted(
                *old(self),
                Call::HookRun { config: config@, hook: hook@, arguments: texts(arguments@) },
                Reply::Hook(hook_reply(answer)),
            ),
    {
        let answer = self.deps.host.hook_run(config, hook, arguments);
        proof {
            reveal(genuine);
            self.log@ = self.log@.push(
                Step {
                    call: Call::HookRun {
                        config: config@,
                        hook: hook@,
                        arguments: texts(arguments@),
                    },
                    reply: Reply::Hook(hook_reply(answer)),
                },
            );
            Self::noting(*old(self), *self);
        }
        answer
    }

    /// Asks whether there is something under a path.
    pub(crate) fn path_exists(&mut self, path: &str) -> (answer: Result<bool, String>)
        requires
            old(self).wf(),
        ensures
            final(self).noted(
                *old(self),
                Call::PathExists { path: path@ },
                Reply::Exists(plain_reply(answer)),
            ),
    {
        let answer = self.deps.host.path_exists(path);
        proof {
            reveal(genuine);
            self.log@ = self.log@.push(
                Step {
                    call: Call::PathExists { path: path@ },
                    reply: Reply::Exists(plain_reply(answer)),
                },
            );
            Self::noting(*old(self), *self);
        }
        answer
    }

    /// Has a directory created.
    pub(crate) fn create_dir_all(&mut self, path: &str) -> (answer: Result<(), String>)
        requires
            old(self).wf(),
        ensures
            final(self).noted(
                *old(self),
                Call::CreateDirAll { path: path@ },
                Reply::Accepted(plain_reply(answer)),
            ),
    {
        let answer = self.deps.host.create_dir_all(path);
        proof {
            reveal(genuine);
            self.log@ = self.log@.push(
                Step {
                    call: Call::CreateDirAll { path: path@ },
                    reply: Reply::Accepted(plain_reply(answer)),
                },
            );
            Self::noting(*old(self), *self);
        }
        answer
    }

    /// Has a file read.
    pub(crate) fn read_to_string(&mut self, path: &str) -> (answer: Result<String, String>)
        requires
            old(self).wf(),
        ensures
            final(self).noted(
                *old(self),
                Call::ReadToString { path: path@ },
                Reply::Contents(viewed_reply(answer)),
            ),
    {
        let answer = self.deps.host.read_to_string(path);
        proof {
            reveal(genuine);
            self.log@ = self.log@.push(
                Step {
                    call: Call::ReadToString { path: path@ },
                    reply: Reply::Contents(viewed_reply(answer)),
                },
            );
            Self::noting(*old(self), *self);
        }
        answer
    }

    /// Has a directory removed.
    pub(crate) fn remove_dir_all(&mut self, path: &str) -> (answer: Removal)
        requires
            old(self).wf(),
        ensures
            final(self).noted(
                *old(self),
                Call::RemoveDirAll { path: path@ },
                Reply::Removal(answer@),
            ),
    {
        let answer = self.deps.host.remove_dir_all(path);
        proof {
            reveal(genuine);
            self.log@ = self.log@.push(
                Step {
                    call: Call::RemoveDirAll { path: path@ },
                    reply: Reply::Removal(answer@),
                },
            );
            Self::noting(*old(self), *self);
        }
        answer
    }

    /// Asks whether there is something under a path, as far as can be told.
    pub(crate) fn is_present(&mut self, path: &str) -> (answer: bool)
        requires
            old(self).wf(),
        ensures
            final(self).noted(
                *old(self),
                Call::IsPresent { path: path@ },
                Reply::Flag(answer),
            ),
    {
        let answer = self.deps.host.is_present(path);
        proof {
            reveal(genuine);
            self.log@ = self.log@.push(
                Step {
                    call: Call::IsPresent { path: path@ },
                    reply: Reply::Flag(answer),
                },
            );
            Self::noting(*old(self), *self);
        }
        answer
    }

    /// Asks for the names in a directory.
    pub(crate) fn dir_entries(&mut self, path: &str) -> (answer: Vec<String>)
        requires
            old(self).wf(),
        ensures
            final(self).noted(
                *old(self),
                Call::DirEntries { path: path@ },
                Reply::Names(texts(answer@)),
            ),
    {
        let answer = self.deps.host.dir_entries(path);
        proof {
            reveal(genuine);
            self.log@ = self.log@.push(
                Step {
                    call: Call::DirEntries { path: path@ },
                    reply: Reply::Names(texts(answer@)),
                },
            );
            Self::noting(*old(self), *self);
        }
        answer
    }

    /// Reads the clock.
    pub(crate) fn clock(&mut self) -> (answer: u64)
        requires
            old(self).wf(),
        ensures
            final(self).noted(
                *old(self),
                Call::Clock,
                Reply::Nanos(answer),
            ),
    {
        let answer = self.deps.host.clock();
        proof {
            reveal(genuine);
            self.log@ = self.log@.push(
                Step {
                    call: Call::Clock,
                    reply: Reply::Nanos(answer),
                },
            );
            Self::noting(*old(self), *self);
        }
        answer
    }

    /// Asks whether the input is a terminal.
    pub(crate) fn stdin_is_terminal(&mut self) -> (answer: bool)
        requires
            old(self).wf(),
        ensures
            final(self).noted(
                *old(self),
                Call::StdinIsTerminal,
                Reply::Flag(answer),
            ),
    {
        let answer = self.deps.host.stdin_is_terminal();
        proof {
            reveal(genuine);
            self.log@ = self.log@.push(
                Step {
                    call: Call::StdinIsTerminal,
                    reply: Reply::Flag(answer),
                },
            );
            Self::noting(*old(self), *self);
        }
        answer
    }

    /// Asks whether the output is a terminal.
    pub(crate) fn stdout_is_terminal(&mut self) -> (answer: bool)
        requires
            old(self).wf(),
        ensures
            final(self).noted(
                *old(self),
                Call::StdoutIsTerminal,
                Reply::Flag(answer),
            ),
    {
        let answer = self.deps.host.stdout_is_terminal();
        proof {
            reveal(genuine);
            self.log@ = self.log@.push(
                Step {
                    call: Call::StdoutIsTerminal,
                    reply: Reply::Flag(answer),
                },
            );
            Self::noting(*old(self), *self);
        }
        answer
    }

    /// Waits.
    pub(crate) fn pause(&mut self, millis: u64)
        requires
            old(self).wf(),
        ensures
            final(self).noted(*old(self), Call::Pause { millis }, Reply::Nothing),
    {
        self.deps.host.pause(millis);
        proof {
            reveal(genuine);
            self.log@ = self.log@.push(
                Step { call: Call::Pause { millis }, reply: Reply::Nothing },
            );
            Self::noting(*old(self), *self);
        }
    }

    /// Has a line written.
    pub(crate) fn tell(&mut self, line: &str)
        requires
            old(self).wf(),
        ensures
            final(self).noted(*old(self), Call::Tell { line: line@ }, Reply::Nothing),
    {
        self.deps.host.tell(line);
        proof {
            reveal(genuine);
            self.log@ = self.log@.push(
                Step { call: Call::Tell { line: line@ }, reply: Reply::Nothing },
            );
            Self::noting(*old(self), *self);
        }
    }
}

} // verus!
