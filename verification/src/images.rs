//! Listing, pulling, migrating and removing images.

use vstd::prelude::*;
use vstd::string::*;

use crate::command::{ExecOptions, OptionsView};
use crate::config::{Config, ConfigView};
use crate::context::{
    build_parallax_seed_ctx, build_pull_ctx, parallax_ctx, pull_ctx, seed_ctx, PodmanCtx,
};
use crate::deps::{ContainerRuntime, HostOps, RasterOps, UserContext};
use crate::error::{viewed_result, AppError, ErrorView};
use crate::imagestore::{setup_keeps, setup_replay};
use crate::output::{merge_output, merged, succeeded, AppOutput, OutputView};
use crate::session::Session;
use crate::trace::{answer, extends, Call, Reply, Told, Trace};

verus! {

/// What a trace tells of listing the images: the default graphroot is asked for, the imagestore
/// prepared, and Podman lists what both hold.
pub open spec fn images_replay<K, D>(trace: Trace<K, D>, at: int, config: ConfigView<K>) -> Told<
    OutputView,
> {
    match answer(trace, at, Call::DefaultGraphroot { ctx: seed_ctx(config) }) {
        Some(Reply::Graphroot(Err(err))) => Some((at + 1, Err(err))),
        Some(Reply::Graphroot(Ok(graphroot))) => match setup_replay(trace, at + 1, config) {
            None => None,
            Some((next, Err(err))) => Some((next, Err(err))),
            Some((next, Ok(()))) => match answer(
                trace,
                next,
                Call::Images { ctx: parallax_ctx(config, graphroot) },
            ) {
                Some(Reply::Done(Ok(()))) => Some((next + 1, Ok(succeeded(""@)))),
                Some(Reply::Done(Err(err))) => Some((next + 1, Err(err))),
                _ => None,
            },
        },
        _ => None,
    }
}

/// What a trace tells of migrating an image: the default graphroot is asked for, Parallax copies
/// the image from there, and the image is looked for in the imagestore.
pub open spec fn migrate_replay<K, D>(
    trace: Trace<K, D>,
    at: int,
    image: Seq<char>,
    config: ConfigView<K>,
    options: OptionsView,
) -> Told<OutputView> {
    match answer(trace, at, Call::DefaultGraphroot { ctx: seed_ctx(config) }) {
        Some(Reply::Graphroot(Err(err))) => Some((at + 1, Err(err))),
        Some(Reply::Graphroot(Ok(graphroot))) => {
            let ctx = parallax_ctx(config, graphroot);
            let parallax = config.parallax_path;
            let verbose = options.verbose;
            let line = "Migrating "@ + image + " with Parallax..."@;
            if answer(trace, at + 1, Call::Tell { line }) != Some(Reply::<K, D>::Nothing) {
                None
            } else {
                match answer(
                    trace,
                    at + 2,
                    Call::ParallaxMigrate { parallax, ctx, image, verbose },
                ) {
                    Some(Reply::Done(Err(err))) => Some((at + 3, Err(err))),
                    Some(Reply::Done(Ok(()))) => match answer(
                        trace,
                        at + 3,
                        Call::ParallaxExist { parallax, ctx, image },
                    ) {
                        Some(Reply::Found(Ok(true))) => Some((at + 4, Ok(succeeded(""@)))),
                        Some(Reply::Found(Ok(false))) => Some(
                            (
                                at + 4,
                                Err(
                                    ErrorView::Runtime(
                                        "Image "@ + image + " is still missing after migration"@,
                                    ),
                                ),
                            ),
                        ),
                        Some(Reply::Found(Err(err))) => Some((at + 4, Err(err))),
                        _ => None,
                    },
                    _ => None,
                }
            }
        },
        _ => None,
    }
}

/// What a trace tells of pulling an image: Podman pulls it, the image is looked for, and it is
/// migrated.
pub open spec fn pull_replay<K, D>(
    trace: Trace<K, D>,
    at: int,
    image: Seq<char>,
    config: ConfigView<K>,
    options: OptionsView,
) -> Told<OutputView> {
    let ctx = pull_ctx(config);
    let line = "Pulling "@ + image + " with Podman..."@;
    if answer(trace, at, Call::Tell { line }) != Some(Reply::<K, D>::Nothing) {
        None
    } else {
        match answer(trace, at + 1, Call::Pull { image, ctx, verbose: options.verbose }) {
            Some(Reply::Done(Err(err))) => Some((at + 2, Err(err))),
            Some(Reply::Done(Ok(()))) => match answer(
                trace,
                at + 2,
                Call::ImageExists { image, ctx },
            ) {
                Some(Reply::Found(Ok(true))) => match migrate_replay(
                    trace,
                    at + 3,
                    image,
                    config,
                    options,
                ) {
                    None => None,
                    Some((next, Err(err))) => Some((next, Err(err))),
                    Some((next, Ok(output))) => Some(
                        (next, Ok(merged(succeeded(""@), output))),
                    ),
                },
                Some(Reply::Found(Ok(false))) => Some(
                    (
                        at + 3,
                        Err(
                            ErrorView::Runtime(
                                "Image "@ + image + " is still missing after pull"@,
                            ),
                        ),
                    ),
                ),
                Some(Reply::Found(Err(err))) => Some((at + 3, Err(err))),
                _ => None,
            },
            _ => None,
        }
    }
}

/// What a trace tells of removing an image from the imagestore: the default graphroot is asked
/// for, the imagestore prepared, and Parallax removes the image.
pub open spec fn rmi_replay<K, D>(
    trace: Trace<K, D>,
    at: int,
    image: Seq<char>,
    config: ConfigView<K>,
    options: OptionsView,
) -> Told<OutputView> {
    match answer(trace, at, Call::DefaultGraphroot { ctx: seed_ctx(config) }) {
        Some(Reply::Graphroot(Err(err))) => Some((at + 1, Err(err))),
        Some(Reply::Graphroot(Ok(graphroot))) => match setup_replay(trace, at + 1, config) {
            None => None,
            Some((next, Err(err))) => Some((next, Err(err))),
            Some((next, Ok(()))) => match answer(
                trace,
                next,
                Call::ParallaxRmi {
                    parallax: config.parallax_path,
                    ctx: parallax_ctx(config, graphroot),
                    image,
                    verbose: options.verbose,
                },
            ) {
                Some(Reply::Done(Ok(()))) => Some((next + 1, Ok(succeeded(""@)))),
                Some(Reply::Done(Err(err))) => Some((next + 1, Err(err))),
                _ => None,
            },
        },
        _ => None,
    }
}

/// What a trace tells of pulling an image, a longer one tells too.
pub(crate) proof fn pull_keeps<K, D>(
    longer: Trace<K, D>,
    trace: Trace<K, D>,
    at: int,
    image: Seq<char>,
    config: ConfigView<K>,
    options: OptionsView,
)
    requires
        extends(longer, trace),
        pull_replay(trace, at, image, config, options) is Some,
    ensures
        pull_replay(longer, at, image, config, options) == pull_replay(
            trace,
            at,
            image,
            config,
            options,
        ),
{
}

impl<'a, R, C, U, H> Session<'a, R, C, U, H> where
    R: RasterOps,
    C: ContainerRuntime<R::EdfDocument>,
    U: UserContext,
    H: HostOps<R::ConfigDocument>,
 {
    /// Lists the images of Podman and of the imagestore.
    pub(crate) fn images_command(&mut self, config: &Config<R::ConfigDocument>) -> (result: Result<
        AppOutput,
        AppError,
    >)
        requires
            old(self).wf(),
        ensures
            final(self).continues(*old(self)),
            images_replay(final(self).trace(), old(self).place(), config@) == Some(
                (final(self).place(), viewed_result(result)),
            ),
    {
        let seed = build_parallax_seed_ctx(config);
        let graphroot = match self.default_graphroot(&seed) {
            Ok(graphroot) => graphroot,
            Err(err) => {
                return Err(err);
            },
        };
        let ctx = PodmanCtx { graphroot: Some(graphroot), ..seed };
        let prepared = self.setup_imagestore(config);
        let ghost ready = self.trace();
        if let Err(err) = prepared {
            return Err(err);
        }
        let listed = self.images(&ctx);
        proof {
            setup_keeps(self.trace(), ready, old(self).place() + 1, config@);
        }
        match listed {
            Ok(()) => Ok(AppOutput::success("")),
            Err(err) => Err(err),
        }
    }

    /// Copies an image to the imagestore.
    pub(crate) fn migrate_command(
        &mut self,
        image: &str,
        config: &Config<R::ConfigDocument>,
        options: &ExecOptions,
    ) -> (result: Result<AppOutput, AppError>)
        requires
            old(self).wf(),
        ensures
            final(self).continues(*old(self)),
            migrate_replay(final(self).trace(), old(self).place(), image@, config@, options@) == Some(
                (final(self).place(), viewed_result(result)),
            ),
    {
        let seed = build_parallax_seed_ctx(config);
        let graphroot = match self.default_graphroot(&seed) {
            Ok(graphroot) => graphroot,
            Err(err) => {
                return Err(err);
            },
        };
        let ctx = PodmanCtx { graphroot: Some(graphroot), ..seed };
        let parallax = config.parallax_path.as_str();
        let line = "Migrating ".to_string().concat(image).concat(" with Parallax...");
        self.tell(line.as_str());
        if let Err(err) = self.parallax_migrate(parallax, &ctx, image, options.verbose) {
            return Err(err);
        }
        match self.parallax_exist(parallax, &ctx, image) {
            Ok(found) => if found {
                Ok(AppOutput::success(""))
            } else {
                Err(
                    AppError::Runtime(
                        "Image ".to_string().concat(image).concat(
                            " is still missing after migration",
                        ),
                    ),
                )
            },
            Err(err) => Err(err),
        }
    }

    /// Pulls an image and copies it to the imagestore.
    pub(crate) fn pull_command(
        &mut self,
        image: &str,
        config: &Config<R::ConfigDocument>,
        options: &ExecOptions,
    ) -> (result: Result<AppOutput, AppError>)
        requires
            old(self).wf(),
        ensures
            final(self).continues(*old(self)),
            pull_replay(final(self).trace(), old(self).place(), image@, config@, options@) == Some(
                (final(self).place(), viewed_result(result)),
            ),
    {
        let ctx = build_pull_ctx(config);
        let line = "Pulling ".to_string().concat(image).concat(" with Podman...");
        self.tell(line.as_str());
        if let Err(err) = self.pull(image, &ctx, options.verbose) {
            return Err(err);
        }
        match self.image_exists(image, &ctx) {
            Ok(found) => {
                if !found {
                    return Err(
                        AppError::Runtime(
                            "Image ".to_string().concat(image).concat(
                                " is still missing after pull",
                            ),
                        ),
                    );
                }
            },
            Err(err) => {
                return Err(err);
            },
        }
        let mut output = AppOutput::success("");
        match self.migrate_command(image, config, options) {
            Ok(migrated) => {
                merge_output(&mut output, migrated);
                Ok(output)
            },
            Err(err) => Err(err),
        }
    }

    /// Removes an image from the imagestore.
    pub(crate) fn rmi_command(
        &mut self,
        image: &str,
        config: &Config<R::ConfigDocument>,
        options: &ExecOptions,
    ) -> (result: Result<AppOutput, AppError>)
        requires
            old(self).wf(),
        ensures
            final(self).continues(*old(self)),
            rmi_replay(final(self).trace(), old(self).place(), image@, config@, options@) == Some(
                (final(self).place(), viewed_result(result)),
            ),
    {
        let seed = build_parallax_seed_ctx(config);
        let graphroot = match self.default_graphroot(&seed) {
            Ok(graphroot) => graphroot,
            Err(err) => {
                return Err(err);
            },
        };
        let ctx = PodmanCtx { graphroot: Some(graphroot), ..seed };
        let prepared = self.setup_imagestore(config);
        let ghost ready = self.trace();
        if let Err(err) = prepared {
            return Err(err);
        }
        let removed = self.parallax_rmi(
            config.parallax_path.as_str(),
            &ctx,
            image,
            options.verbose,
        );
        proof {
            setup_keeps(self.trace(), ready, old(self).place() + 1, config@);
        }
        match removed {
            Ok(()) => Ok(AppOutput::success("")),
            Err(err) => Err(err),
        }
    }
}

} // verus!
