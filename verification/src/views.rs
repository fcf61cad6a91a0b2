//! That the views on which the contracts rest show everything, and show it as it is.

use vstd::prelude::*;

use crate::command::{default_options, CommandSpec, CommandView, ExecOptions};
use crate::config::{Config, Edf};
use crate::context::{ContainerCtx, PodmanCtx};
use crate::deps::{DirStatus, DirStatusView, Removal, RemovalView};
use crate::error::{AppError, ErrorView};
use crate::manifest::{Yaml, YamlValue};
use crate::output::AppOutput;
use crate::podman::HookOutput;
use crate::text::texts;

verus! {

/// An optional text is shown as it is.
pub open spec fn same_text(text: Option<String>, shown: Option<Seq<char>>) -> bool {
    &&& text is Some <==> shown is Some
    &&& text is Some ==> (text->0)@ == shown->0
}

/// Lists of texts are shown text by text.
pub proof fn lists_show_every_text(list: Seq<String>)
    ensures
        texts(list).len() == list.len(),
        forall|k: int| 0 <= k < list.len() ==> #[trigger] texts(list)[k] == list[k]@,
{
}

/// The settings of Podman are shown one by one.
pub proof fn podman_contexts_show_every_setting(ctx: PodmanCtx)
    ensures
        ctx@.podman_path == ctx.podman_path@,
        same_text(ctx.module, ctx@.module),
        same_text(ctx.graphroot, ctx@.graphroot),
        same_text(ctx.runroot, ctx@.runroot),
        same_text(ctx.parallax_mount_program, ctx@.parallax_mount_program),
        same_text(ctx.ro_store, ctx@.ro_store),
        ctx.podman_env is Some <==> ctx@.podman_env is Some,
        ctx.podman_env matches Some(pairs) ==> {
            &&& ctx@.podman_env->0.len() == pairs@.len()
            &&& forall|k: int|
                #![trigger pairs@[k]]
                0 <= k < pairs@.len() ==> ctx@.podman_env->0[k].0 == pairs@[k].0@
                    && ctx@.podman_env->0[k].1 == pairs@[k].1@
        },
{
}

/// How a container is run is shown one by one.
pub proof fn container_contexts_show_every_setting(ctx: ContainerCtx)
    ensures
        ctx@.name == ctx.name@,
        ctx@.interactive == ctx.interactive,
        ctx@.tty == ctx.tty,
        ctx@.detach == ctx.detach,
        ctx@.auto_remove == ctx.auto_remove,
        ctx@.set_env == ctx.set_env,
        same_text(ctx.pidfile, ctx@.pidfile),
        same_text(ctx.user, ctx@.user),
{
}

/// The settings of a configuration, and the parts of an environment definition, are shown one by one.
pub proof fn configurations_show_every_setting<K, D>(config: Config<K>, edf: Edf<D>)
    ensures
        config@.parallax_imagestore == config.parallax_imagestore@,
        config@.parallax_mount_program == config.parallax_mount_program@,
        config@.parallax_mp_uid == config.parallax_mp_uid,
        config@.parallax_mp_gid == config.parallax_mp_gid,
        config@.parallax_mp_squashfuse_path == config.parallax_mp_squashfuse_path@,
        config@.parallax_mp_logfile == config.parallax_mp_logfile@,
        config@.parallax_path == config.parallax_path@,
        config@.podman_module == config.podman_module@,
        config@.podman_path == config.podman_path@,
        config@.document == config.document,
        edf@.image == edf.image@,
        same_text(edf.json, edf@.json),
        edf@.document == edf.document,
{
}

/// Options are shown as they are; the default is to be quiet and to name no imagestore.
pub proof fn options_show_every_setting(options: ExecOptions, default: ExecOptions)
    requires
        call_ensures(ExecOptions::default, (), default),
    ensures
        options@.verbose == options.verbose,
        same_text(options.parallax_imagestore, options@.parallax_imagestore),
        !default.verbose,
        default.parallax_imagestore is None,
        !default_options().verbose,
        default_options().parallax_imagestore is None,
{
}

/// Commands are shown with their arguments.
pub proof fn commands_show_every_argument(command: CommandSpec)
    ensures
        match command {
            CommandSpec::Validate { filepath, output } => command@ == (CommandView::Validate {
                filepath: filepath@,
                output,
            }),
            CommandSpec::Render { filepath, output } => command@ == (CommandView::Render {
                filepath: filepath@,
                output,
            }),
            CommandSpec::Images => command@ is Images,
            CommandSpec::Pull { image } => command@ == (CommandView::Pull { image: image@ }),
            CommandSpec::Migrate { image } => command@ == (CommandView::Migrate { image: image@ }),
            CommandSpec::Rmi { image } => command@ == (CommandView::Rmi { image: image@ }),
            CommandSpec::Run { filepath, container_cmd } => {
                &&& command@ is Run
                &&& command@->Run_filepath == filepath@
                &&& command@->container_cmd.len() == container_cmd@.len()
                &&& forall|k: int|
                    0 <= k < container_cmd@.len() ==> #[trigger] command@->container_cmd[k]
                        == container_cmd@[k]@
            },
        },
{
}

/// Outcomes, and what hooks leave behind, are shown as they are.
pub proof fn outcomes_show_every_part(output: AppOutput, hook: HookOutput)
    ensures
        output@.stdout == output.stdout@,
        output@.stderr == output.stderr@,
        output@.return_code == output.return_code,
        hook@.code == hook.code,
        hook@.stdout == hook.stdout@,
        hook@.stderr == hook.stderr@,
{
}

/// Errors are shown as what they are, with their message.
pub proof fn errors_show_their_kind(err: AppError)
    ensures
        match err {
            AppError::ConfigLoad(text) => err@ == ErrorView::ConfigLoad(text@),
            AppError::PodmanInfo(text) => err@ == ErrorView::PodmanInfo(text@),
            AppError::Runtime(text) => err@ == ErrorView::Runtime(text@),
            AppError::UnsupportedInput(text) => err@ == ErrorView::UnsupportedInput(text@),
            AppError::Io(text) => err@ == ErrorView::Io(text@),
            AppError::Yaml(text) => err@ == ErrorView::Yaml(text@),
            AppError::UserLookup(text) => err@ == ErrorView::UserLookup(text@),
        },
{
}

/// What the host says of directories is shown as what it is.
pub proof fn directories_show_their_state(removal: Removal, status: DirStatus)
    ensures
        removal is Removed <==> removal@ is Removed,
        removal is NotFound <==> removal@ is NotFound,
        removal matches Removal::Failed(text) ==> removal@ == RemovalView::Failed(text@),
        status is Directory <==> status@ is Directory,
        status is NotADirectory <==> status@ is NotADirectory,
        status is Missing <==> status@ is Missing,
        status matches DirStatus::Inaccessible(text) ==> status@ == DirStatusView::Inaccessible(
            text@,
        ),
{
}

/// YAML values are shown part by part, each as what it is and in its place.
pub proof fn yaml_values_show_every_part(value: YamlValue)
    ensures
        match value {
            YamlValue::Null => value@ is Null,
            YamlValue::Bool(b) => value@ == Yaml::Bool(b),
            YamlValue::Number => value@ is Number,
            YamlValue::Text(text) => value@ == Yaml::Text(text@),
            YamlValue::Sequence(items) => {
                &&& value@ is Sequence
                &&& value@->Sequence_0.len() == items@.len()
                &&& forall|k: int|
                    0 <= k < items@.len() ==> #[trigger] value@->Sequence_0[k] == items@[k]@
            },
            YamlValue::Mapping(entries) => {
                &&& value@ is Mapping
                &&& value@->Mapping_0.len() == entries@.len()
                &&& forall|k: int|
                    0 <= k < entries@.len() ==> #[trigger] value@->Mapping_0[k] == (
                        entries@[k].0@,
                        entries@[k].1@,
                    )
            },
            YamlValue::Tagged(inner) => value@ is Tagged && *value@->Tagged_0 == (*inner)@,
        },
{
}

} // verus!
