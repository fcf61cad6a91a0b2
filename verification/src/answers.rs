//! What the answers of the library are, stated of the calls that give them.

use vstd::prelude::*;
use vstd::utf8::*;

use crate::calls::{adds_store, sets_nothing};
use crate::cleanup::{cleanup_timeout_warning, describe_dir_entries};
use crate::command::{CommandSpec, ExecOptions, FormatOutput, OptionsView};
use crate::config::{apply_options, Config, Edf};
use crate::context::{
    build_parallax_seed_ctx, build_pull_ctx, build_readonly_ctx, build_run_ctx, rootdirs_base,
    text_option, CurrentUser, PodmanCtx, RunId,
};
use crate::endings::{
    container_results, errors_are_read_by_users, pod_results, read_by_user, results_in, still_there,
};
use crate::error::{combine_error_with_warning, plain_result, viewed_result, AppError, ErrorView};
use crate::execute::{render_output, validation_output};
use crate::logging::{is_profiled, log_level, LogLevel};
use crate::manifest::{
    extract_images_from_yaml_value, extract_join_container_from_yaml_value,
    extract_pod_name_from_yaml_value, get_join_container_from_yaml_manifest, image_list_is_the_one,
    join_container, parse_yaml_value_from_str, yaml_document, YamlValue,
};
use crate::output::{
    format_output, json_can_be_read_back, merged, read_output, report, stacked, with_warning,
    AppOutput, FormattedOutput, OutputView, Report,
};
use crate::podman::{
    cleanup_decision, exit_code_outcome, graphroot_outcome, log_hook_ec, migrate_outcome,
    podman_output_result, pull_outcome, rmi_outcome, runtime_outcome, shown_lines, ContainerCleanup,
    HookOutput,
};
use crate::reading::{
    describes_pod, image_stands_at, named_images_stand_in_the_manifest, parts_agree,
};
use crate::run::{pod_outcome, run_outcome};
use crate::text::{
    joined, lossy_utf8, parent_of, precedes, signed_decimal, texts, trimmed, utf8_error,
};
use crate::wording::{
    comes_before, split_texts_can_be_joined, texts_are_ordered_by_their_first_difference,
};
use crate::workloads::{directory_of, set_up_for_run, twelve_digits};

verus! {

/// The contexts that a configuration gives. Podman pulls with nothing set; for Parallax the
/// imagestore is added; for reading the imagestore is the graphroot, and nothing else is set; and for
/// a run everything is set, with directories of its own.
pub proof fn contexts_are_built_from_the_configuration<K>(
    config: &Config<K>,
    user: &CurrentUser,
    id: &RunId,
    pull: PodmanCtx,
    seed: PodmanCtx,
    readonly: PodmanCtx,
    run: PodmanCtx,
)
    requires
        call_ensures(build_pull_ctx::<K>, (config,), pull),
        call_ensures(build_parallax_seed_ctx::<K>, (config,), seed),
        call_ensures(build_readonly_ctx::<K>, (config,), readonly),
        call_ensures(build_run_ctx::<K>, (config, user, id), run),
    ensures
        sets_nothing(pull@, config.podman_path@),
        adds_store(seed@, config.podman_path@, config.parallax_imagestore@, None),
        readonly@.podman_path == config.podman_path@,
        readonly@.graphroot == Some(config.parallax_imagestore@),
        readonly@.module is None,
        readonly@.runroot is None,
        readonly@.parallax_mount_program is None,
        readonly@.ro_store is None,
        readonly@.podman_env is None,
        run@.module == Some(config.podman_module@),
        set_up_for_run(
            run@,
            config@,
            (OptionsView { verbose: false, parallax_imagestore: None }),
            directory_of(*user, *id),
        ),
{
    assert(twelve_digits(*id) =~= id.tag());
}

/// Options that name an imagestore put it in place of the configured one; everything else of a
/// configuration stays.
pub proof fn options_are_applied<K>(config: Config<K>, options: &ExecOptions, changed: Config<K>)
    requires
        call_ensures(apply_options::<K>, (config, options), changed),
    ensures
        match options.parallax_imagestore {
            Some(path) => changed@.parallax_imagestore == path@,
            None => changed@.parallax_imagestore == config@.parallax_imagestore,
        },
        changed@.parallax_mount_program == config@.parallax_mount_program,
        changed@.parallax_mp_uid == config@.parallax_mp_uid,
        changed@.parallax_mp_gid == config@.parallax_mp_gid,
        changed@.parallax_mp_squashfuse_path == config@.parallax_mp_squashfuse_path,
        changed@.parallax_mp_logfile == config@.parallax_mp_logfile,
        changed@.parallax_path == config@.parallax_path,
        changed@.podman_module == config@.podman_module,
        changed@.podman_path == config@.podman_path,
        changed@.document == config@.document,
{
}

/// The graphroot is what Podman printed, without the white space around it. Where Podman failed, its
/// complaint is told so, and where it printed no text, why it is none.
pub proof fn graphroots_are_read(
    success: bool,
    stdout: &[u8],
    stderr: &[u8],
    graphroot: Result<String, AppError>,
)
    requires
        call_ensures(graphroot_outcome, (success, stdout, stderr), graphroot),
    ensures
        graphroot is Ok <==> success && valid_utf8(stdout@),
        graphroot matches Ok(path) ==> path@ == trimmed(decode_utf8(stdout@)),
        !success ==> graphroot->Err_0@ == ErrorView::PodmanInfo(trimmed(lossy_utf8(stderr@))),
        success && !valid_utf8(stdout@) ==> graphroot->Err_0@ == ErrorView::PodmanInfo(
            utf8_error(stdout@),
        ),
{
}

/// Pulling, migrating and removing an image fail only where Podman or Parallax failed. The error names
/// what failed and the image and, where the complaint was not already seen, the complaint.
pub proof fn image_failures_are_told(
    image: &str,
    streamed: bool,
    success: bool,
    stderr: &[u8],
    result: Result<(), String>,
    pulled: Result<(), AppError>,
    migrated: Result<(), AppError>,
    removed: Result<(), AppError>,
)
    requires
        call_ensures(pull_outcome, (image, streamed, success, stderr), pulled),
        call_ensures(migrate_outcome, (image, streamed, result), migrated),
        call_ensures(rmi_outcome, (image, streamed, result), removed),
    ensures
        pulled is Ok <==> success,
        migrated is Ok <==> result is Ok,
        removed is Ok <==> result is Ok,
        !success && streamed ==> pulled->Err_0@ == ErrorView::Runtime(
            "Failed to pull image "@ + image@,
        ),
        !success && !streamed ==> pulled->Err_0@ == ErrorView::Runtime(
            "Failed to pull image "@ + image@ + ": "@ + trimmed(lossy_utf8(stderr@)),
        ),
        result is Err && streamed ==> {
            &&& migrated->Err_0@ == ErrorView::Runtime("Failed to migrate image "@ + image@)
            &&& removed->Err_0@ == ErrorView::Runtime(
                "Failed to remove image "@ + image@ + " from Parallax imagestore"@,
            )
        },
        result is Err && !streamed ==> {
            &&& migrated->Err_0@ == ErrorView::Runtime(
                "Failed to migrate image "@ + image@ + ": "@ + result->Err_0@,
            )
            &&& removed->Err_0@ == ErrorView::Runtime(
                "Failed to remove image "@ + image@ + " from Parallax imagestore"@ + ": "@
                    + result->Err_0@,
            )
        },
{
}

/// What Podman answers about containers and pods: a message of refusal is a runtime error as it is; a
/// container that is there is to be cleaned up, and no other; a container has the code with which it
/// ended unless a signal ended it; and a failed operation is named, with its complaint.
pub proof fn answers_of_podman_are_taken(
    asked: Result<bool, String>,
    answer: Result<bool, AppError>,
    decision: Result<ContainerCleanup, AppError>,
    code: Option<i32>,
    ended: Result<i32, AppError>,
    operation: &str,
    success: bool,
    stderr: &[u8],
    outcome: Result<(), AppError>,
)
    requires
        call_ensures(runtime_outcome::<bool>, (asked,), answer),
        call_ensures(cleanup_decision, (asked,), decision),
        call_ensures(exit_code_outcome, (code,), ended),
        call_ensures(podman_output_result, (operation, success, stderr), outcome),
    ensures
        match asked {
            Ok(yes) => {
                &&& answer is Ok
                &&& answer->Ok_0 == yes
                &&& decision is Ok
                &&& yes <==> decision->Ok_0 == ContainerCleanup::Clean
            },
            Err(message) => {
                &&& answer is Err
                &&& answer->Err_0@ == ErrorView::Runtime(message@)
                &&& decision is Err
                &&& decision->Err_0@ == ErrorView::Runtime(message@)
            },
        },
        code is Some <==> ended is Ok,
        code matches Some(number) ==> ended->Ok_0 == number,
        code is None ==> ended->Err_0@ == ErrorView::Runtime(
            "Container process terminated by signal"@,
        ),
        success <==> outcome is Ok,
        !success ==> outcome->Err_0@ == ErrorView::Runtime(
            operation@ + " failed: "@ + trimmed(lossy_utf8(stderr@)),
        ),
{
}

/// What is shown of one stream of a hook, joined line by line, is what the hook wrote, but for one line
/// feed at its end. Nothing is shown of a stream that holds no text.
pub open spec fn shows_stream(bytes: Seq<u8>, lines: Seq<Seq<char>>) -> bool {
    let text = decode_utf8(bytes);
    let line_feed = seq!['\n'];
    if !valid_utf8(bytes) || text.len() == 0 || text == line_feed {
        lines.len() == 0
    } else {
        &&& lines.len() > 0
        &&& text == joined(lines, line_feed) || text == joined(lines, line_feed) + line_feed
        &&& text.last() == '\n' ==> text == joined(lines, line_feed) + line_feed
        &&& forall|k: int| 0 <= k < lines.len() ==> !(#[trigger] lines[k]).contains('\n')
    }
}

/// What is shown of a hook are its complaints, line by line, and then its other output. It succeeded
/// exactly where it ended with code 0; otherwise the error tells its code, or that a signal ended it.
pub proof fn hooks_are_shown(
    output: &HookOutput,
    prefix: &str,
    shown: (Vec<String>, Result<(), AppError>),
) -> (complaints: int)
    requires
        call_ensures(log_hook_ec, (output, prefix), shown),
    ensures
        0 <= complaints <= shown.0@.len(),
        shows_stream(output.stderr@, texts(shown.0@).take(complaints)),
        shows_stream(output.stdout@, texts(shown.0@).skip(complaints)),
        shown.1 is Ok <==> output.code == Some(0i32),
        output.code is None ==> shown.1->Err_0@ == ErrorView::Io(prefix@ + " exited by signal"@),
        output.code matches Some(code) ==> (code != 0 ==> shown.1->Err_0@ == ErrorView::Io(
            prefix@ + " exit code: "@ + signed_decimal(code as int),
        )),
{
    let lines = texts(shown.0@);
    let first = shown_lines(output.stderr@);
    let second = shown_lines(output.stdout@);
    assert(lines == first + second);
    assert(lines.take(first.len() as int) =~= first);
    assert(lines.skip(first.len() as int) =~= second);
    streams_are_shown(output.stderr@);
    streams_are_shown(output.stdout@);
    first.len() as int
}

/// What is shown of a stream.
proof fn streams_are_shown(bytes: Seq<u8>)
    ensures
        shows_stream(bytes, shown_lines(bytes)),
{
    let text = decode_utf8(bytes);
    if valid_utf8(bytes) && text.len() > 0 {
        let line_feed = seq!['\n'];
        let kept = if text.last() == '\n' {
            text.drop_last()
        } else {
            text
        };
        split_texts_can_be_joined(kept, '\n');
        if text.last() == '\n' {
            assert(text =~= kept + line_feed);
            if kept.len() == 0 {
                assert(text =~= line_feed);
            } else {
                assert(text.len() > 1);
            }
        } else if text == line_feed {
            assert(text.last() == line_feed[0]);
        }
    }
}

/// A user is told whether a file is valid by its name, and why it is not.
pub proof fn validations_are_told(
    filepath: &str,
    verdict: Result<(), String>,
    output: AppOutput,
)
    requires
        call_ensures(validation_output, (filepath, verdict), output),
    ensures
        match verdict {
            Ok(()) => {
                &&& output@.stdout == filepath@ + " is a valid EDF file"@
                &&& output@.stderr.len() == 0
                &&& output.return_code == 0
            },
            Err(reason) => {
                &&& output@.stdout == filepath@ + " is an INVALID EDF file"@
                &&& output@.stderr == reason@
                &&& output.return_code == 1
            },
        },
{
}

/// Two outcomes are merged stream by stream, the later one below the earlier one and on a line of its
/// own where both say something. The later code holds unless it is 0.
pub proof fn merged_outcomes_keep_both(base: OutputView, extra: OutputView)
    ensures
        keeps_both(base.stdout, extra.stdout, merged(base, extra).stdout),
        keeps_both(base.stderr, extra.stderr, merged(base, extra).stderr),
        extra.return_code != 0 ==> merged(base, extra).return_code == extra.return_code,
        extra.return_code == 0 ==> merged(base, extra).return_code == base.return_code,
{
    reveal_strlit("\n");
    both_are_kept(base.stdout, extra.stdout, merged(base, extra).stdout);
    both_are_kept(base.stderr, extra.stderr, merged(base, extra).stderr);
}

/// One text stands above another, with a line feed between them where both say something.
pub open spec fn keeps_both(above: Seq<char>, below: Seq<char>, whole: Seq<char>) -> bool {
    let between: int = if above.len() > 0 && below.len() > 0 {
        1
    } else {
        0
    };
    &&& whole.len() == above.len() + between + below.len()
    &&& whole.take(above.len() as int) == above
    &&& whole.skip(above.len() + between) == below
    &&& between == 1 ==> whole[above.len() as int] == '\n'
}

/// Texts above one another.
proof fn both_are_kept(above: Seq<char>, below: Seq<char>, whole: Seq<char>)
    requires
        whole == stacked(above, below),
    ensures
        keeps_both(above, below, whole),
{
    reveal_strlit("\n");
    let between: int = if above.len() > 0 && below.len() > 0 {
        1
    } else {
        0
    };
    assert(whole.take(above.len() as int) =~= above);
    assert(whole.skip(above.len() + between) =~= below);
}

/// A warning is put below the complaints of an outcome, and nothing else of it changes.
pub proof fn warnings_stand_below(output: OutputView, warning: Seq<char>)
    requires
        warning.len() > 0,
    ensures
        with_warning(output, warning).stdout == output.stdout,
        with_warning(output, warning).return_code == output.return_code,
        keeps_both(output.stderr, warning, with_warning(output, warning).stderr),
{
    reveal_strlit("\n");
    both_are_kept(output.stderr, warning, with_warning(output, warning).stderr);
}

/// A warning that goes with an error stands on the line below it, in a runtime error.
pub proof fn warnings_go_with_errors(err: AppError, warning: String, combined: AppError)
    requires
        call_ensures(combine_error_with_warning, (err, warning), combined),
    ensures
        combined@ == ErrorView::Runtime(read_by_user(err@) + "\n"@ + warning@),
{
    errors_are_read_by_users(err@);
}

/// A user reads the message of an error.
pub proof fn messages_are_read(err: &AppError, text: String)
    requires
        call_ensures(AppError::message, (err,), text),
    ensures
        text@ == read_by_user(err@),
{
    errors_are_read_by_users(err@);
}

/// A user is told which directory is still there, for how long it was tried to remove it, why it
/// could not be removed where that is known, and what is left in it.
pub proof fn remaining_directories_are_told(
    base: &str,
    elapsed: u128,
    complaint: &str,
    names: &Vec<String>,
    warning: String,
    details: String,
)
    requires
        call_ensures(cleanup_timeout_warning, (base, elapsed, complaint, names), warning),
        call_ensures(describe_dir_entries, (names,), details),
    ensures
        warning@ == still_there(base@, elapsed as int, complaint@, texts(names@)),
        details@ == if names@.len() == 0 {
            "directory is empty"@
        } else {
            "remaining entries: "@ + joined(texts(names@), ", "@)
        },
{
    assert(warning@ =~= still_there(base@, elapsed as int, complaint@, texts(names@)));
}

/// An outcome is written as it is, or as JSON from which it can be read back; an error is told on the
/// second stream. The status is what the last eight bits of the code are, and 1 for an error.
pub proof fn outcomes_are_reported(
    format: FormatOutput,
    output: &AppOutput,
    formatted: FormattedOutput,
    result: &Result<AppOutput, AppError>,
    ended: Report,
)
    requires
        call_ensures(format_output, (format, output), formatted),
        call_ensures(report, (format, result), ended),
    ensures
        format == FormatOutput::Text ==> formatted.stdout@ == output.stdout@ && formatted.stderr@
            == output.stderr@,
        format == FormatOutput::Json ==> read_output(formatted.stdout@) == Some(output@)
            && formatted.stderr@.len() == 0,
        match result {
            Err(err) => {
                &&& ended.status == 1
                &&& ended.stdout is None
                &&& ended.stderr is Some
                &&& (ended.stderr->0)@ == read_by_user(err@)
            },
            Ok(outcome) => {
                &&& 0 <= outcome.return_code < 256 ==> ended.status == outcome.return_code
                &&& exists|n: int| #[trigger] (n * 256) + ended.status == outcome.return_code
                &&& format == FormatOutput::Text ==> {
                    &&& ended.stdout is None <==> outcome.stdout@.len() == 0
                    &&& ended.stderr is None <==> outcome.stderr@.len() == 0
                    &&& ended.stdout matches Some(text) ==> text@ == outcome.stdout@
                    &&& ended.stderr matches Some(text) ==> text@ == outcome.stderr@
                }
                &&& format == FormatOutput::Json ==> {
                    &&& ended.stdout is Some
                    &&& read_output((ended.stdout->0)@) == Some(outcome@)
                    &&& ended.stderr is None
                }
            },
        },
{
    match result {
        Err(err) => {
            errors_are_read_by_users(err@);
        },
        Ok(outcome) => {
            json_can_be_read_back(outcome@);
            let n = outcome.return_code as int / 256;
            assert((n * 256) + ended.status == outcome.return_code);
        },
    }
}

/// Only `validate` and `render` leave a choice of format.
pub proof fn formats_are_chosen(command: &CommandSpec, format: FormatOutput)
    requires
        call_ensures(CommandSpec::output_format, (command,), format),
    ensures
        match *command {
            CommandSpec::Validate { output, .. } => format == output,
            CommandSpec::Render { output, .. } => format == output,
            _ => format == FormatOutput::Text,
        },
{
}

/// The more verbosity is asked for, the more is logged: warnings without any, and everything from the
/// third time on.
pub proof fn verbosity_sets_the_level(verbosity: u8, level: LogLevel)
    requires
        call_ensures(log_level, (verbosity,), level),
    ensures
        level == if verbosity == 0 {
            LogLevel::Warn
        } else if verbosity == 1 {
            LogLevel::Info
        } else if verbosity == 2 {
            LogLevel::Debug
        } else {
            LogLevel::Trace
        },
{
}

/// Only spans are profiled, and only those of this program and of the reader of environment
/// definitions.
pub proof fn own_spans_are_profiled(is_span: bool, target: &str, profiled: bool)
    requires
        call_ensures(is_profiled, (is_span, target), profiled),
    ensures
        profiled <==> is_span && ("sarusctl"@.is_prefix_of(target@) || "raster"@.is_prefix_of(
            target@,
        )),
{
}

/// The code of a container, or the reason why it has none, decides its result; what was printed before
/// stays, and the warning goes with both.
pub proof fn runs_are_concluded(
    output: AppOutput,
    ran: Result<i32, AppError>,
    down: Result<(), AppError>,
    warning: Option<String>,
    container: Result<AppOutput, AppError>,
    pod: Result<AppOutput, AppError>,
)
    requires
        call_ensures(run_outcome, (output, ran, warning), container),
        call_ensures(pod_outcome, (output, ran, down, warning), pod),
        output@.stdout.len() == 0,
        output@.stderr.len() == 0,
    ensures
        ({
            let text = text_option(warning);
            &&& results_in(viewed_result(container), plain_result(ran), text)
            &&& ran is Err || down is Ok ==> results_in(
                viewed_result(pod),
                plain_result(ran),
                text,
            )
            &&& ran is Ok && down is Err ==> results_in(
                viewed_result(pod),
                Err(down->Err_0@),
                text,
            )
        }),
{
    let text = text_option(warning);
    container_results(output@, plain_result(ran), text);
    pod_results(output@, plain_result(ran), plain_result(down), text);
}

/// The images of a manifest are those that stand in it, each once, in the order of their characters.
pub proof fn images_are_listed_once_and_in_order(
    manifest: &YamlValue,
    images: Result<Vec<String>, AppError>,
)
    requires
        call_ensures(extract_images_from_yaml_value, (manifest,), images),
    ensures
        images is Ok,
        forall|image: Seq<char>| #[trigger]
            texts(images->Ok_0@).contains(image) <==> exists|way: Seq<int>| #[trigger]
                image_stands_at(manifest@, way, image),
        forall|i: int, j: int|
            0 <= i < j < images->Ok_0@.len() ==> comes_before(
                #[trigger] texts(images->Ok_0@)[i],
                #[trigger] texts(images->Ok_0@)[j],
            ),
{
    let list = texts(images->Ok_0@);
    image_list_is_the_one(manifest@, list);
    assert forall|image: Seq<char>| #[trigger] list.contains(image) <==> exists|way: Seq<int>|
     #[trigger]
        image_stands_at(manifest@, way, image) by {
        named_images_stand_in_the_manifest(manifest@, image);
    }
    assert forall|i: int, j: int| 0 <= i < j < list.len() implies comes_before(
        #[trigger] list[i],
        #[trigger] list[j],
    ) by {
        assert(precedes(list[i], list[j]));
        texts_are_ordered_by_their_first_difference(list[i], list[j]);
    }
}

/// The container to join, the name of the pod, and the name by which Podman knows the container are
/// those of the manifest; and a manifest is what its text holds as YAML.
pub proof fn manifests_are_answered(
    manifest: &YamlValue,
    container: Result<String, AppError>,
    pod: Result<String, AppError>,
    whole: Result<String, AppError>,
    contents: &str,
    parsed: Result<YamlValue, AppError>,
)
    requires
        call_ensures(extract_join_container_from_yaml_value, (manifest,), container),
        call_ensures(extract_pod_name_from_yaml_value, (manifest,), pod),
        call_ensures(get_join_container_from_yaml_manifest, (manifest,), whole),
        call_ensures(parse_yaml_value_from_str, (contents,), parsed),
    ensures
        viewed_result(container) == join_container(manifest@),
        pod matches Ok(name) ==> describes_pod(manifest@, name@),
        pod is Err ==> {
            &&& pod->Err_0@ == ErrorView::Yaml(
                "YAML manifest must define metadata.name as a string"@,
            )
            &&& forall|name: Seq<char>| !#[trigger] describes_pod(manifest@, name)
        },
        container is Ok && pod is Ok ==> whole is Ok && whole->Ok_0@ == pod->Ok_0@ + "-"@
            + container->Ok_0@,
        container is Err ==> whole is Err && whole->Err_0@ == container->Err_0@,
        container is Ok && pod is Err ==> whole is Err && whole->Err_0@ == pod->Err_0@,
        match yaml_document(contents@) {
            Ok(value) => parsed is Ok && parsed->Ok_0@ == value,
            Err(message) => parsed is Err && parsed->Err_0@ == ErrorView::Yaml(message),
        },
{
    parts_agree(manifest@, manifest@);
}

/// The outcome of rendering is the JSON text of what was rendered, or `ERROR` where it has none; what
/// cannot be rendered is complained of.
pub proof fn renderings_are_told<D>(rendered: Result<Edf<D>, String>, output: AppOutput)
    requires
        call_ensures(render_output::<D>, (rendered,), output),
    ensures
        match rendered {
            Ok(edf) => {
                &&& edf.json matches Some(text) ==> output@.stdout == text@
                &&& edf.json is None ==> output@.stdout == "ERROR"@
                &&& output@.stderr.len() == 0
                &&& output.return_code == 0
            },
            Err(reason) => {
                &&& output@.stdout.len() == 0
                &&& output@.stderr == reason@
                &&& output.return_code == 1
            },
        },
{
    reveal_strlit("");
}

/// The directory of a context is that of its graphroot or, where it has no graphroot or one that is in
/// no directory, that of its runroot.
pub proof fn contexts_have_a_directory(ctx: &PodmanCtx, base: Option<String>)
    requires
        call_ensures(rootdirs_base, (ctx,), base),
    ensures
        ({
            let of_graphroot = match ctx.graphroot {
                Some(path) => parent_of(path@),
                None => None,
            };
            let of_runroot = match ctx.runroot {
                Some(path) => parent_of(path@),
                None => None,
            };
            &&& base is Some <==> of_graphroot is Some || of_runroot is Some
            &&& of_graphroot is Some ==> (base->0)@ == of_graphroot->0
            &&& of_graphroot is None && of_runroot is Some ==> (base->0)@ == of_runroot->0
        }),
{
}

} // verus!
