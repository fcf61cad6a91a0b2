//! Which calls a command can make, and which it never makes.

use vstd::prelude::*;

use crate::command::{CommandView, OptionsView};
use crate::config::{overridden, ConfigView};
use crate::error::ErrorView;
use crate::execute::command_replay;
use crate::images::{migrate_replay, pull_replay};
use crate::imagestore::setup_replay;
use crate::laws::tells;
use crate::manifest::{image_list, yaml_document};
use crate::output::{succeeded, OutputView};
use crate::podman::hook_lines;
use crate::run::{
    pod_ctx, prepare_replay, provide_all_replay, provide_replay, run_edf_replay, run_replay,
    run_yaml_replay, terminals_replay,
};
use crate::shapes::{config_place, edf_steps, prepare_steps, run_steps, yaml_steps};
use crate::steps::{
    cleanup_call, finalize_steps, migrate_steps, provide_all_steps, pull_steps, setup_steps,
};
use crate::trace::{answer, Call, Reply, Trace};

verus! {

/// The calls that prepare the imagestore, and the loading of the configuration.
pub open spec fn preparing<K, D>(call: Call<K, D>) -> bool {
    match call {
        Call::LoadConfig => true,
        Call::HookRun { .. } => true,
        Call::PathExists { .. } => true,
        Call::CreateDirAll { .. } => true,
        Call::Tell { .. } => true,
        _ => false,
    }
}

/// The calls that migrate an image.
pub open spec fn migrating<K, D>(call: Call<K, D>) -> bool {
    match call {
        Call::DefaultGraphroot { .. } => true,
        Call::Tell { .. } => true,
        Call::ParallaxMigrate { .. } => true,
        Call::ParallaxExist { .. } => true,
        _ => false,
    }
}

/// The calls that a command can make. None but a run reads a file other than to validate or render
/// it, looks up the user, runs or removes anything on the host; none but `images` lists images, and
/// none but `rmi` removes one.
pub open spec fn can_make<K, D>(command: CommandView, call: Call<K, D>) -> bool {
    match command {
        CommandView::Validate { filepath, .. } => call == (Call::<K, D>::Validate {
            path: filepath,
        }),
        CommandView::Render { filepath, .. } => call == (Call::<K, D>::Render { path: filepath }),
        CommandView::Images => {
            ||| preparing(call)
            ||| call is DefaultGraphroot
            ||| call is Images
        },
        CommandView::Rmi { .. } => {
            ||| preparing(call)
            ||| call is DefaultGraphroot
            ||| call is ParallaxRmi
        },
        CommandView::Migrate { .. } => {
            ||| preparing(call)
            ||| migrating(call)
        },
        CommandView::Pull { .. } => {
            ||| preparing(call)
            ||| migrating(call)
            ||| call is Pull
            ||| call is ImageExists
        },
        CommandView::Run { filepath, .. } => match call {
            Call::Validate { .. } => false,
            Call::Images { .. } => false,
            Call::ParallaxRmi { .. } => false,
            Call::Render { path } => path == filepath,
            Call::ReadToString { path } => path == filepath,
            Call::KubePlay { path, .. } => path == filepath,
            Call::KubeDown { path, .. } => path == filepath,
            _ => true,
        },
    }
}

/// Every command makes only its own calls, and a run reads, plays and takes down only its own file.
pub proof fn commands_make_only_their_calls<K, D>(
    trace: Trace<K, D>,
    command: CommandView,
    options: OptionsView,
    result: Result<OutputView, ErrorView>,
    k: int,
)
    requires
        tells(trace, command, options, result),
        0 <= k < trace.len(),
    ensures
        can_make(command, trace[k].call),
{
    match command {
        CommandView::Run { filepath, container_cmd } => {
            let (begin, config) = run_steps(trace, filepath, container_cmd, options, result);
            run_reads_its_file(trace, filepath, container_cmd, options, result);
            if k >= begin {
                if let Ok(edf) = trace[0].reply->Edf_0 {
                    let go = edf_steps(trace, begin, edf, container_cmd, config, options);
                } else {
                    let (go, down) = yaml_steps(
                        trace,
                        begin,
                        filepath,
                        container_cmd,
                        config,
                        options,
                    );
                }
            }
        },
        _ => {
            reveal(command_replay);
            if command is Pull || command is Migrate {
                prepare_steps(trace, 0, options);
                let (next, prepared) = prepare_replay(trace, 0, options)->0;
                if let Ok(config) = prepared {
                    match command {
                        CommandView::Pull { image } => pull_steps(
                            trace,
                            next,
                            image,
                            config,
                            options,
                        ),
                        CommandView::Migrate { image } => migrate_steps(
                            trace,
                            next,
                            image,
                            config,
                            options,
                        ),
                        _ => {},
                    }
                }
            } else if command is Images || command is Rmi {
                let loaded = trace[0].reply->Config_0;
                if loaded is Ok && trace[1].reply->Graphroot_0 is Ok {
                    setup_steps(trace, 2, overridden(loaded->Ok_0, options));
                }
            }
        },
    }
}

/// The first reading of a file that is no environment definition.
proof fn run_reads_its_file<K, D>(
    trace: Trace<K, D>,
    filepath: Seq<char>,
    container_cmd: Seq<Seq<char>>,
    options: OptionsView,
    result: Result<OutputView, ErrorView>,
)
    requires
        tells(trace, (CommandView::Run { filepath, container_cmd }), options, result),
    ensures
        trace.len() >= 2,
        trace[0].call == (Call::<K, D>::Render { path: filepath }),
        config_place(trace) == 2 ==> trace[1].call == (Call::<K, D>::ReadToString {
            path: filepath,
        }),
        trace.len() > config_place(trace) ==> trace[config_place(trace)].call is LoadConfig,
{
    reveal(command_replay);
    reveal(run_replay);
}

/// A line that is told belongs to what follows or went before: it announces a pull or a migration
/// that is the next step, or it is a line that the hook wrote, in its place.
pub open spec fn told_for_a_reason<K, D>(trace: Trace<K, D>, k: int) -> bool {
    let line = trace[k].call->Tell_line;
    ||| {
        &&& k + 1 < trace.len()
        &&& trace[k + 1].call is Pull
        &&& line == "Pulling "@ + trace[k + 1].call->Pull_image + " with Podman..."@
    }
    ||| {
        &&& k + 1 < trace.len()
        &&& trace[k + 1].call is ParallaxMigrate
        &&& line == "Migrating "@ + trace[k + 1].call->ParallaxMigrate_image
            + " with Parallax..."@
    }
    ||| exists|h: int| #[trigger] line_of_hook(trace, h, k, line)
}

/// A line is one that the hook at a place wrote, told as many steps after it as lines come before.
pub open spec fn line_of_hook<K, D>(
    trace: Trace<K, D>,
    h: int,
    k: int,
    line: Seq<char>,
) -> bool {
    match (trace[h].call, trace[h].reply) {
        (Call::HookRun { .. }, Reply::Hook(Ok(Some(output)))) => {
            &&& 0 <= h < k
            &&& k - h - 1 < hook_lines(output).len()
            &&& line == hook_lines(output)[k - h - 1]
        },
        _ => false,
    }
}

/// Nothing is told but what the hook wrote, and that an image is about to be pulled or migrated.
pub proof fn lines_are_told_for_a_reason<K, D>(
    trace: Trace<K, D>,
    command: CommandView,
    options: OptionsView,
    result: Result<OutputView, ErrorView>,
    k: int,
)
    requires
        tells(trace, command, options, result),
        0 <= k < trace.len(),
        trace[k].call is Tell,
    ensures
        told_for_a_reason(trace, k),
{
    match command {
        CommandView::Run { filepath, container_cmd } => {
            run_tells(trace, filepath, container_cmd, options, result, k);
        },
        _ => {
            reveal(command_replay);
            if command is Pull || command is Migrate {
                prepare_steps(trace, 0, options);
                let (next, prepared) = prepare_replay(trace, 0, options)->0;
                let loaded = trace[0].reply->Config_0->Ok_0;
                if k < next {
                    setup_tells(trace, 1, overridden(loaded, options), k);
                } else if command is Pull {
                    pull_tells(
                        trace,
                        next,
                        command->Pull_image,
                        overridden(loaded, options),
                        options,
                        k,
                    );
                }
            } else if command is Images || command is Rmi {
                let loaded = trace[0].reply->Config_0;
                if loaded is Ok && trace[1].reply->Graphroot_0 is Ok {
                    setup_steps(trace, 2, overridden(loaded->Ok_0, options));
                    if k >= 2 && k < (setup_replay(
                        trace,
                        2,
                        overridden(loaded->Ok_0, options),
                    )->0).0 {
                        setup_tells(trace, 2, overridden(loaded->Ok_0, options), k);
                    }
                }
            }
        },
    }
}

/// Preparing the imagestore.
proof fn setup_tells<K, D>(trace: Trace<K, D>, at: int, config: ConfigView<K>, k: int)
    requires
        setup_replay(trace, at, config) is Some,
        at <= k < (setup_replay(trace, at, config)->0).0,
        trace[k].call is Tell,
    ensures
        told_for_a_reason(trace, k),
{
    if let Reply::Hook(Ok(Some(output))) = trace[at].reply {
        let lines = hook_lines(output);
        if at < k < at + 1 + lines.len() {
            let line = lines[k - at - 1];
            assert(answer(trace, at + 1 + (k - at - 1), Call::Tell { line }) == Some(
                Reply::<K, D>::Nothing,
            ));
            assert(trace[k].call == (Call::<K, D>::Tell { line }));
            assert(trace[k].call->Tell_line == line);
            assert(line_of_hook(trace, at, k, trace[k].call->Tell_line));
        }
    }
}

/// Pulling an image.
proof fn pull_tells<K, D>(
    trace: Trace<K, D>,
    at: int,
    image: Seq<char>,
    config: ConfigView<K>,
    options: OptionsView,
    k: int,
)
    requires
        pull_replay(trace, at, image, config, options) is Some,
        at <= k < (pull_replay(trace, at, image, config, options)->0).0,
        trace[k].call is Tell,
    ensures
        told_for_a_reason(trace, k),
{
    if k >= at + 3 {
        assert(migrate_replay(trace, at + 3, image, config, options) is Some);
    }
}

/// Providing several images.
proof fn provide_tells<K, D>(
    trace: Trace<K, D>,
    at: int,
    images: Seq<Seq<char>>,
    config: ConfigView<K>,
    options: OptionsView,
    output: OutputView,
    k: int,
)
    requires
        provide_all_replay(trace, at, images, config, options, output) is Some,
        at <= k < (provide_all_replay(trace, at, images, config, options, output)->0).0,
        trace[k].call is Tell,
    ensures
        told_for_a_reason(trace, k),
    decreases images.len(),
{
    if images.len() > 0 {
        let (next, first) = provide_replay(trace, at, images[0], config, options, output)->0;
        if k < next {
            if k > at {
                pull_tells(trace, at + 1, images[0], config, options, k);
            }
        } else {
            provide_tells(trace, next, images.skip(1), config, options, first->Ok_0, k);
        }
    }
}

/// Running a container or a pod.
proof fn run_tells<K, D>(
    trace: Trace<K, D>,
    filepath: Seq<char>,
    container_cmd: Seq<Seq<char>>,
    options: OptionsView,
    result: Result<OutputView, ErrorView>,
    k: int,
)
    requires
        tells(trace, (CommandView::Run { filepath, container_cmd }), options, result),
        0 <= k < trace.len(),
        trace[k].call is Tell,
    ensures
        told_for_a_reason(trace, k),
{
    let (begin, config) = run_steps(trace, filepath, container_cmd, options, result);
    let place = config_place(trace);
    if k < begin {
        assert(k > place);
        setup_tells(
            trace,
            place + 1,
            overridden(trace[place].reply->Config_0->Ok_0, options),
            k,
        );
    } else if let Ok(edf) = trace[0].reply->Edf_0 {
        let go = edf_steps(trace, begin, edf, container_cmd, config, options);
        reveal(run_edf_replay);
        let (next, provided) = provide_replay(
            trace,
            begin + 2,
            edf.image,
            config,
            options,
            succeeded(""@),
        )->0;
        if k < next {
            pull_tells(trace, begin + 3, edf.image, config, options, k);
        } else {
            assert(terminals_replay(trace, next) is Some);
        }
    } else {
        let (go, down) = yaml_steps(trace, begin, filepath, container_cmd, config, options);
        pod_tells(trace, begin, filepath, container_cmd, config, options, k);
    }
}

/// Running a pod.
proof fn pod_tells<K, D>(
    trace: Trace<K, D>,
    at: int,
    path: Seq<char>,
    command: Seq<Seq<char>>,
    config: ConfigView<K>,
    options: OptionsView,
    k: int,
)
    requires
        run_yaml_replay(trace, at, path, command, config, options) is Some,
        at + 3 <= k < (run_yaml_replay(trace, at, path, command, config, options)->0).0,
        trace[k].call is Tell,
    ensures
        told_for_a_reason(trace, k),
{
    reveal(run_yaml_replay);
    let manifest = yaml_document(trace[at + 2].reply->Contents_0->Ok_0)->Ok_0;
    let images = image_list(manifest);
    let (go, provided) = provide_all_replay(
        trace,
        at + 3,
        images,
        config,
        options,
        succeeded(""@),
    )->0;
    if k < go {
        provide_tells(trace, at + 3, images, config, options, succeeded(""@), k);
    } else {
        provide_all_steps(trace, at + 3, images, config, options, succeeded(""@));
        let down = if trace[go].reply->Done_0 is Ok {
            go + 2
        } else {
            go + 1
        };
        let ctx = pod_ctx(
            config,
            trace[at].reply->User_0->Ok_0.uid,
            trace[at + 1].reply->Id_0,
        );
        finalize_steps(trace, down + 1, ctx, trace[down].reply->Done_0);
        if k > down {
            assert(cleanup_call(trace[k].call, ctx));
        }
    }
}

} // verus!
