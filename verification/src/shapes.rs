//! How the steps of a run follow on each other.

use vstd::prelude::*;

use crate::command::{CommandView, OptionsView};
use crate::config::{overridden, ConfigView, EdfView};
use crate::context::{run_ctx, CurrentUser};
use crate::error::ErrorView;
use crate::execute::command_replay;
use crate::loading::with_options;
use crate::manifest::{image_list, podman_container, yaml_document};
use crate::output::{succeeded, OutputView};
use crate::run::{
    edf_container, pod_ctx, prepare_replay, provide_all_replay, provide_replay, run_edf_replay,
    run_replay, run_yaml_replay, terminals_replay,
};
use crate::steps::{
    cleanup_call, finalize_steps, found_in_store, missed_in_store, provide_all_steps,
    provide_steps, pull_call, setup_call, setup_steps,
};
use crate::trace::{answer, Call, Reply, Trace};

verus! {

/// The calls before a configuration is in force: the file is read, and the configuration loaded.
pub open spec fn reading_call<K, D>(call: Call<K, D>) -> bool {
    call is Render || call is ReadToString || call is LoadConfig
}

/// A configuration with the imagestore that the options name, if they name one.
pub open spec fn heeds<K>(config: ConfigView<K>, options: OptionsView) -> bool {
    match options.parallax_imagestore {
        Some(path) => config.parallax_imagestore == path,
        None => true,
    }
}

/// A step of providing an image: Podman pulls only what was missed in the imagestore two steps
/// before.
pub open spec fn provide_step<K, D>(
    trace: Trace<K, D>,
    k: int,
    image: Seq<char>,
    config: ConfigView<K>,
    options: OptionsView,
) -> bool {
    &&& pull_call(trace[k].call, image, config, options)
    &&& trace[k].call is Pull ==> k >= 2 && missed_in_store(trace, k - 2, image)
}

/// The steps right before one place looked at the terminals: at the input for `interactive`, and for
/// `tty` at the input again and, where that is a terminal, at the output too.
pub open spec fn terminals_seen<K, D>(
    trace: Trace<K, D>,
    k: int,
    interactive: bool,
    tty: bool,
) -> bool {
    let n = if trace[k - 1].call is StdoutIsTerminal {
        k - 3
    } else {
        k - 2
    };
    &&& 0 <= n
    &&& trace[n].call is StdinIsTerminal
    &&& trace[n].reply == Reply::<K, D>::Flag(interactive)
    &&& trace[n + 1].call is StdinIsTerminal
    &&& trace[n + 1].reply == Reply::<K, D>::Flag(k == n + 3)
    &&& k == n + 3 ==> trace[n + 2].reply == Reply::<K, D>::Flag(tty)
    &&& k == n + 2 ==> !tty
}

/// The steps of running an environment definition, from `at` to `end`. The container is run in the
/// step at `go`; where it comes to no run, `go` is `end`.
pub open spec fn edf_shape<K, D>(
    trace: Trace<K, D>,
    at: int,
    go: int,
    end: int,
    edf: EdfView<D>,
    command: Seq<Seq<char>>,
    config: ConfigView<K>,
    options: OptionsView,
    result: Result<OutputView, ErrorView>,
) -> bool {
    let id = trace[at].reply->Id_0;
    let user = trace[at + 1].reply->User_0->Ok_0;
    let ctx = run_ctx(config, user.uid, id);
    &&& 0 <= at < at + 2 <= go <= end <= trace.len()
    &&& trace[at].call is NewRunId
    &&& trace[at].reply is Id
    &&& trace[at + 1].call is CurrentUser
    &&& trace[at + 1].reply is User
    &&& forall|k: int|
        at + 2 <= k < go ==> {
            ||| provide_step(trace, k, edf.image, config, options)
            ||| (#[trigger] trace[k]).call is StdinIsTerminal
            ||| trace[k].call is StdoutIsTerminal
        }
    &&& go == end ==> result is Err
    &&& go < end ==> {
        &&& go + 2 <= end
        &&& trace[at + 1].reply->User_0 is Ok
        &&& exists|j: int| at + 2 <= j < go && #[trigger] found_in_store(trace, j, edf.image)
        &&& trace[go].call is RunFromEdf
        &&& trace[go].call->RunFromEdf_edf == edf
        &&& trace[go].call->RunFromEdf_ctx == ctx
        &&& trace[go].call->RunFromEdf_container == edf_container(
            user.uid,
            id,
            trace[go].call->RunFromEdf_container.interactive,
            trace[go].call->RunFromEdf_container.tty,
        )
        &&& terminals_seen(
            trace,
            go,
            trace[go].call->RunFromEdf_container.interactive,
            trace[go].call->RunFromEdf_container.tty,
        )
        &&& trace[go].call->RunFromEdf_command == command
        &&& trace[go].reply is Code
        &&& trace[go + 1].call == Call::<K, D>::CleanupContainer {
            name: trace[go].call->RunFromEdf_container.name,
            ctx,
        }
        &&& trace[go + 1].reply is Done
        &&& forall|k: int|
            go + 2 <= k < end ==> cleanup_call((#[trigger] trace[k]).call, ctx)
                && trace[go + 1].reply->Done_0 is Ok
        &&& result matches Ok(output) ==> trace[go].reply->Code_0 == Ok::<i32, ErrorView>(
            output.return_code,
        )
    }
}

/// The steps of running an environment definition.
pub(crate) proof fn edf_steps<K, D>(
    trace: Trace<K, D>,
    at: int,
    edf: EdfView<D>,
    command: Seq<Seq<char>>,
    config: ConfigView<K>,
    options: OptionsView,
) -> (go: int)
    requires
        run_edf_replay(trace, at, edf, command, config, options) is Some,
    ensures
        ({
            let (end, result) = run_edf_replay(trace, at, edf, command, config, options)->0;
            edf_shape(trace, at, go, end, edf, command, config, options, result)
        }),
{
    reveal(run_edf_replay);
    let (end, result) = run_edf_replay(trace, at, edf, command, config, options)->0;
    if trace[at + 1].reply->User_0 is Err {
        end
    } else {
        let user = trace[at + 1].reply->User_0->Ok_0;
        let id = trace[at].reply->Id_0;
        provide_steps(trace, at + 2, edf.image, config, options, succeeded(""@));
        let (next, provided) = provide_replay(
            trace,
            at + 2,
            edf.image,
            config,
            options,
            succeeded(""@),
        )->0;
        if provided is Err {
            end
        } else {
            let (go, interactive, tty) = terminals_replay(trace, next)->0;
            let ctx = run_ctx(config, user.uid, id);
            let cleaned = trace[go + 1].reply->Done_0;
            finalize_steps(trace, go + 2, ctx, cleaned);
            assert(found_in_store(trace, next - 1, edf.image));
            go
        }
    }
}

/// The steps of running a Kubernetes manifest, from `at` to `end`. The pod is played in the step at
/// `go` and taken down in the step at `down`; where it comes to no run, `go` is `end`.
pub open spec fn yaml_shape<K, D>(
    trace: Trace<K, D>,
    at: int,
    go: int,
    down: int,
    end: int,
    path: Seq<char>,
    command: Seq<Seq<char>>,
    config: ConfigView<K>,
    options: OptionsView,
    result: Result<OutputView, ErrorView>,
) -> bool {
    let user = trace[at].reply->User_0->Ok_0;
    let id = trace[at + 1].reply->Id_0;
    let ctx = pod_ctx(config, user.uid, id);
    let manifest = yaml_document(trace[at + 2].reply->Contents_0->Ok_0)->Ok_0;
    &&& 0 <= at < go <= end <= trace.len()
    &&& trace[at].call is CurrentUser
    &&& trace[at].reply is User
    &&& at + 1 < go ==> {
        &&& at + 3 <= go
        &&& trace[at + 1].call is NewRunId
        &&& trace[at + 1].reply is Id
        &&& trace[at + 2].call == Call::<K, D>::ReadToString { path }
        &&& trace[at + 2].reply is Contents
    }
    &&& forall|k: int|
        #![trigger trace[k]]
        at + 3 <= k < go ==> exists|image: Seq<char>| #[trigger]
            image_list(manifest).contains(image) && provide_step(trace, k, image, config, options)
    &&& go == end ==> result is Err
    &&& go < end ==> {
        &&& at + 3 <= go < down < end
        &&& trace[at].reply->User_0 is Ok
        &&& trace[at + 2].reply->Contents_0 is Ok
        &&& yaml_document(trace[at + 2].reply->Contents_0->Ok_0) is Ok
        &&& forall|image: Seq<char>| #[trigger]
            image_list(manifest).contains(image) ==> exists|j: int|
                at + 3 <= j < go && #[trigger] found_in_store(trace, j, image)
        &&& podman_container(manifest) is Ok
        &&& trace[go].call == Call::<K, D>::KubePlay { path, ctx }
        &&& trace[go].reply is Done
        &&& trace[go].reply->Done_0 is Err ==> down == go + 1
        &&& trace[go].reply->Done_0 is Ok ==> {
            &&& down == go + 2
            &&& trace[go + 1].call == Call::<K, D>::ExecInteractive {
                name: podman_container(manifest)->Ok_0,
                ctx,
                command,
            }
            &&& trace[go + 1].reply is Code
        }
        &&& trace[down].call == Call::<K, D>::KubeDown { path, force: true, ctx }
        &&& trace[down].reply is Done
        &&& forall|k: int|
            down + 1 <= k < end ==> cleanup_call((#[trigger] trace[k]).call, ctx)
                && trace[down].reply->Done_0 is Ok
        &&& result matches Ok(output) ==> {
            &&& trace[go].reply->Done_0 is Ok
            &&& trace[go + 1].reply->Code_0 == Ok::<i32, ErrorView>(output.return_code)
        }
    }
}

/// The steps of running a Kubernetes manifest.
pub(crate) proof fn yaml_steps<K, D>(
    trace: Trace<K, D>,
    at: int,
    path: Seq<char>,
    command: Seq<Seq<char>>,
    config: ConfigView<K>,
    options: OptionsView,
) -> (places: (int, int))
    requires
        run_yaml_replay(trace, at, path, command, config, options) is Some,
    ensures
        ({
            let (end, result) = run_yaml_replay(trace, at, path, command, config, options)->0;
            yaml_shape(
                trace,
                at,
                places.0,
                places.1,
                end,
                path,
                command,
                config,
                options,
                result,
            )
        }),
{
    reveal(run_yaml_replay);
    let (end, result) = run_yaml_replay(trace, at, path, command, config, options)->0;
    if trace[at].reply->User_0 is Err {
        (end, end)
    } else {
        let user = trace[at].reply->User_0->Ok_0;
        let id = trace[at + 1].reply->Id_0;
        let read = trace[at + 2].reply->Contents_0;
        if read is Err || yaml_document(read->Ok_0) is Err {
            (end, end)
        } else {
            let manifest = yaml_document(read->Ok_0)->Ok_0;
            let images = image_list(manifest);
            provide_all_steps(trace, at + 3, images, config, options, succeeded(""@));
            let (go, provided) = provide_all_replay(
                trace,
                at + 3,
                images,
                config,
                options,
                succeeded(""@),
            )->0;
            assert forall|k: int|
                #![trigger trace[k]]
                at + 3 <= k < go implies exists|image: Seq<char>| #[trigger]
                images.contains(image) && provide_step(trace, k, image, config, options) by {
                let image = choose|image: Seq<char>| #[trigger]
                    images.contains(image) && pull_call(trace[k].call, image, config, options) && (
                    trace[k].call is Pull ==> at + 3 <= k - 2 && missed_in_store(
                        trace,
                        k - 2,
                        image,
                    ));
                assert(images.contains(image) && provide_step(trace, k, image, config, options));
            }
            if provided is Err || podman_container(manifest) is Err {
                (end, end)
            } else {
                let ctx = pod_ctx(config, user.uid, id);
                let down = if trace[go].reply->Done_0 is Err {
                    go + 1
                } else {
                    go + 2
                };
                finalize_steps(trace, down + 1, ctx, trace[down].reply->Done_0);
                (go, down)
            }
        }
    }
}

/// The first steps of a run, up to `begin`: the file is read, the configuration loaded, and the
/// imagestore prepared. Where they fail, `begin` is the end of the trace.
pub open spec fn opening_shape<K, D>(
    trace: Trace<K, D>,
    begin: int,
    path: Seq<char>,
    options: OptionsView,
) -> bool {
    let place = config_place(trace);
    &&& 0 < begin <= trace.len()
    &&& trace[0].call == Call::<K, D>::Render { path }
    &&& in_force(trace, place, options) is Some ==> {
        &&& prepare_replay(trace, place, options) is Some
        &&& (prepare_replay(trace, place, options)->0).0 == begin
    }
    &&& forall|k: int|
        0 <= k < begin ==> {
            ||| reading_call((#[trigger] trace[k]).call) && k <= place && (
            trace[k].call is LoadConfig ==> k == place)
            ||| k > place && in_force(trace, place, options) is Some && setup_call(
                trace[k].call,
                in_force(trace, place, options)->0,
            )
        }
}

/// The place at which a run loads the configuration, if it comes to that: right after the file was
/// read, which takes a second look where it is no environment definition.
pub open spec fn config_place<K, D>(trace: Trace<K, D>) -> int {
    if trace[0].reply->Edf_0 is Ok {
        1
    } else {
        2
    }
}

/// The configuration that was loaded at one place, with the options applied.
pub open spec fn in_force<K, D>(trace: Trace<K, D>, place: int, options: OptionsView) -> Option<
    ConfigView<K>,
> {
    match answer(trace, place, Call::LoadConfig) {
        Some(Reply::Config(Ok(loaded))) => Some(overridden(loaded, options)),
        _ => None,
    }
}

/// The steps of loading the configuration and preparing the imagestore.
pub(crate) proof fn prepare_steps<K, D>(trace: Trace<K, D>, at: int, options: OptionsView)
    requires
        prepare_replay(trace, at, options) is Some,
    ensures
        ({
            let (end, result) = prepare_replay(trace, at, options)->0;
            &&& 0 <= at < end <= trace.len()
            &&& trace[at].call is LoadConfig
            &&& trace[at].reply is Config
            &&& forall|k: int|
                at < k < end ==> in_force(trace, at, options) is Some && setup_call(
                    (#[trigger] trace[k]).call,
                    in_force(trace, at, options)->0,
                )
            &&& result matches Ok(config) ==> in_force(trace, at, options) == Some(config)
        }),
{
    if let Some(Reply::Config(loaded)) = answer(trace, at, Call::LoadConfig) {
        if let Ok(config) = with_options(loaded, options) {
            setup_steps(trace, at + 1, config);
        }
    }
}

/// A run is in its opening steps up to `begin`. What follows is the run of an environment
/// definition or of a manifest, with `config` in force.
pub open spec fn run_shape<K, D>(
    trace: Trace<K, D>,
    begin: int,
    path: Seq<char>,
    command: Seq<Seq<char>>,
    config: ConfigView<K>,
    options: OptionsView,
    result: Result<OutputView, ErrorView>,
) -> bool {
    &&& opening_shape(trace, begin, path, options)
    &&& begin == trace.len() ==> result is Err
    &&& begin < trace.len() ==> {
        &&& in_force(trace, config_place(trace), options) == Some(config)
        &&& trace[0].reply is Edf
        &&& match trace[0].reply->Edf_0 {
            Ok(edf) => run_edf_replay(trace, begin, edf, command, config, options) == Some(
                (trace.len() as int, result),
            ),
            Err(_) => run_yaml_replay(trace, begin, path, command, config, options) == Some(
                (trace.len() as int, result),
            ),
        }
    }
}

/// The steps of a run.
pub(crate) proof fn run_steps<K, D>(
    trace: Trace<K, D>,
    path: Seq<char>,
    command: Seq<Seq<char>>,
    options: OptionsView,
    result: Result<OutputView, ErrorView>,
) -> (opened: (int, ConfigView<K>))
    requires
        command_replay(
            trace,
            0,
            (CommandView::Run { filepath: path, container_cmd: command }),
            options,
        ) == Some((trace.len() as int, result)),
    ensures
        run_shape(trace, opened.0, path, command, opened.1, options, result),
{
    reveal(command_replay);
    reveal(run_replay);
    let start: int = if trace[0].reply->Edf_0 is Ok {
        1
    } else {
        2
    };
    let nothing = (trace.len() as int, arbitrary::<ConfigView<K>>());
    if start == 2 && (trace[1].reply->Contents_0 is Err || yaml_document(
        trace[1].reply->Contents_0->Ok_0,
    ) is Err) {
        nothing
    } else {
        prepare_steps(trace, start, options);
        let (begin, prepared) = prepare_replay(trace, start, options)->0;
        if prepared is Err {
            nothing
        } else {
            let config = prepared->Ok_0;
            if start == 1 {
                let edf = trace[0].reply->Edf_0->Ok_0;
                edf_steps(trace, begin, edf, command, config, options);
            } else {
                yaml_steps(trace, begin, path, command, config, options);
            }
            (begin, config)
        }
    }
}

} // verus!
