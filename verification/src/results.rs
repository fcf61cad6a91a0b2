//! What a run results in.

use vstd::prelude::*;

use crate::cleanup::finalize_replay;
use crate::command::{CommandView, OptionsView};
use crate::config::{ConfigView, EdfView};
use crate::context::{rootdirs_of, run_ctx, CurrentUser, RunId};
use crate::endings::{
    cleanup_goes_on, container_results, finalize_goes_on, finalize_leaves, leaves, pod_results,
    results_in,
};
use crate::error::ErrorView;
use crate::execute::command_replay;
use crate::laws::{answered_before, run_directories, step_is, tells};
use crate::manifest::{image_list, podman_container, yaml_document};
use crate::outcomes::{
    error_of, fails_at_the_end, failure_at, hook_failed, hook_heard, one_after_the_other,
    prepare_fails, provide_all_fails, provide_fails,
};
use crate::output::{succeeded, OutputView};
use crate::run::{
    pod_ctx, prepare_replay, provide_all_replay, provide_replay, run_edf_replay, run_replay,
    run_yaml_replay, terminals_replay,
};
use crate::shapes::{config_place, edf_steps, in_force, prepare_steps, run_steps, yaml_steps};
use crate::steps::{cleanup_call, finalize_steps, provide_all_steps, provide_steps, pull_call};
use crate::trace::{Call, Reply, Trace};
use crate::workloads::{directory_of, twelve_digits};

verus! {

/// Providing an image prints nothing.
proof fn provide_is_quiet<K, D>(
    trace: Trace<K, D>,
    at: int,
    image: Seq<char>,
    config: ConfigView<K>,
    options: OptionsView,
    output: OutputView,
)
    requires
        provide_replay(trace, at, image, config, options, output) is Some,
        output.stdout.len() == 0,
        output.stderr.len() == 0,
    ensures
        (provide_replay(trace, at, image, config, options, output)->0).1 matches Ok(provided) ==> {
            &&& provided.stdout.len() == 0
            &&& provided.stderr.len() == 0
        },
{
    reveal_strlit("");
}

/// Providing several images prints nothing.
proof fn provide_all_is_quiet<K, D>(
    trace: Trace<K, D>,
    at: int,
    images: Seq<Seq<char>>,
    config: ConfigView<K>,
    options: OptionsView,
    output: OutputView,
)
    requires
        provide_all_replay(trace, at, images, config, options, output) is Some,
        output.stdout.len() == 0,
        output.stderr.len() == 0,
    ensures
        (provide_all_replay(trace, at, images, config, options, output)->0).1 matches Ok(provided)
            ==> {
            &&& provided.stdout.len() == 0
            &&& provided.stderr.len() == 0
        },
    decreases images.len(),
{
    if images.len() > 0 {
        provide_is_quiet(trace, at, images[0], config, options, output);
        let (next, first) = provide_replay(trace, at, images[0], config, options, output)->0;
        if let Ok(provided) = first {
            provide_all_is_quiet(trace, next, images.skip(1), config, options, provided);
        }
    }
}

/// The user and the identifier of a run were answered before one place, and what the end of the run
/// leaves of its directory goes with that result.
pub open spec fn ends_so<K, D>(
    trace: Trace<K, D>,
    at: int,
    user: CurrentUser,
    id: RunId,
    cleaned: Result<(), ErrorView>,
    ran: Result<i32, ErrorView>,
    warning: Option<Seq<char>>,
    result: Result<OutputView, ErrorView>,
) -> bool {
    &&& answered_before(trace, at, Call::CurrentUser, Reply::User(Ok(user)))
    &&& answered_before(trace, at, Call::NewRunId, Reply::Id(id))
    &&& leaves(trace, at, trace.len() as int, directory_of(user, id), cleaned, warning)
    &&& results_in(result, ran, warning)
}

/// A container that was run decides the result: by its code, or by the reason why it has none. The
/// directory of the run is removed after it was cleaned up, and a warning tells where that failed.
pub proof fn containers_decide_the_result<K, D>(
    trace: Trace<K, D>,
    filepath: Seq<char>,
    container_cmd: Seq<Seq<char>>,
    options: OptionsView,
    result: Result<OutputView, ErrorView>,
    k: int,
)
    requires
        tells(trace, (CommandView::Run { filepath, container_cmd }), options, result),
        0 <= k < trace.len(),
        trace[k].call is RunFromEdf,
    ensures
        k + 2 <= trace.len(),
        trace[k].reply is Code,
        trace[k + 1].reply is Done,
        exists|user: CurrentUser, id: RunId, warning: Option<Seq<char>>| #[trigger]
            ends_so(
                trace,
                k + 2,
                user,
                id,
                trace[k + 1].reply->Done_0,
                trace[k].reply->Code_0,
                warning,
                result,
            ),
{
    let (begin, config) = run_steps(trace, filepath, container_cmd, options, result);
    if begin < trace.len() {
        if let Ok(edf) = trace[0].reply->Edf_0 {
            let go = edf_steps(trace, begin, edf, container_cmd, config, options);
            assert(k == go);
            let user = trace[begin + 1].reply->User_0->Ok_0;
            let id = trace[begin].reply->Id_0;
            assert(step_is(trace, begin + 1, Call::CurrentUser, Reply::User(Ok(user))));
            assert(step_is(trace, begin, Call::NewRunId, Reply::Id(id)));
            container_ends(trace, begin, k, edf, container_cmd, config, options, result);
        } else {
            let (go, down) = yaml_steps(trace, begin, filepath, container_cmd, config, options);
        }
    }
}

/// The end of a container.
proof fn container_ends<K, D>(
    trace: Trace<K, D>,
    at: int,
    k: int,
    edf: EdfView<D>,
    command: Seq<Seq<char>>,
    config: ConfigView<K>,
    options: OptionsView,
    result: Result<OutputView, ErrorView>,
)
    requires
        run_edf_replay(trace, at, edf, command, config, options) == Some(
            (trace.len() as int, result),
        ),
        at <= k < trace.len(),
        trace[k].call is RunFromEdf,
        forall|j: int|
            0 <= j < trace.len() && (#[trigger] trace[j]).call is RunFromEdf ==> j == k,
        answered_before(trace, k + 2, Call::CurrentUser, Reply::User(trace[at + 1].reply->User_0)),
        answered_before(trace, k + 2, Call::NewRunId, Reply::Id(trace[at].reply->Id_0)),
    ensures
        exists|user: CurrentUser, id: RunId, warning: Option<Seq<char>>| #[trigger]
            ends_so(
                trace,
                k + 2,
                user,
                id,
                trace[k + 1].reply->Done_0,
                trace[k].reply->Code_0,
                warning,
                result,
            ),
{
    reveal_strlit("");
    reveal(run_edf_replay);
    let user = trace[at + 1].reply->User_0->Ok_0;
    let id = trace[at].reply->Id_0;
    provide_is_quiet(trace, at + 2, edf.image, config, options, succeeded(""@));
    provide_steps(trace, at + 2, edf.image, config, options, succeeded(""@));
    let (next, provided) = provide_replay(
        trace,
        at + 2,
        edf.image,
        config,
        options,
        succeeded(""@),
    )->0;
    assert(trace[at + 1].reply->User_0 is Ok);
    assert(provided is Ok);
    let (go, interactive, tty) = terminals_replay(trace, next)->0;
    assert(trace[go].call is RunFromEdf);
    let ctx = run_ctx(config, user.uid, id);
    let cleaned = trace[go + 1].reply->Done_0;
    run_directories(config, user.uid, id);
    assert(twelve_digits(id) =~= id.tag());
    finalize_leaves(trace, go + 2, ctx, cleaned, directory_of(user, id));
    let (end, warning) = finalize_replay(trace, go + 2, ctx, cleaned)->0;
    container_results(provided->Ok_0, trace[go].reply->Code_0, warning);
    assert(ends_so(trace, k + 2, user, id, cleaned, trace[go].reply->Code_0, warning, result));
}

/// The place at which a pod is taken down that was played at another one: after the command was run
/// in it, or at once where it could not be played.
pub open spec fn taken_down_at<K, D>(trace: Trace<K, D>, k: int) -> int {
    if trace[k].reply->Done_0 is Ok {
        k + 2
    } else {
        k + 1
    }
}

/// What decides the result of a pod: that it could not be played or, once it was, what came of the
/// command or, once that has a code, that it could not be taken down.
pub open spec fn pod_decides<K, D>(trace: Trace<K, D>, k: int) -> Result<i32, ErrorView> {
    match trace[k].reply->Done_0 {
        Err(err) => Err(err),
        Ok(()) => match (trace[k + 1].reply->Code_0, trace[k + 2].reply->Done_0) {
            (Err(err), _) => Err(err),
            (Ok(_), Err(err)) => Err(err),
            (Ok(code), Ok(())) => Ok(code),
        },
    }
}

/// A pod that was played, with or without success, decides the result. The directory of the run is
/// removed after it was taken down, and a warning tells where that failed. The command was run in the
/// container that the manifest, as it was read in this run, wants joined.
pub proof fn pods_decide_the_result<K, D>(
    trace: Trace<K, D>,
    filepath: Seq<char>,
    container_cmd: Seq<Seq<char>>,
    options: OptionsView,
    result: Result<OutputView, ErrorView>,
    k: int,
)
    requires
        tells(trace, (CommandView::Run { filepath, container_cmd }), options, result),
        0 <= k < trace.len(),
        trace[k].call is KubePlay,
    ensures
        trace[k].reply is Done,
        taken_down_at(trace, k) < trace.len(),
        trace[taken_down_at(trace, k)].reply is Done,
        trace[k].reply->Done_0 is Ok ==> trace[k + 1].reply is Code,
        exists|user: CurrentUser, id: RunId, warning: Option<Seq<char>>| #[trigger]
            ends_so(
                trace,
                taken_down_at(trace, k) + 1,
                user,
                id,
                trace[taken_down_at(trace, k)].reply->Done_0,
                pod_decides(trace, k),
                warning,
                result,
            ),
        trace[k].reply->Done_0 is Ok ==> exists|r: int|
            {
                &&& 0 <= r < k
                &&& (#[trigger] trace[r]).call == (Call::<K, D>::ReadToString { path: filepath })
                &&& trace[r].reply is Contents
                &&& trace[r].reply->Contents_0 is Ok
                &&& yaml_document(trace[r].reply->Contents_0->Ok_0) is Ok
                &&& podman_container(yaml_document(trace[r].reply->Contents_0->Ok_0)->Ok_0) == Ok::<
                    Seq<char>,
                    ErrorView,
                >(trace[k + 1].call->ExecInteractive_name)
            },
{
    let (begin, config) = run_steps(trace, filepath, container_cmd, options, result);
    if begin < trace.len() {
        if let Ok(edf) = trace[0].reply->Edf_0 {
            let go = edf_steps(trace, begin, edf, container_cmd, config, options);
        } else {
            let (go, down) = yaml_steps(trace, begin, filepath, container_cmd, config, options);
            assert(k == go);
            let user = trace[begin].reply->User_0->Ok_0;
            let id = trace[begin + 1].reply->Id_0;
            assert(step_is(trace, begin, Call::CurrentUser, Reply::User(Ok(user))));
            assert(step_is(trace, begin + 1, Call::NewRunId, Reply::Id(id)));
            assert(trace[begin + 2].call == (Call::<K, D>::ReadToString { path: filepath }));
            pod_ends(trace, begin, k, filepath, container_cmd, config, options, result);
        }
    }
}

/// The end of a pod.
#[verifier::rlimit(60)]
#[verifier::spinoff_prover]
proof fn pod_ends<K, D>(
    trace: Trace<K, D>,
    at: int,
    k: int,
    path: Seq<char>,
    command: Seq<Seq<char>>,
    config: ConfigView<K>,
    options: OptionsView,
    result: Result<OutputView, ErrorView>,
)
    requires
        run_yaml_replay(trace, at, path, command, config, options) == Some(
            (trace.len() as int, result),
        ),
        at + 3 <= k < trace.len(),
        trace[k].call is KubePlay,
        forall|j: int|
            0 <= j < trace.len() && (#[trigger] trace[j]).call is KubePlay ==> j == k,
        answered_before(trace, k, Call::CurrentUser, Reply::User(trace[at].reply->User_0)),
        answered_before(trace, k, Call::NewRunId, Reply::Id(trace[at + 1].reply->Id_0)),
    ensures
        exists|user: CurrentUser, id: RunId, warning: Option<Seq<char>>| #[trigger]
            ends_so(
                trace,
                taken_down_at(trace, k) + 1,
                user,
                id,
                trace[taken_down_at(trace, k)].reply->Done_0,
                pod_decides(trace, k),
                warning,
                result,
            ),
{
    reveal_strlit("");
    reveal(run_yaml_replay);
    let user = trace[at].reply->User_0->Ok_0;
    let id = trace[at + 1].reply->Id_0;
    assert(trace[at].reply->User_0 is Ok);
    let manifest = yaml_document(trace[at + 2].reply->Contents_0->Ok_0)->Ok_0;
    let images = image_list(manifest);
    provide_all_is_quiet(trace, at + 3, images, config, options, succeeded(""@));
    provide_all_steps(trace, at + 3, images, config, options, succeeded(""@));
    let (go, provided) = provide_all_replay(
        trace,
        at + 3,
        images,
        config,
        options,
        succeeded(""@),
    )->0;
    assert(provided is Ok);
    assert(trace[go].call is KubePlay);
    let down = taken_down_at(trace, k);
    let ctx = pod_ctx(config, user.uid, id);
    let cleaned = trace[down].reply->Done_0;
    run_directories(config, user.uid, id);
    assert(rootdirs_of(ctx) == rootdirs_of(run_ctx(config, user.uid, id)));
    assert(twelve_digits(id) =~= id.tag());
    finalize_leaves(trace, down + 1, ctx, cleaned, directory_of(user, id));
    let (end, warning) = finalize_replay(trace, down + 1, ctx, cleaned)->0;
    let ran = match trace[k].reply->Done_0 {
        Err(err) => Err(err),
        Ok(()) => trace[k + 1].reply->Code_0,
    };
    pod_results(provided->Ok_0, ran, cleaned, warning);
    assert(ends_so(
        trace,
        down + 1,
        user,
        id,
        cleaned,
        pod_decides(trace, k),
        warning,
        result,
    ));
}

/// A file that was read and is no YAML. Where it was read for the first time, it is refused as one
/// that is neither an environment definition nor YAML.
pub open spec fn refused_at<K, D>(trace: Trace<K, D>, k: int, err: ErrorView) -> bool {
    match (trace[k].call, trace[k].reply) {
        (Call::ReadToString { path }, Reply::Contents(Ok(contents))) => {
            &&& yaml_document(contents) is Err
            &&& err == if k == 1 {
                ErrorView::UnsupportedInput(path + " is not valid EDF nor YAML"@)
            } else {
                ErrorView::Yaml(yaml_document(contents)->Err_0)
            }
        },
        _ => false,
    }
}

/// A manifest that was read and in which there is no container to join.
pub open spec fn nothing_to_join<K, D>(trace: Trace<K, D>, k: int, err: ErrorView) -> bool {
    match (trace[k].call, trace[k].reply) {
        (Call::ReadToString { path }, Reply::Contents(Ok(contents))) => {
            &&& yaml_document(contents) is Ok
            &&& podman_container(yaml_document(contents)->Ok_0) == Err::<Seq<char>, ErrorView>(err)
        },
        _ => false,
    }
}

/// No workload was run.
pub open spec fn nothing_was_run<K, D>(trace: Trace<K, D>) -> bool {
    forall|k: int|
        0 <= k < trace.len() ==> !((#[trigger] trace[k]).call is RunFromEdf) && !(
        trace[k].call is KubePlay)
}

/// A run in which a step means an error ends with it, and with that error. One that runs no workload
/// fails, for no other reason than such a step, a hook that did not end with code 0, a file that is no
/// YAML, or a manifest with no container to join.
pub proof fn runs_fail_with_their_last_step<K, D>(
    trace: Trace<K, D>,
    filepath: Seq<char>,
    container_cmd: Seq<Seq<char>>,
    options: OptionsView,
    result: Result<OutputView, ErrorView>,
)
    requires
        tells(trace, (CommandView::Run { filepath, container_cmd }), options, result),
    ensures
        forall|k: int|
            #![trigger trace[k]]
            0 <= k < trace.len() ==> {
                &&& failure_at(trace, k) is Some ==> k == trace.len() - 1 && error_of(result)
                    == failure_at(trace, k)
                &&& hook_heard(trace, k, trace.len() as int, error_of(result))
            },
        nothing_was_run(trace) ==> {
            &&& result is Err
            &&& {
                ||| failure_at(trace, trace.len() - 1) == error_of(result)
                ||| exists|k: int|
                    0 <= k < trace.len() && #[trigger] hook_failed(
                        trace,
                        k,
                        trace.len() as int,
                        result->Err_0,
                    )
                ||| refused_at(trace, trace.len() - 1, result->Err_0)
                ||| exists|k: int|
                    0 <= k < trace.len() && #[trigger] nothing_to_join(trace, k, result->Err_0)
            }
        },
{
    let (begin, config) = run_steps(trace, filepath, container_cmd, options, result);
    let end = trace.len() as int;
    opening_fails(trace, filepath, container_cmd, options, result);
    if begin < end {
        if let Ok(edf) = trace[0].reply->Edf_0 {
            container_fails(trace, begin, edf, container_cmd, config, options, result);
        } else {
            pod_fails(trace, begin, filepath, container_cmd, config, options, result);
        }
        failing_later(trace, begin, result);
    }
    assert(fails_so(trace, 0, result));
}

/// What is said of the errors of a part of a run, from one place to the end.
spec fn fails_so<K, D>(
    trace: Trace<K, D>,
    at: int,
    result: Result<OutputView, ErrorView>,
) -> bool {
    let end = trace.len() as int;
    &&& forall|k: int|
        #![trigger trace[k]]
        at <= k < end ==> {
            &&& failure_at(trace, k) is Some ==> k == end - 1 && error_of(result) == failure_at(
                trace,
                k,
            )
            &&& hook_heard(trace, k, end, error_of(result))
        }
    &&& nothing_was_run(trace) ==> {
        &&& result is Err
        &&& {
            ||| failure_at(trace, end - 1) == error_of(result)
            ||| exists|k: int|
                at <= k < end && #[trigger] hook_failed(trace, k, end, result->Err_0)
            ||| refused_at(trace, end - 1, result->Err_0)
            ||| exists|k: int| at <= k < end && #[trigger] nothing_to_join(trace, k, result->Err_0)
        }
    }
}

/// A part without an error, and the rest.
proof fn failing_later<K, D>(
    trace: Trace<K, D>,
    next: int,
    result: Result<OutputView, ErrorView>,
)
    requires
        0 <= next <= trace.len(),
        fails_at_the_end(trace, 0, next, None),
        fails_so(trace, next, result),
    ensures
        fails_so(trace, 0, result),
{
    let end = trace.len() as int;
    assert forall|k: int| #![trigger trace[k]] 0 <= k < end implies {
        &&& failure_at(trace, k) is Some ==> k == end - 1 && error_of(result) == failure_at(
            trace,
            k,
        )
        &&& hook_heard(trace, k, end, error_of(result))
    } by {
        if k < next {
            assert(hook_heard(trace, k, next, None));
        }
    }
    if nothing_was_run(trace) {
        if exists|k: int| next <= k < end && #[trigger] hook_failed(trace, k, end, result->Err_0) {
            let k = choose|k: int|
                next <= k < end && #[trigger] hook_failed(trace, k, end, result->Err_0);
            assert(hook_failed(trace, k, end, result->Err_0));
        }
        if exists|k: int| next <= k < end && #[trigger] nothing_to_join(trace, k, result->Err_0) {
            let k = choose|k: int|
                next <= k < end && #[trigger] nothing_to_join(trace, k, result->Err_0);
            assert(nothing_to_join(trace, k, result->Err_0));
        }
    }
}

/// The first steps of a run: the file is read, the configuration loaded, the imagestore prepared.
proof fn opening_fails<K, D>(
    trace: Trace<K, D>,
    filepath: Seq<char>,
    container_cmd: Seq<Seq<char>>,
    options: OptionsView,
    result: Result<OutputView, ErrorView>,
)
    requires
        tells(trace, (CommandView::Run { filepath, container_cmd }), options, result),
    ensures
        ({
            let place = config_place(trace);
            match in_force(trace, place, options) {
                None => fails_so(trace, 0, result),
                Some(_) => {
                    let (begin, prepared) = prepare_replay(trace, place, options)->0;
                    &&& prepare_replay(trace, place, options) is Some
                    &&& prepared is Ok ==> fails_at_the_end(trace, 0, begin, None)
                    &&& prepared is Err ==> fails_so(trace, 0, result)
                    &&& prepared is Ok ==> begin < trace.len()
                },
            }
        }),
{
    reveal(command_replay);
    reveal(run_replay);
    let place = config_place(trace);
    let end = trace.len() as int;
    if in_force(trace, place, options) is Some {
        prepare_fails(trace, place, options);
        prepare_steps(trace, place, options);
        let (begin, prepared) = prepare_replay(trace, place, options)->0;
        assert(fails_at_the_end(trace, 0, place, None));
        one_after_the_other(trace, 0, place, begin, error_of(prepared));
        if prepared is Ok {
            reveal(run_edf_replay);
            reveal(run_yaml_replay);
        }
    }
}

/// Running a container.
proof fn container_fails<K, D>(
    trace: Trace<K, D>,
    at: int,
    edf: EdfView<D>,
    command: Seq<Seq<char>>,
    config: ConfigView<K>,
    options: OptionsView,
    result: Result<OutputView, ErrorView>,
)
    requires
        0 <= at,
        run_edf_replay(trace, at, edf, command, config, options) == Some(
            (trace.len() as int, result),
        ),
    ensures
        fails_so(trace, at, result),
{
    reveal(run_edf_replay);
    let end = trace.len() as int;
    if let Ok(user) = trace[at + 1].reply->User_0 {
        let id = trace[at].reply->Id_0;
        provide_fails(trace, at + 2, edf.image, config, options, succeeded(""@));
        provide_steps(trace, at + 2, edf.image, config, options, succeeded(""@));
        let (next, provided) = provide_replay(
            trace,
            at + 2,
            edf.image,
            config,
            options,
            succeeded(""@),
        )->0;
        assert(fails_at_the_end(trace, at, at + 2, None));
        one_after_the_other(trace, at, at + 2, next, error_of(provided));
        if provided is Ok {
            let (go, interactive, tty) = terminals_replay(trace, next)->0;
            let ctx = run_ctx(config, user.uid, id);
            finalize_steps(trace, go + 2, ctx, trace[go + 1].reply->Done_0);
            assert(trace[go].call is RunFromEdf);
            assert forall|k: int| #![trigger trace[k]] at <= k < end implies {
                &&& failure_at(trace, k) is None
                &&& hook_heard(trace, k, end, error_of(result))
            } by {
                if k < next {
                    assert(hook_heard(trace, k, next, None));
                } else if k >= go + 2 {
                    assert(cleanup_call(trace[k].call, ctx));
                }
            }
        }
    }
}

/// Running a pod.
proof fn pod_fails<K, D>(
    trace: Trace<K, D>,
    at: int,
    path: Seq<char>,
    command: Seq<Seq<char>>,
    config: ConfigView<K>,
    options: OptionsView,
    result: Result<OutputView, ErrorView>,
)
    requires
        2 <= at,
        run_yaml_replay(trace, at, path, command, config, options) == Some(
            (trace.len() as int, result),
        ),
    ensures
        fails_so(trace, at, result),
{
    reveal(run_yaml_replay);
    let end = trace.len() as int;
    if let Ok(user) = trace[at].reply->User_0 {
        if let Ok(contents) = trace[at + 2].reply->Contents_0 {
            if let Ok(manifest) = yaml_document(contents) {
                let id = trace[at + 1].reply->Id_0;
                let images = image_list(manifest);
                provide_all_fails(trace, at + 3, images, config, options, succeeded(""@));
                provide_all_steps(trace, at + 3, images, config, options, succeeded(""@));
                let (go, provided) = provide_all_replay(
                    trace,
                    at + 3,
                    images,
                    config,
                    options,
                    succeeded(""@),
                )->0;
                assert(fails_at_the_end(trace, at, at + 3, None));
                one_after_the_other(trace, at, at + 3, go, error_of(provided));
                if provided is Ok {
                    if podman_container(manifest) is Err {
                        assert(nothing_to_join(trace, at + 2, result->Err_0));
                        assert forall|k: int| #![trigger trace[k]] at <= k < end implies {
                            &&& failure_at(trace, k) is None
                            &&& hook_heard(trace, k, end, error_of(result))
                        } by {
                            assert(hook_heard(trace, k, go, None));
                        }
                    } else {
                        let down = taken_down_at(trace, go);
                        let ctx = pod_ctx(config, user.uid, id);
                        finalize_steps(trace, down + 1, ctx, trace[down].reply->Done_0);
                        assert(trace[go].call is KubePlay);
                        assert forall|k: int| #![trigger trace[k]] at <= k < end implies {
                            &&& failure_at(trace, k) is None
                            &&& hook_heard(trace, k, end, error_of(result))
                        } by {
                            if k < go {
                                assert(hook_heard(trace, k, go, None));
                            } else if k > down {
                                assert(cleanup_call(trace[k].call, ctx));
                            }
                        }
                    }
                }
            }
        }
    }
}

/// A run removes its directory step by step: until it is gone, or until what is left is listed.
pub proof fn cleanups_go_on_step_by_step<K, D>(
    trace: Trace<K, D>,
    filepath: Seq<char>,
    container_cmd: Seq<Seq<char>>,
    options: OptionsView,
    result: Result<OutputView, ErrorView>,
    k: int,
)
    requires
        tells(trace, (CommandView::Run { filepath, container_cmd }), options, result),
        0 <= k < trace.len(),
    ensures
        cleanup_goes_on(trace, k, trace.len() as int),
{
    let (begin, config) = run_steps(trace, filepath, container_cmd, options, result);
    if k >= begin {
        if let Ok(edf) = trace[0].reply->Edf_0 {
            let go = edf_steps(trace, begin, edf, container_cmd, config, options);
            if k >= go + 2 {
                container_cleanup(trace, begin, k, edf, container_cmd, config, options);
            }
        } else {
            let (go, down) = yaml_steps(trace, begin, filepath, container_cmd, config, options);
            if k > down && go < trace.len() {
                pod_cleanup(trace, begin, k, filepath, container_cmd, config, options);
            }
        }
    }
}

/// The cleanup of a container.
proof fn container_cleanup<K, D>(
    trace: Trace<K, D>,
    at: int,
    k: int,
    edf: EdfView<D>,
    command: Seq<Seq<char>>,
    config: ConfigView<K>,
    options: OptionsView,
)
    requires
        run_edf_replay(trace, at, edf, command, config, options) is Some,
        (run_edf_replay(trace, at, edf, command, config, options)->0).0 == trace.len(),
        at + 2 <= k < trace.len(),
        trace[at + 1].reply->User_0 is Ok,
    ensures
        cleanup_goes_on(trace, k, trace.len() as int),
{
    reveal(run_edf_replay);
    let user = trace[at + 1].reply->User_0->Ok_0;
    let id = trace[at].reply->Id_0;
    provide_steps(trace, at + 2, edf.image, config, options, succeeded(""@));
    let (next, provided) = provide_replay(
        trace,
        at + 2,
        edf.image,
        config,
        options,
        succeeded(""@),
    )->0;
    if k >= next {
        let (go, interactive, tty) = terminals_replay(trace, next)->0;
        if k >= go + 2 {
            let ctx = run_ctx(config, user.uid, id);
            finalize_goes_on(trace, go + 2, ctx, trace[go + 1].reply->Done_0);
        }
    }
}

/// The cleanup of a pod.
proof fn pod_cleanup<K, D>(
    trace: Trace<K, D>,
    at: int,
    k: int,
    path: Seq<char>,
    command: Seq<Seq<char>>,
    config: ConfigView<K>,
    options: OptionsView,
)
    requires
        run_yaml_replay(trace, at, path, command, config, options) is Some,
        (run_yaml_replay(trace, at, path, command, config, options)->0).0 == trace.len(),
        at + 3 <= k < trace.len(),
    ensures
        cleanup_goes_on(trace, k, trace.len() as int),
{
    reveal(run_yaml_replay);
    let user = trace[at].reply->User_0->Ok_0;
    let id = trace[at + 1].reply->Id_0;
    let images = image_list(yaml_document(trace[at + 2].reply->Contents_0->Ok_0)->Ok_0);
    provide_all_steps(trace, at + 3, images, config, options, succeeded(""@));
    let (go, provided) = provide_all_replay(
        trace,
        at + 3,
        images,
        config,
        options,
        succeeded(""@),
    )->0;
    if k < go {
        let image = choose|image: Seq<char>| #[trigger]
            images.contains(image) && pull_call(trace[k].call, image, config, options);
        assert(pull_call(trace[k].call, image, config, options));
    } else {
        let down = taken_down_at(trace, go);
        if k > down {
            let ctx = pod_ctx(config, user.uid, id);
            finalize_goes_on(trace, down + 1, ctx, trace[down].reply->Done_0);
        }
    }
}

} // verus!
