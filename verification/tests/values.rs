//! Outcomes, messages, contexts and the answers of Podman.

use sarusctl::cleanup::{cleanup_timeout_warning, describe_dir_entries};
use sarusctl::error::combine_error_with_warning;
use sarusctl::execute::{render_output, validation_output};
use sarusctl::loading::{config_dir_exists, user_config_dir};
use sarusctl::logging::{is_profiled, log_level, LogLevel};
use sarusctl::output::{append_warning, merge_output};
use sarusctl::podman::{
    cleanup_decision, exit_code_outcome, graphroot_outcome, log_hook_ec, migrate_outcome, podman_output_result,
    pull_outcome, rmi_outcome, runtime_outcome, ContainerCleanup,
};
use sarusctl::run::{pod_outcome, run_outcome};
use sarusctl::text::{
    decimal_text, join, parent_dir, signed_text, split_lines, text_precedes, trim,
};
use sarusctl::{
    build_parallax_seed_ctx, build_pull_ctx, build_readonly_ctx, build_run_ctx, format_output,
    report, AppError, AppOutput, CommandSpec, Config, CurrentUser, DirStatus, Edf, ExecOptions,
    FormatOutput, FormattedOutput, HookOutput, RealUserContext, Report, RunId, UserContext,
};

fn sample_config() -> Config<()> {
    Config {
        parallax_imagestore: String::from("/tmp/sarusctl-test-parallax-store"),
        parallax_mount_program: String::from("/usr/local/bin/parallax_mount_program"),
        parallax_mp_uid: 1234,
        parallax_mp_gid: 4321,
        parallax_mp_squashfuse_path: String::from("/usr/bin/squashfuse"),
        parallax_mp_logfile: String::from("/tmp/parallax-1234/mount_program.log"),
        parallax_path: String::from("/usr/local/bin/parallax"),
        podman_module: String::from("hpc"),
        podman_path: String::from("/usr/bin/podman"),
        document: (),
    }
}

fn output(stdout: &str, stderr: &str, return_code: i32) -> AppOutput {
    AppOutput {
        stdout: String::from(stdout),
        stderr: String::from(stderr),
        return_code,
    }
}

#[test]
fn format_output_keeps_text_streams_separate() {
    let out = AppOutput {
        stdout: String::from("ok"),
        stderr: String::from("warn"),
        return_code: 1,
    };

    let formatted = format_output(FormatOutput::Text, &out);
    assert_eq!(
        formatted,
        FormattedOutput {
            stdout: String::from("ok"),
            stderr: String::from("warn"),
        }
    );
}

#[test]
fn format_output_json_serializes_app_output() {
    let out = AppOutput {
        stdout: String::from("ok"),
        stderr: String::from("warn"),
        return_code: 1,
    };

    let formatted = format_output(FormatOutput::Json, &out);
    assert!(formatted.stdout.contains("\"stdout\": \"ok\""));
    assert!(formatted.stdout.contains("\"stderr\": \"warn\""));
    assert!(formatted.stdout.contains("\"return_code\": 1"));
    assert!(formatted.stderr.is_empty());
}

#[test]
fn json_is_laid_out_a_member_to_a_line() {
    let formatted = format_output(FormatOutput::Json, &output("ok", "", -3));
    assert_eq!(
        formatted.stdout,
        "{\n  \"stdout\": \"ok\",\n  \"stderr\": \"\",\n  \"return_code\": -3\n}"
    );
}

#[test]
fn json_escapes_what_it_must() {
    let formatted = format_output(
        FormatOutput::Json,
        &output("a\"b\\c\n\t\r\u{8}\u{c}\u{1}\u{1f}\u{7f}/é", "", 0),
    );
    assert_eq!(
        formatted.stdout,
        "{\n  \"stdout\": \"a\\\"b\\\\c\\n\\t\\r\\b\\f\\u0001\\u001f\u{7f}/é\",\n  \"stderr\": \"\",\n  \"return_code\": 0\n}"
    );
}

#[test]
fn build_context_helpers_match_expected_fields() {
    let config = sample_config();
    let run_id = RunId {
        bits: uuid::Uuid::parse_str("a1a2a3a4b1b2c1c2d1d2d3d4d5d6d7d8")
            .unwrap()
            .as_u128(),
    };
    let user = CurrentUser {
        uid: 1234,
        gid: 4321,
    };
    let parallax_imagestore = String::from("/tmp/sarusctl-test-parallax-store");

    let pull = build_pull_ctx(&config);
    assert_eq!(pull.podman_path, "/usr/bin/podman");
    assert_eq!(pull.ro_store, None);

    let seed = build_parallax_seed_ctx(&config);
    assert_eq!(seed.podman_path, "/usr/bin/podman");
    assert_eq!(seed.ro_store, Some(parallax_imagestore.clone()));

    let ro = build_readonly_ctx(&config);
    assert_eq!(ro.podman_path, "/usr/bin/podman");
    assert_eq!(ro.graphroot, Some(parallax_imagestore.clone()));

    let run = build_run_ctx(&config, &user, &run_id);
    assert_eq!(run.podman_path, "/usr/bin/podman");
    assert_eq!(run.module, Some(String::from("hpc")));
    assert_eq!(
        run.graphroot,
        Some(String::from("/dev/shm/sarusctl-1234-a1a2a3a4b1b2/graphroot"))
    );
    assert_eq!(
        run.runroot,
        Some(String::from("/dev/shm/sarusctl-1234-a1a2a3a4b1b2/runroot"))
    );
    assert_eq!(run.ro_store, Some(parallax_imagestore));
    assert_eq!(
        run.parallax_mount_program,
        Some(String::from("/usr/local/bin/parallax_mount_program"))
    );
    let env = run.podman_env.expect("missing env");
    let get = |name: &str| {
        env.iter()
            .find(|(key, _)| key == name)
            .map(|(_, value)| value.as_str())
    };
    assert_eq!(env.len(), 4);
    assert_eq!(get("PARALLAX_MP_UID").unwrap(), "1234");
    assert_eq!(get("PARALLAX_MP_GID").unwrap(), "4321");
    assert_eq!(
        get("PARALLAX_MP_SQUASHFUSE_CMD").unwrap(),
        "/usr/bin/squashfuse"
    );
    assert_eq!(
        get("PARALLAX_MP_LOGFILE").unwrap(),
        "/tmp/parallax-1234/mount_program.log"
    );
}

#[test]
fn run_directories_differ_between_users_and_runs() {
    let config = sample_config();
    let base = |uid: u32, bits: u128| {
        let user = CurrentUser { uid, gid: 0 };
        let graphroot = build_run_ctx(&config, &user, &RunId { bits }).graphroot;
        parent_dir(&graphroot.unwrap()).unwrap()
    };
    assert_eq!(base(7, 0), "/dev/shm/sarusctl-7-000000000000");
    assert_ne!(base(7, 0), base(8, 0));
    assert_ne!(base(7, 0), base(7, 1 << 80));
    assert_eq!(base(7, 0), base(7, 1));
}

#[test]
fn the_tag_is_the_front_of_the_identifier() {
    let run_id = RunId {
        bits: 0x0123456789abcdef0123456789abcdef,
    };
    assert_eq!(run_id.tag_text(), "0123456789ab");
}

#[test]
fn messages_of_errors() {
    let text = || String::from("cause");
    assert_eq!(
        AppError::ConfigLoad(text()).message(),
        "Failed to load configuration: cause"
    );
    assert_eq!(
        AppError::PodmanInfo(text()).message(),
        "Failed to query Podman info: cause"
    );
    assert_eq!(AppError::Runtime(text()).message(), "cause");
    assert_eq!(AppError::UnsupportedInput(text()).message(), "cause");
    assert_eq!(AppError::Io(text()).message(), "cause");
    assert_eq!(AppError::Yaml(text()).message(), "cause");
    assert_eq!(AppError::UserLookup(text()).message(), "cause");
}

#[test]
fn a_warning_is_added_below_an_error() {
    assert_eq!(
        combine_error_with_warning(
            AppError::PodmanInfo(String::from("gone")),
            String::from("careful")
        ),
        AppError::Runtime(String::from("Failed to query Podman info: gone\ncareful"))
    );
}

#[test]
fn outcomes_are_merged_line_by_line() {
    let mut base = output("a", "", 0);
    merge_output(&mut base, output("b", "x", 2));
    assert_eq!(base, output("a\nb", "x", 2));
    merge_output(&mut base, output("", "", 0));
    assert_eq!(base, output("a\nb", "x", 2));
}

#[test]
fn merging_may_be_grouped_either_way() {
    let (a, b, c) = (output("a", "", 1), output("", "y", 0), output("c", "z", 0));
    let mut left = a.clone();
    merge_output(&mut left, b.clone());
    merge_output(&mut left, c.clone());
    let mut tail = b;
    merge_output(&mut tail, c);
    let mut right = a;
    merge_output(&mut right, tail);
    assert_eq!(left, right);
    assert_eq!(left, output("a\nc", "y\nz", 1));
}

#[test]
fn warnings_leave_the_rest_alone() {
    let mut out = output("a", "", 3);
    append_warning(&mut out, String::from("w"));
    assert_eq!(out, output("a", "w", 3));
    append_warning(&mut out, String::from("v"));
    assert_eq!(out, output("a", "w\nv", 3));
}

#[test]
fn reports_write_each_stream_that_has_something_to_say() {
    assert_eq!(
        report(FormatOutput::Text, &Ok(output("a", "", 0))),
        Report {
            stdout: Some(String::from("a")),
            stderr: None,
            status: 0
        }
    );
    assert_eq!(
        report(FormatOutput::Text, &Ok(output("", "b", 127))),
        Report {
            stdout: None,
            stderr: Some(String::from("b")),
            status: 127
        }
    );
    let json = report(FormatOutput::Json, &Ok(output("a", "b", 1)));
    assert_eq!(json.stderr, None);
    assert_eq!(json.status, 1);
    assert!(json.stdout.unwrap().starts_with("{\n  \"stdout\": \"a\""));
}

#[test]
fn statuses_are_taken_modulo_256() {
    let status = |code: i32| report(FormatOutput::Text, &Ok(output("", "", code))).status;
    assert_eq!(status(256), 0);
    assert_eq!(status(257), 1);
    assert_eq!(status(-1), 255);
    assert_eq!(status(i32::MIN), 0);
}

#[test]
fn errors_are_reported_with_status_1() {
    assert_eq!(
        report(
            FormatOutput::Json,
            &Err(AppError::ConfigLoad(String::from("none")))
        ),
        Report {
            stdout: None,
            stderr: Some(String::from("Failed to load configuration: none")),
            status: 1
        }
    );
}

#[test]
fn only_validate_and_render_have_a_format() {
    let filepath = || String::from("f");
    let json = FormatOutput::Json;
    assert_eq!(
        CommandSpec::Validate {
            filepath: filepath(),
            output: json
        }
        .output_format(),
        json
    );
    assert_eq!(
        CommandSpec::Render {
            filepath: filepath(),
            output: json
        }
        .output_format(),
        json
    );
    assert_eq!(CommandSpec::Images.output_format(), FormatOutput::Text);
    assert_eq!(
        CommandSpec::Run {
            filepath: filepath(),
            container_cmd: vec![]
        }
        .output_format(),
        FormatOutput::Text
    );
}

#[test]
fn the_default_options_ask_for_nothing() {
    assert_eq!(
        ExecOptions::default(),
        ExecOptions {
            verbose: false,
            parallax_imagestore: None
        }
    );
}

#[test]
fn validation_and_rendering_always_have_an_outcome() {
    assert_eq!(
        validation_output("f", Ok(())),
        output("f is a valid EDF file", "", 0)
    );
    assert_eq!(
        validation_output("f", Err(String::from("why"))),
        output("f is an INVALID EDF file", "why", 1)
    );
    let edf = |json: Option<&str>| Edf {
        image: String::from("i"),
        json: json.map(String::from),
        document: (),
    };
    assert_eq!(render_output(Ok(edf(Some("{}")))), output("{}", "", 0));
    assert_eq!(render_output(Ok(edf(None))), output("ERROR", "", 0));
    assert_eq!(
        render_output::<()>(Err(String::from("why"))),
        output("", "why", 1)
    );
}

#[test]
fn the_graphroot_is_read_from_the_answer() {
    assert_eq!(
        graphroot_outcome(true, " /var/lib/containers\n".as_bytes(), b"noise"),
        Ok(String::from("/var/lib/containers"))
    );
    assert_eq!(
        graphroot_outcome(true, "\u{3000}/a b\u{85}".as_bytes(), b""),
        Ok(String::from("/a b"))
    );
    assert_eq!(
        graphroot_outcome(false, b"/graphroot", b" no podman \n"),
        Err(AppError::PodmanInfo(String::from("no podman")))
    );
}

#[test]
fn a_graphroot_must_be_text() {
    let bytes = [b'/', 0xff, b'a'];
    let message = std::str::from_utf8(&bytes).unwrap_err().to_string();
    assert_eq!(
        graphroot_outcome(true, &bytes, b""),
        Err(AppError::PodmanInfo(message))
    );
}

#[test]
fn failed_pulls_are_told_unless_podman_told_them() {
    assert_eq!(pull_outcome("i", true, true, b""), Ok(()));
    assert_eq!(
        pull_outcome("i", true, false, b"shown"),
        Err(AppError::Runtime(String::from("Failed to pull image i")))
    );
    assert_eq!(
        pull_outcome("i", false, false, b"  offline\n"),
        Err(AppError::Runtime(String::from(
            "Failed to pull image i: offline"
        )))
    );
    assert_eq!(
        pull_outcome("i", false, false, &[b'a', 0xff, b'b']),
        Err(AppError::Runtime(String::from(
            "Failed to pull image i: a\u{fffd}b"
        )))
    );
}

#[test]
fn failed_migrations_and_removals_are_told() {
    let why = || Err(String::from("why"));
    assert_eq!(migrate_outcome("i", false, Ok(())), Ok(()));
    assert_eq!(
        migrate_outcome("i", true, why()),
        Err(AppError::Runtime(String::from("Failed to migrate image i")))
    );
    assert_eq!(
        migrate_outcome("i", false, why()),
        Err(AppError::Runtime(String::from(
            "Failed to migrate image i: why"
        )))
    );
    assert_eq!(rmi_outcome("i", true, Ok(())), Ok(()));
    assert_eq!(
        rmi_outcome("i", true, why()),
        Err(AppError::Runtime(String::from(
            "Failed to remove image i from Parallax imagestore"
        )))
    );
    assert_eq!(
        rmi_outcome("i", false, why()),
        Err(AppError::Runtime(String::from(
            "Failed to remove image i from Parallax imagestore: why"
        )))
    );
}

#[test]
fn answers_and_codes_are_passed_on() {
    assert_eq!(runtime_outcome::<bool>(Ok(true)), Ok(true));
    assert_eq!(
        runtime_outcome::<bool>(Err(String::from("why"))),
        Err(AppError::Runtime(String::from("why")))
    );
    assert_eq!(exit_code_outcome(Some(-5)), Ok(-5));
    assert_eq!(
        exit_code_outcome(None),
        Err(AppError::Runtime(String::from(
            "Container process terminated by signal"
        )))
    );
    assert_eq!(podman_output_result("Podman kube play", true, b"x"), Ok(()));
    assert_eq!(
        podman_output_result("Podman kube play", false, b" bad\n"),
        Err(AppError::Runtime(String::from(
            "Podman kube play failed: bad"
        )))
    );
}

#[test]
fn hooks_show_their_complaints_first() {
    let hook = HookOutput {
        code: Some(0),
        stdout: b"one\n\ntwo\n".to_vec(),
        stderr: b"bad\n\n".to_vec(),
    };
    let (lines, result) = log_hook_ec(&hook, "the hook");
    assert_eq!(lines, vec!["bad", "", "one", "", "two"]);
    assert_eq!(result, Ok(()));
}

#[test]
fn silent_hooks_and_hooks_without_text_show_nothing() {
    let hook = HookOutput {
        code: Some(0),
        stdout: b"\n".to_vec(),
        stderr: vec![0xff],
    };
    assert_eq!(log_hook_ec(&hook, "the hook"), (vec![], Ok(())));
}

#[test]
fn failed_hooks_are_told() {
    let hook = |code: Option<i32>| HookOutput {
        code,
        stdout: vec![],
        stderr: vec![],
    };
    assert_eq!(
        log_hook_ec(&hook(Some(-12)), "the hook").1,
        Err(AppError::Io(String::from("the hook exit code: -12")))
    );
    assert_eq!(
        log_hook_ec(&hook(None), "the hook").1,
        Err(AppError::Io(String::from("the hook exited by signal")))
    );
}

#[test]
fn only_directories_hold_configurations() {
    assert_eq!(config_dir_exists("/c", DirStatus::Directory), Ok(true));
    assert_eq!(config_dir_exists("/c", DirStatus::Missing), Ok(false));
    assert_eq!(
        config_dir_exists("/c", DirStatus::NotADirectory),
        Err(AppError::ConfigLoad(String::from(
            "Failed to access configuration directory /c: path exists but is not a directory"
        )))
    );
    assert_eq!(
        config_dir_exists("/c", DirStatus::Inaccessible(String::from("denied"))),
        Err(AppError::ConfigLoad(String::from(
            "Failed to access configuration directory /c: denied"
        )))
    );
}

#[test]
fn users_keep_their_configuration_at_home() {
    let dir = |home: &str| user_config_dir(Some(String::from(home)));
    assert_eq!(
        dir("/home/u"),
        Some(String::from("/home/u/.config/sarus-suite"))
    );
    assert_eq!(dir("/"), Some(String::from("/.config/sarus-suite")));
    assert_eq!(dir(""), Some(String::from(".config/sarus-suite")));
    assert_eq!(user_config_dir(None), None);
}

#[test]
fn leftover_entries_are_described() {
    assert_eq!(describe_dir_entries(&vec![]), "directory is empty");
    assert_eq!(
        describe_dir_entries(&vec![String::from("a"), String::from("b")]),
        "remaining entries: a, b"
    );
}

#[test]
fn a_cleanup_that_times_out_is_told() {
    assert_eq!(
        cleanup_timeout_warning("/d", 5_012_999_999, "", &vec![]),
        "Warning: Podman rootdirs /d still exist after 5012 ms of cleanup retries; directory is empty"
    );
    assert_eq!(
        cleanup_timeout_warning("/d", 5_000_000_000, "busy", &vec![String::from("x")]),
        "Warning: Podman rootdirs /d still exist after 5000 ms of cleanup retries; last remove_dir_all error: busy; remaining entries: x"
    );
}

#[test]
fn a_run_keeps_its_code_and_gets_the_warning() {
    let before = output("pulled", "", 0);
    assert_eq!(
        run_outcome(before.clone(), Ok(9), None),
        Ok(output("pulled", "", 9))
    );
    assert_eq!(
        run_outcome(before.clone(), Ok(9), Some(String::from("w"))),
        Ok(output("pulled", "w", 9))
    );
    let err = AppError::ConfigLoad(String::from("e"));
    assert_eq!(
        run_outcome(before.clone(), Err(err.clone()), None),
        Err(err.clone())
    );
    assert_eq!(
        run_outcome(before, Err(err), Some(String::from("w"))),
        Err(AppError::Runtime(String::from(
            "Failed to load configuration: e\nw"
        )))
    );
}

#[test]
fn a_pod_that_stays_up_is_an_error_unless_there_was_one() {
    let before = output("", "", 0);
    let run_err = AppError::Io(String::from("run"));
    let down_err = AppError::Io(String::from("down"));
    assert_eq!(
        pod_outcome(before.clone(), Ok(4), Ok(()), None),
        Ok(output("", "", 4))
    );
    assert_eq!(
        pod_outcome(before.clone(), Ok(4), Err(down_err.clone()), None),
        Err(down_err.clone())
    );
    assert_eq!(
        pod_outcome(before, Err(run_err.clone()), Err(down_err), None),
        Err(run_err)
    );
}

#[test]
fn verbosity_chooses_the_level() {
    assert_eq!(log_level(0), LogLevel::Warn);
    assert_eq!(log_level(1), LogLevel::Info);
    assert_eq!(log_level(2), LogLevel::Debug);
    assert_eq!(log_level(3), LogLevel::Trace);
    assert_eq!(log_level(255), LogLevel::Trace);
}

#[test]
fn only_own_spans_are_profiled() {
    assert!(is_profiled(true, "sarusctl::run"));
    assert!(is_profiled(true, "raster"));
    assert!(!is_profiled(false, "sarusctl"));
    assert!(!is_profiled(true, "sarus"));
    assert!(!is_profiled(true, "my_raster"));
}

#[test]
fn the_user_is_the_one_of_the_process() {
    let user = RealUserContext.current_user().unwrap();
    assert_eq!(user.uid, users::get_current_uid());
    assert_eq!(user.gid, users::get_current_gid());
}

#[test]
fn numbers_are_written_in_decimal() {
    assert_eq!(decimal_text(0), "0");
    assert_eq!(decimal_text(1090), "1090");
    assert_eq!(decimal_text(u128::MAX), u128::MAX.to_string());
    assert_eq!(signed_text(-40), "-40");
    assert_eq!(signed_text(i32::MIN), "-2147483648");
}

#[test]
fn texts_are_joined_and_split() {
    let parts = vec![String::from("a"), String::from(""), String::from("b")];
    assert_eq!(join(&parts, ", "), "a, , b");
    assert_eq!(join(&vec![], ", "), "");
    assert_eq!(split_lines("a\n\nb"), parts);
    assert_eq!(split_lines(""), vec![""]);
}

#[test]
fn texts_are_ordered_by_their_characters() {
    assert!(text_precedes("a", "b"));
    assert!(text_precedes("", "a"));
    assert!(text_precedes("a", "ab"));
    assert!(!text_precedes("a", "a"));
    assert!(!text_precedes("b", "ab"));
    assert!(text_precedes("z", "é"));
}

#[test]
fn parents_of_paths() {
    let parent = |path: &str| parent_dir(path);
    let expected = |path: &str| {
        std::path::Path::new(path)
            .parent()
            .map(|parent| parent.to_string_lossy().into_owned())
    };
    for path in ["/a/b", "/a", "/", "", "a", "a/b", "/a/b/", "/a//b", "/a/./b", "/a/b/.", "//", "/.", "a/.."] {
        assert_eq!(parent(path), expected(path), "{path:?}");
    }
}

#[test]
fn the_outcome_can_be_read_back_from_its_json() {
    let outputs = [
        output("", "", 0),
        output("ok", "warn", 1),
        output("a\",\n  \"stderr\": \"b", "\\\\\"", i32::MIN),
        output("\u{0}\u{1f}\u{7f}\t\r\n\u{8}\u{c}", "é\u{10ffff}\u{2028}", i32::MAX),
        output("\\u0001", "\u{1}", -1),
    ];
    let mut texts = Vec::new();
    for outcome in &outputs {
        let formatted = format_output(FormatOutput::Json, outcome);
        let read: serde_json::Value = serde_json::from_str(&formatted.stdout).unwrap();
        assert_eq!(read.as_object().unwrap().len(), 3);
        assert_eq!(read["stdout"].as_str(), Some(outcome.stdout.as_str()));
        assert_eq!(read["stderr"].as_str(), Some(outcome.stderr.as_str()));
        assert_eq!(
            read["return_code"].as_i64(),
            Some(i64::from(outcome.return_code))
        );
        assert_eq!(formatted.stderr, "");
        assert!(!texts.contains(&formatted.stdout));
        texts.push(formatted.stdout);
    }
}

#[test]
fn white_space_is_taken_from_both_ends() {
    for text in [
        "",
        " ",
        "a",
        " a b ",
        "\n\t\u{b}\u{c}\r a\u{a0}",
        "\u{85}\u{1680}\u{2000}x\u{200a}\u{2028}\u{2029}",
        "\u{202f}\u{205f}\u{3000}",
        "\u{200b}a\u{200b}",
        "\u{8}a\u{e}",
        "\u{feff}a\u{180e}",
    ] {
        assert_eq!(trim(text), text.trim(), "{text:?}");
    }
}

#[test]
fn only_containers_that_are_there_are_cleaned_up() {
    assert_eq!(cleanup_decision(Ok(true)), Ok(ContainerCleanup::Clean));
    assert_eq!(cleanup_decision(Ok(false)), Ok(ContainerCleanup::Done));
    assert_eq!(
        cleanup_decision(Err(String::from("no answer"))),
        Err(AppError::Runtime(String::from("no answer")))
    );
}
