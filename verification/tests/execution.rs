//! Commands, executed in surroundings that are played by fakes.

use std::cell::{Cell, RefCell};
use std::collections::{BTreeMap, BTreeSet, HashMap, VecDeque};

use sarusctl::{
    execute_command, execute_command_with_options, load_config_from_candidates,
    load_config_with_fallback, load_config_with_options, report, AppDeps, AppError, AppOutput,
    CommandSpec, Config, ContainerCtx, ContainerRuntime, CurrentUser, DirStatus, Edf, ExecOptions,
    FormatOutput, HookOutput, HostOps, PodmanCtx, RasterOps, Removal, Report, UserContext,
};

const STORE: &str = "/tmp/sarusctl-test-parallax-store";

fn sample_config() -> Config<()> {
    Config {
        parallax_imagestore: String::from(STORE),
        parallax_mount_program: String::from("/usr/local/bin/parallax_mount_program"),
        parallax_mp_uid: 1234,
        parallax_mp_gid: 4321,
        parallax_mp_squashfuse_path: String::new(),
        parallax_mp_logfile: String::from("/tmp/parallax-1234/mount_program.log"),
        parallax_path: String::from("/usr/local/bin/parallax"),
        podman_module: String::from("hpc"),
        podman_path: String::from("/usr/bin/podman"),
        document: (),
    }
}

fn sample_edf(image: &str) -> Edf<()> {
    Edf {
        image: image.to_string(),
        json: Some(format!("{{\n  \"image\": \"{image}\"\n}}")),
        document: (),
    }
}

struct FakeRasterOps {
    config: Result<Config<()>, AppError>,
    config_paths: RefCell<Vec<String>>,
    configs_loaded: Cell<usize>,
    validate_results: HashMap<String, Result<(), String>>,
    render_results: HashMap<String, Result<Edf<()>, String>>,
}

impl FakeRasterOps {
    fn new(config: Config<()>) -> Self {
        Self {
            config: Ok(config),
            config_paths: RefCell::new(Vec::new()),
            configs_loaded: Cell::new(0),
            validate_results: HashMap::new(),
            render_results: HashMap::new(),
        }
    }

    fn with_edf(filepath: &str, image: &str) -> Self {
        let mut raster = Self::new(sample_config());
        raster
            .render_results
            .insert(String::from(filepath), Ok(sample_edf(image)));
        raster
    }

    fn without_edf(filepath: &str) -> Self {
        let mut raster = Self::new(sample_config());
        raster
            .render_results
            .insert(String::from(filepath), Err(String::from("not an edf")));
        raster
    }

    fn config_paths(&self) -> Vec<String> {
        self.config_paths.borrow().clone()
    }
}

impl RasterOps for FakeRasterOps {
    type ConfigDocument = ();
    type EdfDocument = ();

    fn load_config(&self) -> Result<Config<()>, AppError> {
        self.configs_loaded.set(self.configs_loaded.get() + 1);
        self.config.clone()
    }

    fn load_config_path(&self, path: &str) -> Result<Config<()>, AppError> {
        self.config_paths.borrow_mut().push(path.to_string());
        self.config.clone()
    }

    fn validate(&self, path: &str) -> Result<(), String> {
        self.validate_results.get(path).cloned().unwrap_or(Ok(()))
    }

    fn render(&self, path: &str) -> Result<Edf<()>, String> {
        self.render_results
            .get(path)
            .cloned()
            .unwrap_or_else(|| Err(String::from("missing render result")))
    }
}

struct FakeUserContext {
    user: Result<CurrentUser, AppError>,
}

impl UserContext for FakeUserContext {
    fn current_user(&self) -> Result<CurrentUser, AppError> {
        self.user.clone()
    }
}

fn user_of(uid: u32) -> FakeUserContext {
    FakeUserContext {
        user: Ok(CurrentUser { uid, gid: 1 }),
    }
}

/// Directories and files that exist only here.
#[derive(Default)]
struct FakeDisk {
    directories: RefCell<BTreeSet<String>>,
    files: RefCell<BTreeMap<String, String>>,
}

impl FakeDisk {
    fn create(&self, path: &str) {
        let mut directories = self.directories.borrow_mut();
        let mut parent = Some(std::path::Path::new(path));
        while let Some(directory) = parent {
            directories.insert(directory.to_string_lossy().into_owned());
            parent = directory.parent();
        }
    }

    fn holds(&self, path: &str) -> bool {
        self.directories.borrow().contains(path) || self.files.borrow().contains_key(path)
    }

    fn remove(&self, path: &str) {
        let inside = format!("{path}/");
        self.directories
            .borrow_mut()
            .retain(|known| known != path && !known.starts_with(&inside));
    }
}

struct FakeHost<'a> {
    disk: &'a FakeDisk,
    home: Option<String>,
    told: RefCell<Vec<String>>,
    hook: Result<Option<HookOutput>, String>,
    hooks_run: RefCell<Vec<String>>,
    exists_error: Option<String>,
    create_error: Option<String>,
    removal_errors: RefCell<VecDeque<String>>,
    comebacks: Cell<u32>,
    removals: RefCell<Vec<String>>,
    nanos: Cell<u64>,
    removal_nanos: u64,
    terminals: (bool, bool),
}

impl<'a> FakeHost<'a> {
    fn new(disk: &'a FakeDisk) -> Self {
        Self {
            disk,
            home: None,
            told: RefCell::new(Vec::new()),
            hook: Ok(None),
            hooks_run: RefCell::new(Vec::new()),
            exists_error: None,
            create_error: None,
            removal_errors: RefCell::new(VecDeque::new()),
            comebacks: Cell::new(0),
            removals: RefCell::new(Vec::new()),
            nanos: Cell::new(1_000),
            removal_nanos: 0,
            terminals: (false, false),
        }
    }

    fn told(&self) -> Vec<String> {
        self.told.borrow().clone()
    }

    fn removals(&self) -> Vec<String> {
        self.removals.borrow().clone()
    }
}

impl HostOps<()> for FakeHost<'_> {
    fn hook_run(
        &self,
        config: &Config<()>,
        hook: &str,
        arguments: &[String],
    ) -> Result<Option<HookOutput>, String> {
        self.hooks_run.borrow_mut().push(format!(
            "{hook}:{arguments:?}:{}",
            config.parallax_imagestore
        ));
        self.hook.clone()
    }

    fn path_exists(&self, path: &str) -> Result<bool, String> {
        match &self.exists_error {
            Some(message) => Err(message.clone()),
            None => Ok(self.disk.holds(path)),
        }
    }

    fn create_dir_all(&self, path: &str) -> Result<(), String> {
        match &self.create_error {
            Some(message) => Err(message.clone()),
            None => {
                self.disk.create(path);
                Ok(())
            }
        }
    }

    fn read_to_string(&self, path: &str) -> Result<String, String> {
        self.disk
            .files
            .borrow()
            .get(path)
            .cloned()
            .ok_or_else(|| String::from("no such file"))
    }

    fn remove_dir_all(&self, path: &str) -> Removal {
        self.removals.borrow_mut().push(path.to_string());
        self.nanos.set(self.nanos.get() + self.removal_nanos);
        if let Some(message) = self.removal_errors.borrow_mut().pop_front() {
            return Removal::Failed(message);
        }
        if !self.disk.holds(path) {
            return Removal::NotFound;
        }
        self.disk.remove(path);
        if self.comebacks.get() > 0 {
            self.comebacks.set(self.comebacks.get() - 1);
            self.disk.create(&format!("{path}/runroot"));
        }
        Removal::Removed
    }

    fn is_present(&self, path: &str) -> bool {
        self.disk.holds(path)
    }

    fn dir_entries(&self, path: &str) -> Vec<String> {
        let inside = format!("{path}/");
        self.disk
            .directories
            .borrow()
            .iter()
            .filter_map(|known| known.strip_prefix(&inside))
            .filter(|name| !name.contains('/'))
            .map(String::from)
            .collect()
    }

    fn dir_status(&self, path: &str) -> DirStatus {
        if self.disk.directories.borrow().contains(path) {
            DirStatus::Directory
        } else if self.disk.files.borrow().contains_key(path) {
            DirStatus::NotADirectory
        } else {
            DirStatus::Missing
        }
    }

    fn home_dir(&self) -> Option<String> {
        self.home.clone()
    }

    fn pause(&self, millis: u64) {
        assert_eq!(millis, 100);
    }

    fn clock(&self) -> u64 {
        self.nanos.get()
    }

    fn tell(&self, line: &str) {
        self.told.borrow_mut().push(line.to_string());
    }

    fn stdin_is_terminal(&self) -> bool {
        self.terminals.0
    }

    fn stdout_is_terminal(&self) -> bool {
        self.terminals.1
    }
}

struct FakeContainerRuntime<'a> {
    disk: &'a FakeDisk,
    calls: RefCell<Vec<String>>,
    contexts: RefCell<Vec<PodmanCtx>>,
    containers: RefCell<Vec<ContainerCtx>>,
    create_run_rootdirs: bool,
    created_run_rootdirs: RefCell<Vec<String>>,
    pull_verbose: RefCell<Vec<bool>>,
    migrate_verbose: RefCell<Vec<bool>>,
    rmi_verbose: RefCell<Vec<bool>>,
    graphroot: Result<String, AppError>,
    images_result: Result<(), AppError>,
    image_exists: RefCell<HashMap<String, VecDeque<bool>>>,
    parallax_exist: RefCell<HashMap<String, VecDeque<bool>>>,
    pull_results: RefCell<HashMap<String, Result<(), AppError>>>,
    migrate_results: RefCell<HashMap<String, Result<(), AppError>>>,
    rmi_results: RefCell<HashMap<String, Result<(), AppError>>>,
    run_result: Result<i32, AppError>,
    kube_play_result: Result<(), AppError>,
    kube_down_result: Result<(), AppError>,
    cleanup_container_result: Result<(), AppError>,
}

impl<'a> FakeContainerRuntime<'a> {
    fn new(disk: &'a FakeDisk) -> Self {
        Self {
            disk,
            calls: RefCell::new(Vec::new()),
            contexts: RefCell::new(Vec::new()),
            containers: RefCell::new(Vec::new()),
            create_run_rootdirs: false,
            created_run_rootdirs: RefCell::new(Vec::new()),
            pull_verbose: RefCell::new(Vec::new()),
            migrate_verbose: RefCell::new(Vec::new()),
            rmi_verbose: RefCell::new(Vec::new()),
            graphroot: Ok(String::from("/graphroot")),
            images_result: Ok(()),
            image_exists: RefCell::new(HashMap::new()),
            parallax_exist: RefCell::new(HashMap::new()),
            pull_results: RefCell::new(HashMap::new()),
            migrate_results: RefCell::new(HashMap::new()),
            rmi_results: RefCell::new(HashMap::new()),
            run_result: Ok(0),
            kube_play_result: Ok(()),
            kube_down_result: Ok(()),
            cleanup_container_result: Ok(()),
        }
    }

    fn with_run_rootdir_creation(mut self) -> Self {
        self.create_run_rootdirs = true;
        self
    }

    fn create_and_record_run_rootdirs(&self, run_ctx: &PodmanCtx) {
        if !self.create_run_rootdirs {
            return;
        }

        let graphroot = run_ctx.graphroot.as_ref().expect("missing graphroot");
        let runroot = run_ctx.runroot.as_ref().expect("missing runroot");
        let roots_base = graphroot.strip_suffix("/graphroot").expect("no parent");
        assert_eq!(runroot.strip_suffix("/runroot"), Some(roots_base));

        self.disk.create(graphroot);
        self.disk.create(runroot);
        self.created_run_rootdirs
            .borrow_mut()
            .push(roots_base.to_string());
    }

    fn created_run_rootdirs(&self) -> Vec<String> {
        self.created_run_rootdirs.borrow().clone()
    }

    fn push_image_exists(&self, image: &str, values: Vec<bool>) {
        self.image_exists
            .borrow_mut()
            .insert(image.to_string(), VecDeque::from(values));
    }

    fn push_parallax_exist(&self, image: &str, values: Vec<bool>) {
        self.parallax_exist
            .borrow_mut()
            .insert(image.to_string(), VecDeque::from(values));
    }

    fn calls(&self) -> Vec<String> {
        self.calls.borrow().clone()
    }

    fn pull_verbose(&self) -> Vec<bool> {
        self.pull_verbose.borrow().clone()
    }

    fn migrate_verbose(&self) -> Vec<bool> {
        self.migrate_verbose.borrow().clone()
    }

    fn rmi_verbose(&self) -> Vec<bool> {
        self.rmi_verbose.borrow().clone()
    }

    fn note(&self, ctx: &PodmanCtx, call: String) {
        self.contexts.borrow_mut().push(ctx.clone());
        self.calls.borrow_mut().push(call);
    }
}

impl ContainerRuntime<()> for FakeContainerRuntime<'_> {
    fn default_graphroot(&self, ctx: &PodmanCtx) -> Result<String, AppError> {
        self.note(ctx, String::from("default_graphroot"));
        self.graphroot.clone()
    }

    fn images(&self, ctx: &PodmanCtx) -> Result<(), AppError> {
        self.note(ctx, String::from("images"));
        self.images_result.clone()
    }

    fn pull(&self, image: &str, ctx: &PodmanCtx, verbose: bool) -> Result<(), AppError> {
        self.note(ctx, format!("pull:{image}"));
        self.pull_verbose.borrow_mut().push(verbose);
        self.pull_results
            .borrow_mut()
            .remove(image)
            .unwrap_or(Ok(()))
    }

    fn image_exists(&self, image: &str, ctx: &PodmanCtx) -> Result<bool, AppError> {
        self.note(ctx, format!("image_exists:{image}"));
        let mut states = self.image_exists.borrow_mut();
        let queue = states.entry(image.to_string()).or_default();
        Ok(queue.pop_front().unwrap_or(false))
    }

    fn parallax_exist(
        &self,
        parallax_path: &str,
        ctx: &PodmanCtx,
        image: &str,
    ) -> Result<bool, AppError> {
        assert_eq!(parallax_path, "/usr/local/bin/parallax");
        self.note(ctx, format!("parallax_exist:{image}"));
        let mut states = self.parallax_exist.borrow_mut();
        let queue = states.entry(image.to_string()).or_default();
        Ok(queue.pop_front().unwrap_or(false))
    }

    fn parallax_migrate(
        &self,
        parallax_path: &str,
        ctx: &PodmanCtx,
        image: &str,
        verbose: bool,
    ) -> Result<(), AppError> {
        assert_eq!(parallax_path, "/usr/local/bin/parallax");
        self.note(ctx, format!("migrate:{image}"));
        self.migrate_verbose.borrow_mut().push(verbose);
        self.migrate_results
            .borrow_mut()
            .remove(image)
            .unwrap_or(Ok(()))
    }

    fn parallax_rmi(
        &self,
        parallax_path: &str,
        ctx: &PodmanCtx,
        image: &str,
        verbose: bool,
    ) -> Result<(), AppError> {
        assert_eq!(parallax_path, "/usr/local/bin/parallax");
        self.note(ctx, format!("rmi:{image}"));
        self.rmi_verbose.borrow_mut().push(verbose);
        self.rmi_results
            .borrow_mut()
            .remove(image)
            .unwrap_or(Ok(()))
    }

    fn run_from_edf(
        &self,
        edf: &Edf<()>,
        run_ctx: &PodmanCtx,
        container_ctx: &ContainerCtx,
        container_cmd: &[String],
    ) -> Result<i32, AppError> {
        self.create_and_record_run_rootdirs(run_ctx);
        self.containers.borrow_mut().push(container_ctx.clone());
        self.note(run_ctx, format!("run:{}:{container_cmd:?}", edf.image));
        self.run_result.clone()
    }

    fn exec_interactive(
        &self,
        container_name: &str,
        podman_ctx: &PodmanCtx,
        container_cmd: &[String],
    ) -> Result<i32, AppError> {
        self.note(
            podman_ctx,
            format!("exec_interactive:{container_name}:{container_cmd:?}"),
        );
        self.run_result.clone()
    }

    fn kube_play(&self, filepath: &str, run_ctx: &PodmanCtx) -> Result<(), AppError> {
        self.create_and_record_run_rootdirs(run_ctx);
        self.note(run_ctx, format!("kube_play:{filepath}"));
        self.kube_play_result.clone()
    }

    fn kube_down(&self, filepath: &str, force: bool, run_ctx: &PodmanCtx) -> Result<(), AppError> {
        self.note(run_ctx, format!("kube_down:{filepath}?force={force}"));
        self.kube_down_result.clone()
    }

    fn cleanup_container(&self, container_name: &str, run_ctx: &PodmanCtx) -> Result<(), AppError> {
        assert_eq!(self.containers.borrow()[0].name, container_name);
        self.note(run_ctx, String::from("cleanup_container"));
        self.cleanup_container_result.clone()
    }
}

type Deps<'a, 'b> =
    AppDeps<'a, FakeRasterOps, FakeContainerRuntime<'b>, FakeUserContext, FakeHost<'b>>;

fn mock_deps<'a, 'b>(
    raster: &'a FakeRasterOps,
    runtime: &'a FakeContainerRuntime<'b>,
    user: &'a FakeUserContext,
    host: &'a FakeHost<'b>,
) -> Deps<'a, 'b> {
    AppDeps {
        raster,
        runtime,
        user,
        host,
    }
}

fn run_of(filepath: &str, container_cmd: &[&str]) -> CommandSpec {
    CommandSpec::Run {
        filepath: String::from(filepath),
        container_cmd: container_cmd.iter().map(|word| word.to_string()).collect(),
    }
}

fn verbose_options() -> ExecOptions {
    ExecOptions {
        verbose: true,
        ..ExecOptions::default()
    }
}

#[test]
fn load_config_from_candidates_uses_first_existing_directory() {
    let disk = FakeDisk::default();
    disk.create("/temp/system");
    disk.create("/temp/user");
    let candidates = vec![String::from("/temp/system"), String::from("/temp/user")];

    let raster = FakeRasterOps::new(sample_config());
    let host = FakeHost::new(&disk);
    let config = load_config_from_candidates(&raster, &host, &candidates).unwrap();

    assert_eq!(config.parallax_path, sample_config().parallax_path);
    assert_eq!(raster.config_paths(), vec![String::from("/temp/system")]);
}

#[test]
fn load_config_from_candidates_falls_back_when_system_directory_is_missing() {
    let disk = FakeDisk::default();
    disk.create("/temp/user");
    let candidates = vec![String::from("/temp/system"), String::from("/temp/user")];

    let raster = FakeRasterOps::new(sample_config());
    let host = FakeHost::new(&disk);
    let config = load_config_from_candidates(&raster, &host, &candidates).unwrap();

    assert_eq!(config.parallax_path, sample_config().parallax_path);
    assert_eq!(raster.config_paths(), vec![String::from("/temp/user")]);
}

#[test]
fn load_config_from_candidates_does_not_fallback_after_existing_directory_errors() {
    let disk = FakeDisk::default();
    disk.create("/temp/system");
    disk.create("/temp/user");
    let candidates = vec![String::from("/temp/system"), String::from("/temp/user")];

    let mut raster = FakeRasterOps::new(sample_config());
    raster.config = Err(AppError::ConfigLoad(String::from("invalid config")));
    let host = FakeHost::new(&disk);

    let err = match load_config_from_candidates(&raster, &host, &candidates) {
        Ok(_) => panic!("expected config load to fail"),
        Err(err) => err,
    };

    assert_eq!(err, AppError::ConfigLoad(String::from("invalid config")));
    assert_eq!(raster.config_paths(), vec![String::from("/temp/system")]);
}

#[test]
fn load_config_from_candidates_reports_both_missing_locations() {
    let disk = FakeDisk::default();
    let candidates = vec![String::from("/temp/system"), String::from("/temp/user")];
    let raster = FakeRasterOps::new(sample_config());
    let host = FakeHost::new(&disk);

    let err = match load_config_from_candidates(&raster, &host, &candidates) {
        Ok(_) => panic!("expected config load to fail"),
        Err(err) => err,
    };

    assert_eq!(
        err,
        AppError::ConfigLoad(format!(
            "Cannot find config files in {} or {}",
            candidates[0], candidates[1]
        ))
    );
    assert!(raster.config_paths().is_empty());
}

#[test]
fn load_config_from_candidates_stops_at_what_is_no_directory() {
    let disk = FakeDisk::default();
    disk.files
        .borrow_mut()
        .insert(String::from("/temp/system"), String::new());
    disk.create("/temp/user");
    let candidates = vec![String::from("/temp/system"), String::from("/temp/user")];
    let raster = FakeRasterOps::new(sample_config());

    assert_eq!(
        load_config_from_candidates(&raster, &FakeHost::new(&disk), &candidates).unwrap_err(),
        AppError::ConfigLoad(String::from(
            "Failed to access configuration directory /temp/system: path exists but is not a directory"
        ))
    );
    assert!(raster.config_paths().is_empty());
}

#[test]
fn without_candidates_no_configuration_is_found() {
    let disk = FakeDisk::default();
    let raster = FakeRasterOps::new(sample_config());
    assert_eq!(
        load_config_from_candidates(&raster, &FakeHost::new(&disk), &vec![]).unwrap_err(),
        AppError::ConfigLoad(String::from("Cannot find config files in "))
    );
}

#[test]
fn the_configuration_of_the_system_comes_first() {
    let disk = FakeDisk::default();
    let raster = FakeRasterOps::new(sample_config());
    let mut host = FakeHost::new(&disk);

    assert_eq!(
        load_config_with_fallback(&raster, &host).unwrap_err(),
        AppError::ConfigLoad(String::from("Cannot find config files in /etc/sarus-suite"))
    );
    host.home = Some(String::from("/home/u"));
    assert_eq!(
        load_config_with_fallback(&raster, &host).unwrap_err(),
        AppError::ConfigLoad(String::from(
            "Cannot find config files in /etc/sarus-suite or /home/u/.config/sarus-suite"
        ))
    );
    disk.create("/home/u/.config/sarus-suite");
    assert!(load_config_with_fallback(&raster, &host).is_ok());
    disk.create("/etc/sarus-suite");
    assert!(load_config_with_fallback(&raster, &host).is_ok());
    assert_eq!(
        raster.config_paths(),
        vec!["/home/u/.config/sarus-suite", "/etc/sarus-suite"]
    );
}

#[test]
fn load_config_with_options_overrides_parallax_imagestore() {
    let raster = FakeRasterOps::new(sample_config());
    let override_path = String::from("/overridden/parallax/imagestore");
    let options = ExecOptions {
        parallax_imagestore: Some(override_path.clone()),
        ..ExecOptions::default()
    };

    let config = load_config_with_options(&raster, &options).unwrap();

    assert_eq!(config.parallax_imagestore, override_path);
}

#[test]
fn validate_success_returns_zero() {
    let disk = FakeDisk::default();
    let raster = FakeRasterOps::new(sample_config());
    let runtime = FakeContainerRuntime::new(&disk);
    let user = user_of(1);
    let host = FakeHost::new(&disk);

    let output = execute_command(
        CommandSpec::Validate {
            filepath: String::from("valid.edf"),
            output: FormatOutput::Text,
        },
        &mock_deps(&raster, &runtime, &user, &host),
    )
    .unwrap();

    assert_eq!(output.return_code, 0);
    assert_eq!(output.stdout, "valid.edf is a valid EDF file");
}

#[test]
fn validate_failure_returns_invalid_message() {
    let disk = FakeDisk::default();
    let mut raster = FakeRasterOps::new(sample_config());
    raster.validate_results.insert(
        String::from("invalid.edf"),
        Err(String::from("missing image specification")),
    );
    let runtime = FakeContainerRuntime::new(&disk);
    let user = user_of(1);
    let host = FakeHost::new(&disk);

    let output = execute_command(
        CommandSpec::Validate {
            filepath: String::from("invalid.edf"),
            output: FormatOutput::Text,
        },
        &mock_deps(&raster, &runtime, &user, &host),
    )
    .unwrap();

    assert_eq!(output.return_code, 1);
    assert_eq!(output.stdout, "invalid.edf is an INVALID EDF file");
    assert_eq!(output.stderr, "missing image specification");
    assert_eq!(raster.configs_loaded.get(), 0);
    assert!(runtime.calls().is_empty());
}

#[test]
fn render_success_returns_json() {
    let disk = FakeDisk::default();
    let raster = FakeRasterOps::with_edf("valid.edf", "alpine:3.22");
    let runtime = FakeContainerRuntime::new(&disk);
    let user = user_of(1);
    let host = FakeHost::new(&disk);

    let output = execute_command(
        CommandSpec::Render {
            filepath: String::from("valid.edf"),
            output: FormatOutput::Text,
        },
        &mock_deps(&raster, &runtime, &user, &host),
    )
    .unwrap();

    assert_eq!(output.return_code, 0);
    assert!(output.stdout.contains("\"image\": \"alpine:3.22\""));
    assert_eq!(raster.configs_loaded.get(), 0);
}

#[test]
fn images_creates_missing_imagestore_and_calls_runtime() {
    let disk = FakeDisk::default();
    let mut config = sample_config();
    config.parallax_imagestore = String::from("/temp/imagestore");

    let raster = FakeRasterOps::new(config);
    let runtime = FakeContainerRuntime::new(&disk);
    let user = user_of(1);
    let host = FakeHost::new(&disk);

    let output = execute_command(
        CommandSpec::Images,
        &mock_deps(&raster, &runtime, &user, &host),
    )
    .unwrap();

    assert_eq!(output.return_code, 0);
    assert!(disk.holds("/temp/imagestore"));
    assert_eq!(
        runtime.calls(),
        vec![String::from("default_graphroot"), String::from("images")]
    );
    assert_eq!(
        runtime.contexts.borrow()[1].graphroot,
        Some(String::from("/graphroot"))
    );
}

#[test]
fn pull_success_runs_migrate_after_pull() {
    let disk = FakeDisk::default();
    let raster = FakeRasterOps::new(sample_config());
    let runtime = FakeContainerRuntime::new(&disk);
    runtime.push_image_exists("alpine:3.22", vec![true]);
    runtime.push_parallax_exist("alpine:3.22", vec![true]);
    let user = user_of(1);
    let host = FakeHost::new(&disk);

    let output = execute_command(
        CommandSpec::Pull {
            image: String::from("alpine:3.22"),
        },
        &mock_deps(&raster, &runtime, &user, &host),
    )
    .unwrap();

    assert_eq!(output, AppOutput::success(""));
    assert_eq!(runtime.pull_verbose(), vec![false]);
    assert_eq!(runtime.migrate_verbose(), vec![false]);
    assert_eq!(
        runtime.calls(),
        vec![
            String::from("pull:alpine:3.22"),
            String::from("image_exists:alpine:3.22"),
            String::from("default_graphroot"),
            String::from("migrate:alpine:3.22"),
            String::from("parallax_exist:alpine:3.22")
        ]
    );
    assert_eq!(
        host.told(),
        vec![
            "Pulling alpine:3.22 with Podman...",
            "Migrating alpine:3.22 with Parallax..."
        ]
    );
}

#[test]
fn migrate_success_runs_migration_steps() {
    let disk = FakeDisk::default();
    let raster = FakeRasterOps::new(sample_config());
    let runtime = FakeContainerRuntime::new(&disk);
    runtime.push_parallax_exist("alpine:3.22", vec![true]);
    let user = user_of(1);
    let host = FakeHost::new(&disk);

    let output = execute_command(
        CommandSpec::Migrate {
            image: String::from("alpine:3.22"),
        },
        &mock_deps(&raster, &runtime, &user, &host),
    )
    .unwrap();

    assert_eq!(output, AppOutput::success(""));
    assert_eq!(runtime.migrate_verbose(), vec![false]);
    assert_eq!(
        runtime.calls(),
        vec![
            String::from("default_graphroot"),
            String::from("migrate:alpine:3.22"),
            String::from("parallax_exist:alpine:3.22")
        ]
    );
}

#[test]
fn migrate_failure_is_returned_as_runtime_error() {
    let disk = FakeDisk::default();
    let raster = FakeRasterOps::new(sample_config());
    let runtime = FakeContainerRuntime::new(&disk);
    runtime.migrate_results.borrow_mut().insert(
        String::from("alpine:3.22"),
        Err(AppError::Runtime(String::from("boom"))),
    );
    let user = user_of(1);
    let host = FakeHost::new(&disk);

    let err = execute_command(
        CommandSpec::Migrate {
            image: String::from("alpine:3.22"),
        },
        &mock_deps(&raster, &runtime, &user, &host),
    )
    .unwrap_err();

    assert_eq!(err, AppError::Runtime(String::from("boom")));
}

#[test]
fn rmi_success_runs_removal_steps() {
    let disk = FakeDisk::default();
    let raster = FakeRasterOps::new(sample_config());
    let runtime = FakeContainerRuntime::new(&disk);
    let user = user_of(1);
    let host = FakeHost::new(&disk);

    let output = execute_command(
        CommandSpec::Rmi {
            image: String::from("alpine:3.22"),
        },
        &mock_deps(&raster, &runtime, &user, &host),
    )
    .unwrap();

    assert_eq!(output, AppOutput::success(""));
    assert_eq!(runtime.rmi_verbose(), vec![false]);
    assert_eq!(
        runtime.calls(),
        vec![
            String::from("default_graphroot"),
            String::from("rmi:alpine:3.22")
        ]
    );
}

#[test]
fn rmi_failure_is_returned_as_runtime_error() {
    let disk = FakeDisk::default();
    let raster = FakeRasterOps::new(sample_config());
    let runtime = FakeContainerRuntime::new(&disk);
    runtime.rmi_results.borrow_mut().insert(
        String::from("alpine:3.22"),
        Err(AppError::Runtime(String::from("boom"))),
    );
    let user = user_of(1);
    let host = FakeHost::new(&disk);

    let err = execute_command(
        CommandSpec::Rmi {
            image: String::from("alpine:3.22"),
        },
        &mock_deps(&raster, &runtime, &user, &host),
    )
    .unwrap_err();

    assert_eq!(err, AppError::Runtime(String::from("boom")));
}

#[test]
fn run_edf_skips_pull_when_image_exists() {
    let disk = FakeDisk::default();
    let raster = FakeRasterOps::with_edf("job.edf", "alpine:3.22");
    let runtime = FakeContainerRuntime::new(&disk);
    runtime.push_parallax_exist("alpine:3.22", vec![true]);
    let user = user_of(1);
    let host = FakeHost::new(&disk);

    let output = execute_command(
        run_of("job.edf", &["sh"]),
        &mock_deps(&raster, &runtime, &user, &host),
    )
    .unwrap();

    assert_eq!(output.return_code, 0);
    assert_eq!(
        runtime.calls(),
        vec![
            String::from("parallax_exist:alpine:3.22"),
            String::from("run:alpine:3.22:[\"sh\"]"),
            String::from("cleanup_container")
        ]
    );
}

#[test]
fn run_edf_pulls_missing_image_before_run() {
    let disk = FakeDisk::default();
    let raster = FakeRasterOps::with_edf("job.edf", "alpine:3.22");
    let runtime = FakeContainerRuntime::new(&disk);
    runtime.push_parallax_exist("alpine:3.22", vec![false, true]);
    runtime.push_image_exists("alpine:3.22", vec![true]);
    let user = user_of(1);
    let host = FakeHost::new(&disk);

    let output = execute_command(
        run_of("job.edf", &["sh"]),
        &mock_deps(&raster, &runtime, &user, &host),
    )
    .unwrap();

    assert_eq!(output, AppOutput::success(""));
    assert_eq!(runtime.pull_verbose(), vec![false]);
    assert_eq!(runtime.migrate_verbose(), vec![false]);
    assert_eq!(
        runtime.calls(),
        vec![
            String::from("parallax_exist:alpine:3.22"),
            String::from("pull:alpine:3.22"),
            String::from("image_exists:alpine:3.22"),
            String::from("default_graphroot"),
            String::from("migrate:alpine:3.22"),
            String::from("parallax_exist:alpine:3.22"),
            String::from("run:alpine:3.22:[\"sh\"]"),
            String::from("cleanup_container")
        ]
    );
}

#[test]
fn run_edf_removes_rootdirs_after_run() {
    let disk = FakeDisk::default();
    let raster = FakeRasterOps::with_edf("job.edf", "alpine:3.22");
    let runtime = FakeContainerRuntime::new(&disk).with_run_rootdir_creation();
    runtime.push_parallax_exist("alpine:3.22", vec![true]);
    let user = user_of(77);
    let host = FakeHost::new(&disk);

    let output = execute_command(
        run_of("job.edf", &["sh"]),
        &mock_deps(&raster, &runtime, &user, &host),
    )
    .unwrap();

    assert_eq!(output.return_code, 0);
    let rootdirs = runtime.created_run_rootdirs();
    assert_eq!(rootdirs.len(), 1);
    assert!(!disk.holds(&rootdirs[0]));
    assert!(disk.holds("/dev/shm"));
}

#[test]
fn run_edf_preserves_exit_code_after_container_cleanup() {
    let disk = FakeDisk::default();
    let raster = FakeRasterOps::with_edf("job.edf", "alpine:3.22");
    let mut runtime = FakeContainerRuntime::new(&disk);
    runtime.push_parallax_exist("alpine:3.22", vec![true]);
    runtime.run_result = Ok(127);
    let user = user_of(77);
    let host = FakeHost::new(&disk);

    let output = execute_command(
        run_of("job.edf", &["missing-command"]),
        &mock_deps(&raster, &runtime, &user, &host),
    )
    .unwrap();

    assert_eq!(output.return_code, 127);
    assert_eq!(output.stderr, "");
    assert_eq!(
        runtime.calls().last().map(String::as_str),
        Some("cleanup_container")
    );
}

#[test]
fn run_edf_retains_rootdirs_when_container_cleanup_fails() {
    let disk = FakeDisk::default();
    let raster = FakeRasterOps::with_edf("job.edf", "alpine:3.22");
    let mut runtime = FakeContainerRuntime::new(&disk).with_run_rootdir_creation();
    runtime.push_parallax_exist("alpine:3.22", vec![true]);
    runtime.cleanup_container_result = Err(AppError::Runtime(String::from("cleanup still active")));
    let user = user_of(77);
    let host = FakeHost::new(&disk);

    let output = execute_command(
        run_of("job.edf", &["true"]),
        &mock_deps(&raster, &runtime, &user, &host),
    )
    .unwrap();

    assert_eq!(output.return_code, 0);
    assert!(output.stderr.contains("cleanup still active"));
    assert!(output.stderr.contains("rootdirs retained"));
    assert_eq!(
        output.stderr,
        "Warning: Podman rootdirs retained because workload cleanup failed: cleanup still active"
    );

    let rootdirs = runtime.created_run_rootdirs();
    assert_eq!(rootdirs.len(), 1);
    assert!(disk.holds(&rootdirs[0]));
    assert!(host.removals().is_empty());
}

#[test]
fn run_edf_fails_before_run_when_pull_fails() {
    let disk = FakeDisk::default();
    let raster = FakeRasterOps::with_edf("job.edf", "alpine:3.22");
    let runtime = FakeContainerRuntime::new(&disk);
    runtime.push_parallax_exist("alpine:3.22", vec![false]);
    runtime.pull_results.borrow_mut().insert(
        String::from("alpine:3.22"),
        Err(AppError::Runtime(String::from("registry offline"))),
    );
    let user = user_of(1);
    let host = FakeHost::new(&disk);

    let err = execute_command(
        run_of("job.edf", &["sh"]),
        &mock_deps(&raster, &runtime, &user, &host),
    )
    .unwrap_err();

    assert_eq!(err, AppError::Runtime(String::from("registry offline")));
    assert_eq!(
        runtime.calls(),
        vec![
            String::from("parallax_exist:alpine:3.22"),
            String::from("pull:alpine:3.22")
        ]
    );
}

const MANIFEST: &str = "/temp/pod.yaml";

const ONE_CONTAINER: &str = r#"
apiVersion: v1
kind: Pod
metadata:
  name: training-pod
spec:
  containers:
    - name: app
      image: alpine:3.22
"#;

fn with_manifest(contents: &str) -> FakeDisk {
    let disk = FakeDisk::default();
    disk.files
        .borrow_mut()
        .insert(String::from(MANIFEST), String::from(contents));
    disk
}

#[test]
fn run_yaml_pulls_only_missing_images_then_kube_play() {
    let disk = with_manifest(
        r#"
apiVersion: v1
kind: Pod
metadata:
  name: training-pod
spec:
  containers:
    - name: app
      image: alpine:3.22
    - name: sidecar
      image: ubuntu:24.04
      labels:
        run.sarus.join: "true"
"#,
    );
    let raster = FakeRasterOps::without_edf(MANIFEST);
    let runtime = FakeContainerRuntime::new(&disk);
    runtime.push_parallax_exist("alpine:3.22", vec![false, true]);
    runtime.push_image_exists("alpine:3.22", vec![true]);
    runtime.push_parallax_exist("ubuntu:24.04", vec![true]);
    let user = user_of(1);
    let host = FakeHost::new(&disk);

    let output = execute_command(
        run_of(MANIFEST, &[]),
        &mock_deps(&raster, &runtime, &user, &host),
    )
    .unwrap();

    assert_eq!(output.return_code, 0);
    assert_eq!(runtime.pull_verbose(), vec![false]);
    assert_eq!(runtime.migrate_verbose(), vec![false]);
    assert_eq!(
        runtime.calls(),
        vec![
            String::from("parallax_exist:alpine:3.22"),
            String::from("pull:alpine:3.22"),
            String::from("image_exists:alpine:3.22"),
            String::from("default_graphroot"),
            String::from("migrate:alpine:3.22"),
            String::from("parallax_exist:alpine:3.22"),
            String::from("parallax_exist:ubuntu:24.04"),
            format!("kube_play:{MANIFEST}"),
            String::from("exec_interactive:training-pod-sidecar:[]"),
            format!("kube_down:{MANIFEST}?force=true"),
        ]
    );
    let play = runtime.contexts.borrow()[7].clone();
    assert_eq!(play.module, None);
    assert!(play.graphroot.unwrap().starts_with("/dev/shm/sarusctl-1-"));
}

#[test]
fn run_yaml_fails_before_kube_play_when_migration_fails() {
    let disk = with_manifest(ONE_CONTAINER);
    let raster = FakeRasterOps::without_edf(MANIFEST);
    let runtime = FakeContainerRuntime::new(&disk);
    runtime.push_parallax_exist("alpine:3.22", vec![false]);
    runtime.push_image_exists("alpine:3.22", vec![true]);
    runtime.migrate_results.borrow_mut().insert(
        String::from("alpine:3.22"),
        Err(AppError::Runtime(String::from("parallax broke"))),
    );
    let user = user_of(1);
    let host = FakeHost::new(&disk);

    let err = execute_command(
        run_of(MANIFEST, &[]),
        &mock_deps(&raster, &runtime, &user, &host),
    )
    .unwrap_err();

    assert_eq!(err, AppError::Runtime(String::from("parallax broke")));
    assert_eq!(
        runtime.calls(),
        vec![
            String::from("parallax_exist:alpine:3.22"),
            String::from("pull:alpine:3.22"),
            String::from("image_exists:alpine:3.22"),
            String::from("default_graphroot"),
            String::from("migrate:alpine:3.22"),
        ]
    );
}

#[test]
fn run_yaml_removes_rootdirs_after_kube_play() {
    let disk = with_manifest(ONE_CONTAINER);
    let raster = FakeRasterOps::without_edf(MANIFEST);
    let runtime = FakeContainerRuntime::new(&disk).with_run_rootdir_creation();
    runtime.push_parallax_exist("alpine:3.22", vec![true]);
    let user = user_of(77);
    let host = FakeHost::new(&disk);

    let output = execute_command(
        run_of(MANIFEST, &[]),
        &mock_deps(&raster, &runtime, &user, &host),
    )
    .unwrap();

    assert_eq!(output.return_code, 0);
    let rootdirs = runtime.created_run_rootdirs();
    assert_eq!(rootdirs.len(), 1);
    assert!(!disk.holds(&rootdirs[0]));
}

#[test]
fn run_yaml_retains_rootdirs_when_kube_down_fails() {
    let disk = with_manifest(ONE_CONTAINER);
    let raster = FakeRasterOps::without_edf(MANIFEST);
    let mut runtime = FakeContainerRuntime::new(&disk).with_run_rootdir_creation();
    runtime.push_parallax_exist("alpine:3.22", vec![true]);
    runtime.kube_down_result = Err(AppError::Runtime(String::from("pod still active")));
    let user = user_of(77);
    let host = FakeHost::new(&disk);

    let err = execute_command(
        run_of(MANIFEST, &[]),
        &mock_deps(&raster, &runtime, &user, &host),
    )
    .unwrap_err();

    assert!(err.message().contains("pod still active"));
    assert!(err.message().contains("rootdirs retained"));

    let rootdirs = runtime.created_run_rootdirs();
    assert_eq!(rootdirs.len(), 1);
    assert!(disk.holds(&rootdirs[0]));
}

#[test]
fn run_yaml_skips_exec_after_kube_play_failure_but_still_tears_down() {
    let disk = with_manifest(ONE_CONTAINER);
    let raster = FakeRasterOps::without_edf(MANIFEST);
    let mut runtime = FakeContainerRuntime::new(&disk).with_run_rootdir_creation();
    runtime.push_parallax_exist("alpine:3.22", vec![true]);
    runtime.kube_play_result = Err(AppError::Runtime(String::from("play failed")));
    let user = user_of(77);
    let host = FakeHost::new(&disk);

    let err = execute_command(
        run_of(MANIFEST, &[]),
        &mock_deps(&raster, &runtime, &user, &host),
    )
    .unwrap_err();

    assert_eq!(err, AppError::Runtime(String::from("play failed")));
    assert!(!runtime
        .calls()
        .iter()
        .any(|call| call.starts_with("exec_interactive:")));
    assert!(runtime
        .calls()
        .iter()
        .any(|call| call.starts_with("kube_down:")));
    let rootdirs = runtime.created_run_rootdirs();
    assert_eq!(rootdirs.len(), 1);
    assert!(!disk.holds(&rootdirs[0]));
}

#[test]
fn run_yaml_fails_before_kube_play_when_join_container_selection_is_ambiguous() {
    let disk = with_manifest(
        r#"
apiVersion: v1
kind: Pod
metadata:
  name: training-pod
spec:
  containers:
    - name: app
      image: alpine:3.22
    - name: sidecar
      image: ubuntu:24.04
"#,
    );
    let raster = FakeRasterOps::without_edf(MANIFEST);
    let runtime = FakeContainerRuntime::new(&disk);
    runtime.push_parallax_exist("alpine:3.22", vec![true]);
    runtime.push_parallax_exist("ubuntu:24.04", vec![true]);
    let user = user_of(1);
    let host = FakeHost::new(&disk);

    let err = execute_command(
        run_of(MANIFEST, &[]),
        &mock_deps(&raster, &runtime, &user, &host),
    )
    .unwrap_err();

    assert_eq!(
        err,
        AppError::Yaml(String::from(
            "YAML manifest must label exactly one container with run.sarus.join=\"true\" when spec.containers has multiple containers",
        ))
    );
    assert_eq!(
        runtime.calls(),
        vec![
            String::from("parallax_exist:alpine:3.22"),
            String::from("parallax_exist:ubuntu:24.04"),
        ]
    );
}

#[test]
fn pull_propagates_verbose_option() {
    let disk = FakeDisk::default();
    let raster = FakeRasterOps::new(sample_config());
    let runtime = FakeContainerRuntime::new(&disk);
    runtime.push_image_exists("alpine:3.22", vec![true]);
    runtime.push_parallax_exist("alpine:3.22", vec![true]);
    let user = user_of(1);
    let host = FakeHost::new(&disk);

    let output = execute_command_with_options(
        CommandSpec::Pull {
            image: String::from("alpine:3.22"),
        },
        &mock_deps(&raster, &runtime, &user, &host),
        verbose_options(),
    )
    .unwrap();

    assert_eq!(output, AppOutput::success(""));
    assert_eq!(runtime.pull_verbose(), vec![true]);
    assert_eq!(runtime.migrate_verbose(), vec![true]);
}

#[test]
fn rmi_propagates_verbose_option() {
    let disk = FakeDisk::default();
    let raster = FakeRasterOps::new(sample_config());
    let runtime = FakeContainerRuntime::new(&disk);
    let user = user_of(1);
    let host = FakeHost::new(&disk);

    let output = execute_command_with_options(
        CommandSpec::Rmi {
            image: String::from("alpine:3.22"),
        },
        &mock_deps(&raster, &runtime, &user, &host),
        verbose_options(),
    )
    .unwrap();

    assert_eq!(output, AppOutput::success(""));
    assert_eq!(runtime.rmi_verbose(), vec![true]);
}

#[test]
fn run_propagates_verbose_option_to_internal_pull_and_migrate() {
    let disk = FakeDisk::default();
    let raster = FakeRasterOps::with_edf("job.edf", "alpine:3.22");
    let runtime = FakeContainerRuntime::new(&disk);
    runtime.push_parallax_exist("alpine:3.22", vec![false, true]);
    runtime.push_image_exists("alpine:3.22", vec![true]);
    let user = user_of(1);
    let host = FakeHost::new(&disk);

    let output = execute_command_with_options(
        run_of("job.edf", &["sh"]),
        &mock_deps(&raster, &runtime, &user, &host),
        verbose_options(),
    )
    .unwrap();

    assert_eq!(output, AppOutput::success(""));
    assert_eq!(runtime.pull_verbose(), vec![true]);
    assert_eq!(runtime.migrate_verbose(), vec![true]);
}

#[test]
fn run_invalid_input_returns_unsupported_input_error() {
    let disk = FakeDisk::default();
    let input = "/temp/bad.txt";
    disk.files
        .borrow_mut()
        .insert(String::from(input), String::from("foo: [bar"));
    let raster = FakeRasterOps::without_edf(input);
    let runtime = FakeContainerRuntime::new(&disk);
    let user = user_of(1);
    let host = FakeHost::new(&disk);

    let err = execute_command(
        run_of(input, &[]),
        &mock_deps(&raster, &runtime, &user, &host),
    )
    .unwrap_err();

    assert_eq!(
        err,
        AppError::UnsupportedInput(format!("{input} is not valid EDF nor YAML"))
    );
    assert_eq!(raster.configs_loaded.get(), 0);
}

#[test]
fn a_file_that_cannot_be_read_is_an_error_of_its_own() {
    let disk = FakeDisk::default();
    let raster = FakeRasterOps::new(sample_config());
    let runtime = FakeContainerRuntime::new(&disk);
    let user = user_of(1);
    let host = FakeHost::new(&disk);

    assert_eq!(
        execute_command(
            run_of("/nowhere", &[]),
            &mock_deps(&raster, &runtime, &user, &host)
        ),
        Err(AppError::Io(String::from(
            "failed to read /nowhere: no such file"
        )))
    );
    assert_eq!(raster.configs_loaded.get(), 0);
}

#[test]
fn rendering_an_invalid_file_fails_with_the_reason() {
    let disk = FakeDisk::default();
    let raster = FakeRasterOps::new(sample_config());
    let runtime = FakeContainerRuntime::new(&disk);
    let user = user_of(1);
    let host = FakeHost::new(&disk);

    assert_eq!(
        execute_command(
            CommandSpec::Render {
                filepath: String::from("invalid.edf"),
                output: FormatOutput::Json
            },
            &mock_deps(&raster, &runtime, &user, &host)
        ),
        Ok(AppOutput::failure("", "missing render result"))
    );
}

#[test]
fn images_that_do_not_arrive_are_errors() {
    let disk = FakeDisk::default();
    let raster = FakeRasterOps::new(sample_config());
    let runtime = FakeContainerRuntime::new(&disk);
    let user = user_of(1);
    let host = FakeHost::new(&disk);
    let deps = mock_deps(&raster, &runtime, &user, &host);
    let image = || String::from("alpine:3.22");

    assert_eq!(
        execute_command(CommandSpec::Pull { image: image() }, &deps),
        Err(AppError::Runtime(String::from(
            "Image alpine:3.22 is still missing after pull"
        )))
    );
    runtime.push_image_exists("alpine:3.22", vec![true]);
    assert_eq!(
        execute_command(CommandSpec::Pull { image: image() }, &deps),
        Err(AppError::Runtime(String::from(
            "Image alpine:3.22 is still missing after migration"
        )))
    );
}

#[test]
fn a_graphroot_that_is_not_known_ends_the_command() {
    let disk = FakeDisk::default();
    let raster = FakeRasterOps::new(sample_config());
    let mut runtime = FakeContainerRuntime::new(&disk);
    runtime.graphroot = Err(AppError::PodmanInfo(String::from("no info")));
    let user = user_of(1);
    let host = FakeHost::new(&disk);
    let deps = mock_deps(&raster, &runtime, &user, &host);

    for command in [
        CommandSpec::Images,
        CommandSpec::Rmi {
            image: String::from("i"),
        },
        CommandSpec::Migrate {
            image: String::from("i"),
        },
    ] {
        assert_eq!(
            execute_command(command, &deps),
            Err(AppError::PodmanInfo(String::from("no info")))
        );
    }
}

#[test]
fn images_that_cannot_be_listed_are_an_error() {
    let disk = FakeDisk::default();
    let raster = FakeRasterOps::new(sample_config());
    let mut runtime = FakeContainerRuntime::new(&disk);
    runtime.images_result = Err(AppError::Runtime(String::from("no list")));
    let user = user_of(1);
    let host = FakeHost::new(&disk);

    assert_eq!(
        execute_command(
            CommandSpec::Images,
            &mock_deps(&raster, &runtime, &user, &host)
        ),
        Err(AppError::Runtime(String::from("no list")))
    );
}

#[test]
fn a_configuration_that_does_not_load_ends_the_command() {
    let disk = with_manifest(ONE_CONTAINER);
    let mut raster = FakeRasterOps::with_edf("job.edf", "alpine:3.22");
    raster.config = Err(AppError::ConfigLoad(String::from("none")));
    let runtime = FakeContainerRuntime::new(&disk);
    let user = user_of(1);
    let host = FakeHost::new(&disk);
    let deps = mock_deps(&raster, &runtime, &user, &host);
    let image = || String::from("i");

    for command in [
        CommandSpec::Images,
        CommandSpec::Pull { image: image() },
        CommandSpec::Migrate { image: image() },
        CommandSpec::Rmi { image: image() },
        run_of("job.edf", &[]),
        run_of(MANIFEST, &[]),
    ] {
        assert_eq!(
            execute_command(command, &deps),
            Err(AppError::ConfigLoad(String::from("none")))
        );
    }
    assert!(runtime.calls().is_empty());
    assert!(host.hooks_run.borrow().is_empty());
}

#[test]
fn a_user_that_is_not_known_ends_the_run() {
    let disk = with_manifest(ONE_CONTAINER);
    let raster = FakeRasterOps::with_edf("job.edf", "alpine:3.22");
    let runtime = FakeContainerRuntime::new(&disk);
    let user = FakeUserContext {
        user: Err(AppError::UserLookup(String::from("nobody"))),
    };
    let host = FakeHost::new(&disk);
    let deps = mock_deps(&raster, &runtime, &user, &host);

    for filepath in ["job.edf", MANIFEST] {
        assert_eq!(
            execute_command(run_of(filepath, &[]), &deps),
            Err(AppError::UserLookup(String::from("nobody")))
        );
    }
    assert!(runtime.calls().is_empty());
}

#[test]
fn the_imagestore_option_reaches_every_call() {
    let disk = FakeDisk::default();
    let raster = FakeRasterOps::with_edf("job.edf", "alpine:3.22");
    let runtime = FakeContainerRuntime::new(&disk);
    runtime.push_parallax_exist("alpine:3.22", vec![false, true]);
    runtime.push_image_exists("alpine:3.22", vec![true]);
    let user = user_of(1);
    let host = FakeHost::new(&disk);

    execute_command_with_options(
        run_of("job.edf", &[]),
        &mock_deps(&raster, &runtime, &user, &host),
        ExecOptions {
            parallax_imagestore: Some(String::from("/other/store")),
            ..ExecOptions::default()
        },
    )
    .unwrap();

    assert!(disk.holds("/other/store"));
    assert!(!disk.holds(STORE));
    assert_eq!(
        host.hooks_run.borrow().as_slice(),
        ["parallax_imagestore_create:[\"/other/store\"]:/other/store"]
    );
    let stores: Vec<Option<String>> = runtime
        .contexts
        .borrow()
        .iter()
        .map(|ctx| ctx.ro_store.clone())
        .collect();
    let other = Some(String::from("/other/store"));
    assert_eq!(
        stores,
        vec![
            other.clone(),
            None,
            None,
            other.clone(),
            other.clone(),
            other.clone(),
            other.clone(),
            other
        ]
    );
}

#[test]
fn what_the_hook_writes_is_shown_before_its_failure() {
    let disk = FakeDisk::default();
    let raster = FakeRasterOps::new(sample_config());
    let runtime = FakeContainerRuntime::new(&disk);
    let user = user_of(1);
    let mut host = FakeHost::new(&disk);
    host.hook = Ok(Some(HookOutput {
        code: Some(3),
        stdout: b"made\n".to_vec(),
        stderr: b"careful\nplease\n".to_vec(),
    }));

    let err = execute_command(
        CommandSpec::Pull {
            image: String::from("i"),
        },
        &mock_deps(&raster, &runtime, &user, &host),
    )
    .unwrap_err();

    assert_eq!(
        err,
        AppError::Io(String::from("parallax_imagestore_create hook exit code: 3"))
    );
    assert_eq!(host.told(), vec!["careful", "please", "made"]);
    assert!(runtime.calls().is_empty());
    assert!(!disk.holds(STORE));
}

#[test]
fn a_hook_that_succeeds_leaves_the_rest_to_do() {
    let disk = FakeDisk::default();
    let raster = FakeRasterOps::new(sample_config());
    let runtime = FakeContainerRuntime::new(&disk);
    let user = user_of(1);
    let mut host = FakeHost::new(&disk);
    host.hook = Ok(Some(HookOutput {
        code: Some(0),
        stdout: b"done".to_vec(),
        stderr: vec![],
    }));

    execute_command(
        CommandSpec::Images,
        &mock_deps(&raster, &runtime, &user, &host),
    )
    .unwrap();

    assert_eq!(host.told(), vec!["done"]);
    assert!(disk.holds(STORE));
}

#[test]
fn an_imagestore_that_cannot_be_prepared_ends_the_command() {
    let disk = FakeDisk::default();
    let raster = FakeRasterOps::new(sample_config());
    let runtime = FakeContainerRuntime::new(&disk);
    let user = user_of(1);
    let pull = || CommandSpec::Pull {
        image: String::from("i"),
    };

    let mut host = FakeHost::new(&disk);
    host.hook = Err(String::from("no such hook"));
    assert_eq!(
        execute_command(pull(), &mock_deps(&raster, &runtime, &user, &host)),
        Err(AppError::Io(String::from(
            "Failed to run parallax_imagestore_create hook: no such hook"
        )))
    );
    let mut host = FakeHost::new(&disk);
    host.exists_error = Some(String::from("denied"));
    assert_eq!(
        execute_command(pull(), &mock_deps(&raster, &runtime, &user, &host)),
        Err(AppError::Io(String::from(
            "Failed to check for existence of Parallax imagestore directory: denied"
        )))
    );
    let mut host = FakeHost::new(&disk);
    host.create_error = Some(String::from("read-only"));
    assert_eq!(
        execute_command(pull(), &mock_deps(&raster, &runtime, &user, &host)),
        Err(AppError::Io(String::from(
            "Failed to create Parallax imagestore directory: read-only"
        )))
    );
    assert!(runtime.calls().is_empty());
}

#[test]
fn containers_are_named_after_their_run() {
    let disk = FakeDisk::default();
    let raster = FakeRasterOps::with_edf("job.edf", "alpine:3.22");
    let runtime = FakeContainerRuntime::new(&disk);
    runtime.push_parallax_exist("alpine:3.22", vec![true]);
    let user = user_of(4711);
    let mut host = FakeHost::new(&disk);
    host.terminals = (true, true);

    execute_command(
        run_of("job.edf", &[]),
        &mock_deps(&raster, &runtime, &user, &host),
    )
    .unwrap();

    let container = runtime.containers.borrow()[0].clone();
    let tag = container.name.strip_prefix("sarusctl-").unwrap();
    assert_eq!(tag.len(), 12);
    assert!(tag
        .chars()
        .all(|c| c.is_ascii_digit() || ('a'..='f').contains(&c)));
    assert_eq!(
        container,
        ContainerCtx {
            name: format!("sarusctl-{tag}"),
            interactive: true,
            tty: true,
            detach: false,
            auto_remove: false,
            set_env: true,
            pidfile: None,
            user: Some(String::from("4711")),
        }
    );
    assert_eq!(
        runtime.contexts.borrow()[1].graphroot,
        Some(format!("/dev/shm/sarusctl-4711-{tag}/graphroot"))
    );
    assert_eq!(
        runtime.contexts.borrow()[1].module,
        Some(String::from("hpc"))
    );
    assert_eq!(host.removals(), vec![format!("/dev/shm/sarusctl-4711-{tag}")]);
}

#[test]
fn a_terminal_takes_both_ends() {
    for (terminals, expected) in [
        ((false, false), (false, false)),
        ((false, true), (false, false)),
        ((true, false), (true, false)),
        ((true, true), (true, true)),
    ] {
        let disk = FakeDisk::default();
        let raster = FakeRasterOps::with_edf("job.edf", "alpine:3.22");
        let runtime = FakeContainerRuntime::new(&disk);
        runtime.push_parallax_exist("alpine:3.22", vec![true]);
        let user = user_of(1);
        let mut host = FakeHost::new(&disk);
        host.terminals = terminals;
        execute_command(
            run_of("job.edf", &[]),
            &mock_deps(&raster, &runtime, &user, &host),
        )
        .unwrap();
        let container = runtime.containers.borrow()[0].clone();
        assert_eq!((container.interactive, container.tty), expected);
    }
}

#[test]
fn two_runs_have_two_tags() {
    let disk = FakeDisk::default();
    let raster = FakeRasterOps::with_edf("job.edf", "alpine:3.22");
    let names: BTreeSet<String> = (0..8)
        .map(|_| {
            let runtime = FakeContainerRuntime::new(&disk);
            runtime.push_parallax_exist("alpine:3.22", vec![true]);
            let user = user_of(1);
            let host = FakeHost::new(&disk);
            execute_command(
                run_of("job.edf", &[]),
                &mock_deps(&raster, &runtime, &user, &host),
            )
            .unwrap();
            let name = runtime.containers.borrow()[0].name.clone();
            name
        })
        .collect();
    assert_eq!(names.len(), 8);
}

#[test]
fn directories_that_come_back_are_removed_again() {
    let disk = FakeDisk::default();
    let raster = FakeRasterOps::with_edf("job.edf", "alpine:3.22");
    let runtime = FakeContainerRuntime::new(&disk).with_run_rootdir_creation();
    runtime.push_parallax_exist("alpine:3.22", vec![true]);
    let user = user_of(1);
    let host = FakeHost::new(&disk);
    host.comebacks.set(3);
    host.removal_errors.borrow_mut().push_back(String::from("busy"));

    let output = execute_command(
        run_of("job.edf", &[]),
        &mock_deps(&raster, &runtime, &user, &host),
    )
    .unwrap();

    assert_eq!(output, AppOutput::success(""));
    let rootdirs = runtime.created_run_rootdirs();
    assert!(!disk.holds(&rootdirs[0]));
    assert_eq!(host.removals(), vec![rootdirs[0].clone(); 5]);
}

#[test]
fn directories_that_stay_are_warned_of_when_the_time_is_over() {
    let disk = FakeDisk::default();
    let raster = FakeRasterOps::with_edf("job.edf", "alpine:3.22");
    let mut runtime = FakeContainerRuntime::new(&disk).with_run_rootdir_creation();
    runtime.push_parallax_exist("alpine:3.22", vec![true]);
    runtime.run_result = Ok(5);
    let user = user_of(1);
    let host = FakeHost::new(&disk);
    host.comebacks.set(1_000);

    let output = execute_command(
        run_of("job.edf", &[]),
        &mock_deps(&raster, &runtime, &user, &host),
    )
    .unwrap();

    let rootdirs = runtime.created_run_rootdirs();
    assert_eq!(output.return_code, 5);
    assert_eq!(
        output.stderr,
        format!(
            "Warning: Podman rootdirs {} still exist after 5000 ms of cleanup retries; remaining entries: runroot",
            rootdirs[0]
        )
    );
    assert_eq!(host.removals().len(), 50);
}

#[test]
fn slow_removals_count_for_the_time_of_the_cleanup() {
    let disk = FakeDisk::default();
    let raster = FakeRasterOps::with_edf("job.edf", "alpine:3.22");
    let runtime = FakeContainerRuntime::new(&disk).with_run_rootdir_creation();
    runtime.push_parallax_exist("alpine:3.22", vec![true]);
    let user = user_of(1);
    let mut host = FakeHost::new(&disk);
    host.comebacks.set(1_000);
    host.removal_nanos = 30_999_999;

    let output = execute_command(
        run_of("job.edf", &[]),
        &mock_deps(&raster, &runtime, &user, &host),
    )
    .unwrap();

    assert_eq!(host.removals().len(), 39);
    assert_eq!(
        output.stderr,
        format!(
            "Warning: Podman rootdirs {} still exist after 5108 ms of cleanup retries; remaining entries: runroot",
            runtime.created_run_rootdirs()[0]
        )
    );
}

#[test]
fn the_last_error_of_the_removal_is_told() {
    let disk = FakeDisk::default();
    let raster = FakeRasterOps::with_edf("job.edf", "alpine:3.22");
    let mut runtime = FakeContainerRuntime::new(&disk).with_run_rootdir_creation();
    runtime.push_parallax_exist("alpine:3.22", vec![true]);
    runtime.run_result = Err(AppError::Runtime(String::from("run failed")));
    let user = user_of(1);
    let host = FakeHost::new(&disk);
    for k in 0..60 {
        host.removal_errors
            .borrow_mut()
            .push_back(format!("busy {k}"));
    }

    let err = execute_command(
        run_of("job.edf", &[]),
        &mock_deps(&raster, &runtime, &user, &host),
    )
    .unwrap_err();

    let rootdirs = runtime.created_run_rootdirs();
    assert_eq!(
        err,
        AppError::Runtime(format!(
            "run failed\nWarning: Podman rootdirs {} still exist after 5000 ms of cleanup retries; last remove_dir_all error: busy 49; remaining entries: graphroot, runroot",
            rootdirs[0]
        ))
    );
}

#[test]
fn a_command_that_fails_in_a_pod_takes_the_pod_down() {
    let disk = with_manifest(ONE_CONTAINER);
    let raster = FakeRasterOps::without_edf(MANIFEST);
    let mut runtime = FakeContainerRuntime::new(&disk);
    runtime.push_parallax_exist("alpine:3.22", vec![true]);
    runtime.run_result = Err(AppError::Runtime(String::from("exec failed")));
    runtime.kube_down_result = Err(AppError::Runtime(String::from("down failed")));
    let user = user_of(1);
    let host = FakeHost::new(&disk);

    let err = execute_command(
        run_of(MANIFEST, &["sh", "-c"]),
        &mock_deps(&raster, &runtime, &user, &host),
    )
    .unwrap_err();

    assert_eq!(
        err,
        AppError::Runtime(String::from(
            "exec failed\nWarning: Podman rootdirs retained because workload cleanup failed: down failed"
        ))
    );
    assert_eq!(
        runtime.calls(),
        vec![
            String::from("parallax_exist:alpine:3.22"),
            format!("kube_play:{MANIFEST}"),
            String::from("exec_interactive:training-pod-app:[\"sh\", \"-c\"]"),
            format!("kube_down:{MANIFEST}?force=true"),
        ]
    );
}

#[test]
fn a_pod_keeps_the_code_of_its_command() {
    let disk = with_manifest(ONE_CONTAINER);
    let raster = FakeRasterOps::without_edf(MANIFEST);
    let mut runtime = FakeContainerRuntime::new(&disk);
    runtime.push_parallax_exist("alpine:3.22", vec![true]);
    runtime.run_result = Ok(42);
    let user = user_of(1);
    let host = FakeHost::new(&disk);

    let output = execute_command(
        run_of(MANIFEST, &[]),
        &mock_deps(&raster, &runtime, &user, &host),
    )
    .unwrap();

    assert_eq!(output.return_code, 42);
}

#[test]
fn the_same_answers_lead_to_the_same_calls() {
    let run = || {
        let disk = with_manifest(ONE_CONTAINER);
        let raster = FakeRasterOps::without_edf(MANIFEST);
        let runtime = FakeContainerRuntime::new(&disk);
        runtime.push_parallax_exist("alpine:3.22", vec![false, true]);
        runtime.push_image_exists("alpine:3.22", vec![true]);
        let user = user_of(1);
        let host = FakeHost::new(&disk);
        let result = execute_command(
            run_of(MANIFEST, &["ls"]),
            &mock_deps(&raster, &runtime, &user, &host),
        );
        (result, runtime.calls(), host.told())
    };
    assert_eq!(run(), run());
}

#[test]
fn commands_that_run_nothing_remove_no_directory() {
    let image = || String::from("alpine:3.22");
    for command in [
        CommandSpec::Images,
        CommandSpec::Pull { image: image() },
        CommandSpec::Migrate { image: image() },
        CommandSpec::Rmi { image: image() },
    ] {
        let disk = FakeDisk::default();
        let raster = FakeRasterOps::new(sample_config());
        let runtime = FakeContainerRuntime::new(&disk);
        runtime.push_image_exists("alpine:3.22", vec![true]);
        runtime.push_parallax_exist("alpine:3.22", vec![true]);
        let user = user_of(1);
        let host = FakeHost::new(&disk);
        assert!(execute_command(command, &mock_deps(&raster, &runtime, &user, &host)).is_ok());
        assert!(host.removals().is_empty());
    }
}

/// Executes a command on fixtures and reports its end, as the program does.
fn reported(command: CommandSpec, options: ExecOptions) -> Report {
    let disk = FakeDisk::default();
    disk.files
        .borrow_mut()
        .insert(fixture("not-edf-not-yaml.txt"), String::from("foo: [bar"));
    let mut raster = FakeRasterOps::with_edf(&fixture("valid.toml"), "alpine:3.22");
    raster.validate_results.insert(
        fixture("invalid.toml"),
        Err(String::from("not valid under any of the schemas")),
    );
    raster.render_results.insert(
        fixture("invalid.toml"),
        Err(String::from("not valid under any of the schemas")),
    );
    let runtime = FakeContainerRuntime::new(&disk);
    let user = user_of(1);
    let host = FakeHost::new(&disk);
    let format = command.output_format();
    let result = execute_command_with_options(
        command,
        &mock_deps(&raster, &runtime, &user, &host),
        options,
    );
    report(format, &result)
}

fn fixture(name: &str) -> String {
    format!("/fixtures/{name}")
}

fn validate_of(name: &str, output: FormatOutput) -> CommandSpec {
    CommandSpec::Validate {
        filepath: fixture(name),
        output,
    }
}

fn render_of(name: &str) -> CommandSpec {
    CommandSpec::Render {
        filepath: fixture(name),
        output: FormatOutput::Text,
    }
}

#[test]
fn validate_accepts_top_level_verbose_flag() {
    let end = reported(
        validate_of("valid.toml", FormatOutput::Text),
        verbose_options(),
    );
    assert_eq!(end.status, 0);
    assert!(end.stdout.unwrap().contains("is a valid EDF file"));
}

#[test]
fn validate_valid_edf_text_output() {
    let end = reported(
        validate_of("valid.toml", FormatOutput::Text),
        ExecOptions::default(),
    );
    assert_eq!(end.status, 0);
    assert!(end.stdout.unwrap().contains("is a valid EDF file"));
}

#[test]
fn validate_invalid_edf_text_output() {
    let end = reported(
        validate_of("invalid.toml", FormatOutput::Text),
        ExecOptions::default(),
    );
    assert_eq!(end.status, 1);
    assert!(end.stdout.unwrap().contains("is an INVALID EDF file"));
    assert!(end
        .stderr
        .unwrap()
        .contains("not valid under any of the schemas"));
}

#[test]
fn validate_valid_edf_json_output() {
    let end = reported(
        validate_of("valid.toml", FormatOutput::Json),
        ExecOptions::default(),
    );
    let stdout = end.stdout.unwrap();
    assert_eq!(end.status, 0);
    assert!(stdout.contains("\"return_code\": 0"));
    assert!(stdout.contains("\"stderr\": \"\""));
}

#[test]
fn validate_invalid_edf_json_output() {
    let end = reported(
        validate_of("invalid.toml", FormatOutput::Json),
        ExecOptions::default(),
    );
    let stdout = end.stdout.unwrap();
    assert_eq!(end.status, 1);
    assert!(stdout.contains("\"return_code\": 1"));
    assert!(stdout.contains("not valid under any of the schemas"));
}

#[test]
fn render_valid_edf_output() {
    let end = reported(render_of("valid.toml"), ExecOptions::default());
    assert_eq!(end.status, 0);
    assert!(end.stdout.unwrap().contains("\"image\": \"alpine:3.22\""));
}

#[test]
fn render_invalid_edf_output() {
    let end = reported(render_of("invalid.toml"), ExecOptions::default());
    assert_eq!(end.status, 1);
    assert!(end
        .stderr
        .unwrap()
        .contains("not valid under any of the schemas"));
}

#[test]
fn run_invalid_input_returns_readable_error() {
    let end = reported(
        run_of(&fixture("not-edf-not-yaml.txt"), &[]),
        ExecOptions::default(),
    );
    assert_eq!(end.status, 1);
    assert!(end.stderr.unwrap().contains("is not valid EDF nor YAML"));
}
