//! What the program needs from its surroundings. Nothing is promised of any answer: what the
//! library proves holds whatever comes back.

use vstd::prelude::*;
use vstd::string::*;

use crate::config::{Config, Edf};
use crate::context::{ContainerCtx, CurrentUser, PodmanCtx};
use crate::error::AppError;
use crate::podman::HookOutput;

verus! {

/// Tells on whose behalf the program runs.
pub trait UserContext {
    fn current_user(&self) -> Result<CurrentUser, AppError>;
}

/// Reads configurations and environment definition files.
pub trait RasterOps {
    /// A configuration as it was read.
    type ConfigDocument;

    /// An environment definition as it was rendered.
    type EdfDocument;

    fn load_config(&self) -> Result<Config<Self::ConfigDocument>, AppError>;

    fn load_config_path(&self, path: &str) -> Result<Config<Self::ConfigDocument>, AppError>;

    fn validate(&self, path: &str) -> Result<(), String>;

    fn render(&self, path: &str) -> Result<Edf<Self::EdfDocument>, String>;
}

/// Drives Podman and Parallax. `D` is an environment definition as it was rendered.
pub trait ContainerRuntime<D> {
    fn default_graphroot(&self, ctx: &PodmanCtx) -> Result<String, AppError>;

    fn images(&self, ctx: &PodmanCtx) -> Result<(), AppError>;

    fn pull(&self, image: &str, ctx: &PodmanCtx, verbose: bool) -> Result<(), AppError>;

    fn image_exists(&self, image: &str, ctx: &PodmanCtx) -> Result<bool, AppError>;

    fn parallax_exist(&self, parallax_path: &str, ctx: &PodmanCtx, image: &str) -> Result<
        bool,
        AppError,
    >;

    fn parallax_migrate(
        &self,
        parallax_path: &str,
        ctx: &PodmanCtx,
        image: &str,
        verbose: bool,
    ) -> Result<(), AppError>;

    fn parallax_rmi(
        &self,
        parallax_path: &str,
        ctx: &PodmanCtx,
        image: &str,
        verbose: bool,
    ) -> Result<(), AppError>;

    fn run_from_edf(
        &self,
        edf: &Edf<D>,
        run_ctx: &PodmanCtx,
        container_ctx: &ContainerCtx,
        container_cmd: &[String],
    ) -> Result<i32, AppError>;

    fn exec_interactive(
        &self,
        container_name: &str,
        podman_ctx: &PodmanCtx,
        container_cmd: &[String],
    ) -> Result<i32, AppError>;

    fn kube_play(&self, filepath: &str, run_ctx: &PodmanCtx) -> Result<(), AppError>;

    fn kube_down(&self, filepath: &str, force: bool, run_ctx: &PodmanCtx) -> Result<(), AppError>;

    fn cleanup_container(&self, container_name: &str, run_ctx: &PodmanCtx) -> Result<(), AppError>;
}

/// What stands under a path where a directory is looked for.
#[derive(Clone, Debug, PartialEq, Eq)]
pub enum DirStatus {
    Directory,
    NotADirectory,
    Missing,
    Inaccessible(String),
}

/// A [`DirStatus`] with its message as a sequence of characters.
pub enum DirStatusView {
    Directory,
    NotADirectory,
    Missing,
    Inaccessible(Seq<char>),
}

impl View for DirStatus {
    type V = DirStatusView;

    open spec fn view(&self) -> DirStatusView {
        match self {
            DirStatus::Directory => DirStatusView::Directory,
            DirStatus::NotADirectory => DirStatusView::NotADirectory,
            DirStatus::Missing => DirStatusView::Missing,
            DirStatus::Inaccessible(message) => DirStatusView::Inaccessible(message@),
        }
    }
}

/// What came of an attempt to remove a directory with all that it holds.
#[derive(Clone, Debug, PartialEq, Eq)]
pub enum Removal {
    Removed,
    NotFound,
    Failed(String),
}

/// A [`Removal`] with its message as a sequence of characters.
pub enum RemovalView {
    Removed,
    NotFound,
    Failed(Seq<char>),
}

impl View for Removal {
    type V = RemovalView;

    open spec fn view(&self) -> RemovalView {
        match self {
            Removal::Removed => RemovalView::Removed,
            Removal::NotFound => RemovalView::NotFound,
            Removal::Failed(message) => RemovalView::Failed(message@),
        }
    }
}

/// The host: its files, its terminals, its clock and its hooks. `K` is a configuration as it was
/// read.
pub trait HostOps<K> {
    /// Runs a hook of the host, where the configuration has one of that name.
    fn hook_run(&self, config: &Config<K>, hook: &str, arguments: &[String]) -> Result<
        Option<HookOutput>,
        String,
    >;

    /// Whether there is something under a path, or why that cannot be told.
    fn path_exists(&self, path: &str) -> Result<bool, String>;

    /// Creates a directory with all that lead to it.
    fn create_dir_all(&self, path: &str) -> Result<(), String>;

    /// Reads a whole file of text.
    fn read_to_string(&self, path: &str) -> Result<String, String>;

    /// Removes a directory with all that it holds.
    fn remove_dir_all(&self, path: &str) -> Removal;

    /// Whether there is something under a path, as far as can be told.
    fn is_present(&self, path: &str) -> bool;

    /// The names in a directory; none where it cannot be read.
    fn dir_entries(&self, path: &str) -> Vec<String>;

    /// What stands under a path where a directory is looked for.
    fn dir_status(&self, path: &str) -> DirStatus;

    /// The home directory of the user.
    fn home_dir(&self) -> Option<String>;

    /// Waits for at least so many milliseconds.
    fn pause(&self, millis: u64);

    /// The nanoseconds on a clock that never runs back. It stands still while a pause lasts that was
    /// asked for; what a pause takes beyond that counts.
    fn clock(&self) -> u64;

    /// Writes a line to the stream for complaints and progress.
    fn tell(&self, line: &str);

    /// Whether the input is a terminal.
    fn stdin_is_terminal(&self) -> bool;

    /// Whether the output is a terminal.
    fn stdout_is_terminal(&self) -> bool;
}

/// The surroundings that a command is executed in.
pub struct AppDeps<'a, R, C, U, H> {
    pub raster: &'a R,
    pub runtime: &'a C,
    pub user: &'a U,
    pub host: &'a H,
}

} // verus!
