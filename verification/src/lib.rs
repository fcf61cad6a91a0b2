//! Turning an environment definition file into a running container.
//!
//! A command is executed in surroundings that are handed to it: what reads environment definitions,
//! what drives Podman and Parallax, who the user is, and what the host is asked for. The commands
//! reach them through a [`session`] alone, each of whose methods makes one call and notes it as one
//! step of a trace. What a command calls by those methods, and what it results in, is stated as a
//! function of the answers in that trace (`command_replay` in [`execute`]), and what holds of every
//! execution is proved from that. The laws stand beside each other by what they are about: what every
//! call is told ([`calls`], [`workloads`]) and which calls are made at all ([`frames`]), what is left
//! and what comes of it ([`endings`], [`outcomes`], [`results`]), what is promised to a user as a whole
//! ([`laws`], [`predictable`]), and what holds of the parts ([`answers`], [`reading`], [`wording`]). That
//! traces and views show what there was is stated in [`surroundings`] and [`views`].

pub mod answers;
pub mod calls;
pub mod cleanup;
pub mod command;
pub mod config;
pub mod context;
pub mod deps;
pub mod endings;
pub mod error;
pub mod execute;
pub mod frames;
pub mod images;
pub mod imagestore;
pub mod json;
pub mod laws;
pub mod loading;
pub mod logging;
pub mod manifest;
pub mod outcomes;
pub mod output;
pub mod podman;
pub mod predictable;
pub mod reading;
pub mod results;
pub mod run;
pub mod session;
pub mod shapes;
pub mod steps;
pub mod surroundings;
pub mod text;
pub mod trace;
pub mod user;
pub mod views;
pub mod wording;
pub mod workloads;

pub use command::{CommandSpec, ExecOptions, FormatOutput};
pub use config::{Config, Edf};
pub use context::{
    build_parallax_seed_ctx, build_pull_ctx, build_readonly_ctx, build_run_ctx, ContainerCtx,
    CurrentUser, PodmanCtx, RunId,
};
pub use deps::{AppDeps, ContainerRuntime, DirStatus, HostOps, RasterOps, Removal, UserContext};
pub use error::AppError;
pub use execute::{execute_command, execute_command_with_options};
pub use loading::{
    load_config_from_candidates, load_config_with_fallback, load_config_with_options,
};
pub use manifest::{
    extract_images_from_yaml_value, extract_join_container_from_yaml_value,
    extract_pod_name_from_yaml_value, get_join_container_from_yaml_manifest,
    parse_yaml_value_from_str, YamlValue,
};
pub use output::{format_output, report, AppOutput, FormattedOutput, Report};
pub use podman::HookOutput;
pub use user::RealUserContext;
