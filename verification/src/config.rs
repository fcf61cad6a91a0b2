//! The configuration of the host, and the definition of the environment to run.

use vstd::prelude::*;

use crate::command::{ExecOptions, OptionsView};

verus! {

/// The settings of the host. `document` is the configuration as it was read, which the hooks of
/// the host are run with.
#[derive(Clone, Debug, PartialEq, Eq)]
pub struct Config<K> {
    pub parallax_imagestore: String,
    pub parallax_mount_program: String,
    pub parallax_mp_uid: u64,
    pub parallax_mp_gid: u64,
    pub parallax_mp_squashfuse_path: String,
    pub parallax_mp_logfile: String,
    pub parallax_path: String,
    pub podman_module: String,
    pub podman_path: String,
    pub document: K,
}

/// A [`Config`] with its texts as sequences of characters.
pub struct ConfigView<K> {
    pub parallax_imagestore: Seq<char>,
    pub parallax_mount_program: Seq<char>,
    pub parallax_mp_uid: u64,
    pub parallax_mp_gid: u64,
    pub parallax_mp_squashfuse_path: Seq<char>,
    pub parallax_mp_logfile: Seq<char>,
    pub parallax_path: Seq<char>,
    pub podman_module: Seq<char>,
    pub podman_path: Seq<char>,
    pub document: K,
}

impl<K> View for Config<K> {
    type V = ConfigView<K>;

    open spec fn view(&self) -> ConfigView<K> {
        ConfigView {
            parallax_imagestore: self.parallax_imagestore@,
            parallax_mount_program: self.parallax_mount_program@,
            parallax_mp_uid: self.parallax_mp_uid,
            parallax_mp_gid: self.parallax_mp_gid,
            parallax_mp_squashfuse_path: self.parallax_mp_squashfuse_path@,
            parallax_mp_logfile: self.parallax_mp_logfile@,
            parallax_path: self.parallax_path@,
            podman_module: self.podman_module@,
            podman_path: self.podman_path@,
            document: self.document,
        }
    }
}

/// A configuration as the options of the invocation change it: an imagestore that they name takes
/// the place of the configured one.
pub open spec fn overridden<K>(config: ConfigView<K>, options: OptionsView) -> ConfigView<K> {
    match options.parallax_imagestore {
        Some(path) => ConfigView { parallax_imagestore: path, ..config },
        None => config,
    }
}

/// Applies the options of the invocation to a configuration.
pub fn apply_options<K>(config: Config<K>, options: &ExecOptions) -> (changed: Config<K>)
    ensures
        changed@ == overridden(config@, options@),
{
    match &options.parallax_imagestore {
        Some(path) => Config { parallax_imagestore: path.clone(), ..config },
        None => config,
    }
}

/// The definition of an environment: the image that it runs and, where it can be written down, its
/// JSON text. `document` is the definition as it was rendered, which the container is run from.
#[derive(Clone, Debug, PartialEq, Eq)]
pub struct Edf<D> {
    pub image: String,
    pub json: Option<String>,
    pub document: D,
}

/// An [`Edf`] with its texts as sequences of characters.
pub struct EdfView<D> {
    pub image: Seq<char>,
    pub json: Option<Seq<char>>,
    pub document: D,
}

impl<D> View for Edf<D> {
    type V = EdfView<D>;

    open spec fn view(&self) -> EdfView<D> {
        EdfView {
            image: self.image@,
            json: match self.json {
                Some(text) => Some(text@),
                None => None,
            },
            document: self.document,
        }
    }
}

} // verus!
