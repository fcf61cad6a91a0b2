//! The contexts in which Podman is called.

use vstd::prelude::*;
use vstd::string::*;

use crate::config::{Config, ConfigView};
use crate::text::{
    decimal, decimal_is_injective, decimal_text, hex_digit, parent_dir, parent_of,
};

verus! {

/// The user on whose behalf the program runs.
#[derive(Clone, Debug, PartialEq, Eq)]
pub struct CurrentUser {
    pub uid: u32,
    pub gid: u32,
}

/// The identifier of one run: the 128 bits of a UUID.
#[derive(Clone, Copy, Debug, PartialEq, Eq, Structural)]
pub struct RunId {
    pub bits: u128,
}

/// The hexadecimal digits of a UUID, the highest first, without hyphens.
pub open spec fn simple_form(bits: u128) -> Seq<char> {
    Seq::new(32, |k: int| hex_digit(((bits >> ((4 * (31 - k)) as u128)) & 0xf) as nat))
}

/// Calls [`uuid::Uuid::simple`] on the UUID with these bits and writes the result as text: the
/// thirty-two hexadecimal digits, in lower case, the highest first.
#[verifier::external_body]
fn simple_text(bits: u128) -> (text: String)
    ensures
        text@ == simple_form(bits),
{
    uuid::Uuid::from_u128(bits).simple().to_string()
}

/// The bits of a random UUID: version 4, of the variant of RFC 9562.
pub open spec fn is_random_uuid(bits: u128) -> bool {
    &&& (bits >> 76) & 0xf == 4
    &&& (bits >> 62) & 0x3 == 2
}

/// Calls [`uuid::Uuid::new_v4`]. Every outcome carries the version and the variant of a random
/// UUID; nothing is said of the other bits.
#[verifier::external_body]
fn random_uuid() -> (bits: u128)
    ensures
        is_random_uuid(bits),
{
    uuid::Uuid::new_v4().as_u128()
}

/// Bits that [`uuid::Uuid::new_v4`] has drawn.
pub closed spec fn drawn(bits: u128) -> bool {
    call_ensures(random_uuid, (), bits)
}

/// Draws the bits of a random UUID.
pub(crate) fn draw_uuid() -> (bits: u128)
    ensures
        drawn(bits),
        is_random_uuid(bits),
{
    random_uuid()
}

impl RunId {
    /// The first twelve digits, by which a run is told from the others.
    pub open spec fn tag(self) -> Seq<char> {
        simple_form(self.bits).take(12)
    }

    /// The first twelve digits, by which a run is told from the others.
    pub fn tag_text(&self) -> (tag: String)
        ensures
            tag@ == self.tag(),
    {
        let digits = simple_text(self.bits);
        digits.as_str().substring_char(0, 12).to_string()
    }
}

/// How Podman is called: its path, and what is set in place of its own defaults.
#[derive(Clone, Debug, PartialEq, Eq)]
pub struct PodmanCtx {
    pub podman_path: String,
    pub module: Option<String>,
    pub graphroot: Option<String>,
    pub runroot: Option<String>,
    pub parallax_mount_program: Option<String>,
    pub ro_store: Option<String>,
    pub podman_env: Option<Vec<(String, String)>>,
}

/// A [`PodmanCtx`] with its texts as sequences of characters.
pub struct PodmanView {
    pub podman_path: Seq<char>,
    pub module: Option<Seq<char>>,
    pub graphroot: Option<Seq<char>>,
    pub runroot: Option<Seq<char>>,
    pub parallax_mount_program: Option<Seq<char>>,
    pub ro_store: Option<Seq<char>>,
    pub podman_env: Option<Seq<(Seq<char>, Seq<char>)>>,
}

/// An optional text as a sequence of characters.
pub open spec fn text_option(text: Option<String>) -> Option<Seq<char>> {
    match text {
        Some(text) => Some(text@),
        None => None,
    }
}

/// A list of pairs of texts as pairs of sequences of characters.
pub open spec fn text_pairs(pairs: Seq<(String, String)>) -> Seq<(Seq<char>, Seq<char>)> {
    pairs.map_values(|pair: (String, String)| (pair.0@, pair.1@))
}

impl View for PodmanCtx {
    type V = PodmanView;

    open spec fn view(&self) -> PodmanView {
        PodmanView {
            podman_path: self.podman_path@,
            module: text_option(self.module),
            graphroot: text_option(self.graphroot),
            runroot: text_option(self.runroot),
            parallax_mount_program: text_option(self.parallax_mount_program),
            ro_store: text_option(self.ro_store),
            podman_env: match self.podman_env {
                Some(pairs) => Some(text_pairs(pairs@)),
                None => None,
            },
        }
    }
}

/// How one container is run.
#[derive(Clone, Debug, PartialEq, Eq)]
pub struct ContainerCtx {
    pub name: String,
    pub interactive: bool,
    pub tty: bool,
    pub detach: bool,
    pub auto_remove: bool,
    pub set_env: bool,
    pub pidfile: Option<String>,
    pub user: Option<String>,
}

/// A [`ContainerCtx`] with its texts as sequences of characters.
pub struct ContainerView {
    pub name: Seq<char>,
    pub interactive: bool,
    pub tty: bool,
    pub detach: bool,
    pub auto_remove: bool,
    pub set_env: bool,
    pub pidfile: Option<Seq<char>>,
    pub user: Option<Seq<char>>,
}

impl View for ContainerCtx {
    type V = ContainerView;

    open spec fn view(&self) -> ContainerView {
        ContainerView {
            name: self.name@,
            interactive: self.interactive,
            tty: self.tty,
            detach: self.detach,
            auto_remove: self.auto_remove,
            set_env: self.set_env,
            pidfile: text_option(self.pidfile),
            user: text_option(self.user),
        }
    }
}

/// Podman with nothing set but its path.
pub open spec fn pull_ctx<K>(config: ConfigView<K>) -> PodmanView {
    PodmanView {
        podman_path: config.podman_path,
        module: None,
        graphroot: None,
        runroot: None,
        parallax_mount_program: None,
        ro_store: None,
        podman_env: None,
    }
}

/// Podman with the Parallax imagestore as an additional, read-only store.
pub open spec fn seed_ctx<K>(config: ConfigView<K>) -> PodmanView {
    PodmanView { ro_store: Some(config.parallax_imagestore), ..pull_ctx(config) }
}

/// The seed context, completed by the graphroot that Parallax has to be told.
pub open spec fn parallax_ctx<K>(config: ConfigView<K>, graphroot: Seq<char>) -> PodmanView {
    PodmanView { graphroot: Some(graphroot), ..seed_ctx(config) }
}

/// Podman with the Parallax imagestore as its graphroot.
pub open spec fn readonly_ctx<K>(config: ConfigView<K>) -> PodmanView {
    PodmanView { graphroot: Some(config.parallax_imagestore), ..pull_ctx(config) }
}

/// The directory that holds what Podman keeps of one run.
pub open spec fn roots_base(uid: u32, run_id: RunId) -> Seq<char> {
    "/dev/shm/sarusctl-"@ + decimal(uid as nat) + "-"@ + run_id.tag()
}

/// What the mount program of Parallax finds in its environment.
pub open spec fn mount_program_env<K>(config: ConfigView<K>) -> Seq<(Seq<char>, Seq<char>)> {
    seq![
        ("PARALLAX_MP_UID"@, decimal(config.parallax_mp_uid as nat)),
        ("PARALLAX_MP_GID"@, decimal(config.parallax_mp_gid as nat)),
        ("PARALLAX_MP_SQUASHFUSE_CMD"@, config.parallax_mp_squashfuse_path),
        ("PARALLAX_MP_LOGFILE"@, config.parallax_mp_logfile),
    ]
}

/// Podman set up for running containers, with directories of its own for this run.
pub open spec fn run_ctx<K>(config: ConfigView<K>, uid: u32, run_id: RunId) -> PodmanView {
    PodmanView {
        podman_path: config.podman_path,
        module: Some(config.podman_module),
        graphroot: Some(roots_base(uid, run_id) + "/graphroot"@),
        runroot: Some(roots_base(uid, run_id) + "/runroot"@),
        parallax_mount_program: Some(config.parallax_mount_program),
        ro_store: Some(config.parallax_imagestore),
        podman_env: Some(mount_program_env(config)),
    }
}

/// Context for pulling images with Podman, in essence Podman as it is configured.
pub fn build_pull_ctx<K>(config: &Config<K>) -> (ctx: PodmanCtx)
    ensures
        ctx@ == pull_ctx(config@),
{
    PodmanCtx {
        podman_path: config.podman_path.clone(),
        module: None,
        graphroot: None,
        runroot: None,
        parallax_mount_program: None,
        ro_store: None,
        podman_env: None,
    }
}

/// Seed context for the operations of Parallax on images. It has the default graphroot, and the
/// Parallax imagestore as a read-only additional store. Whoever uses it completes it by the default
/// graphroot, because Parallax has to be told that explicitly.
pub fn build_parallax_seed_ctx<K>(config: &Config<K>) -> (ctx: PodmanCtx)
    ensures
        ctx@ == seed_ctx(config@),
{
    PodmanCtx {
        podman_path: config.podman_path.clone(),
        module: None,
        graphroot: None,
        runroot: None,
        parallax_mount_program: None,
        ro_store: Some(config.parallax_imagestore.clone()),
        podman_env: None,
    }
}

/// Context with the Parallax imagestore as its graphroot. It is for reading only, since the store
/// is not for Podman to change: it answers whether an image is there without creating the
/// directories of a run.
pub fn build_readonly_ctx<K>(config: &Config<K>) -> (ctx: PodmanCtx)
    ensures
        ctx@ == readonly_ctx(config@),
{
    PodmanCtx {
        podman_path: config.podman_path.clone(),
        module: None,
        graphroot: Some(config.parallax_imagestore.clone()),
        runroot: None,
        parallax_mount_program: None,
        ro_store: None,
        podman_env: None,
    }
}

/// Context for running containers, with a graphroot and a runroot of its own so that those of
/// Podman are left alone.
pub fn build_run_ctx<K>(config: &Config<K>, user: &CurrentUser, run_id: &RunId) -> (ctx: PodmanCtx)
    ensures
        ctx@ == run_ctx(config@, user.uid, *run_id),
{
    let base = "/dev/shm/sarusctl-".to_string().concat(
        decimal_text(user.uid as u128).as_str(),
    ).concat("-").concat(run_id.tag_text().as_str());
    let mut env: Vec<(String, String)> = Vec::new();
    env.push(("PARALLAX_MP_UID".to_string(), decimal_text(config.parallax_mp_uid as u128)));
    env.push(("PARALLAX_MP_GID".to_string(), decimal_text(config.parallax_mp_gid as u128)));
    env.push(
        ("PARALLAX_MP_SQUASHFUSE_CMD".to_string(), config.parallax_mp_squashfuse_path.clone()),
    );
    env.push(("PARALLAX_MP_LOGFILE".to_string(), config.parallax_mp_logfile.clone()));
    proof {
        assert(text_pairs(env@) =~= mount_program_env(config@));
    }
    PodmanCtx {
        podman_path: config.podman_path.clone(),
        module: Some(config.podman_module.clone()),
        graphroot: Some(base.clone().concat("/graphroot")),
        runroot: Some(base.concat("/runroot")),
        parallax_mount_program: Some(config.parallax_mount_program.clone()),
        ro_store: Some(config.parallax_imagestore.clone()),
        podman_env: Some(env),
    }
}

/// The directory that holds the graphroot of a context or, where that has none, its runroot.
pub open spec fn rootdirs_of(ctx: PodmanView) -> Option<Seq<char>> {
    let graphroot_parent = match ctx.graphroot {
        Some(path) => parent_of(path),
        None => None,
    };
    match graphroot_parent {
        Some(dir) => Some(dir),
        None => match ctx.runroot {
            Some(path) => parent_of(path),
            None => None,
        },
    }
}

/// The directory that holds what Podman keeps of the run of a context.
pub fn rootdirs_base(ctx: &PodmanCtx) -> (base: Option<String>)
    ensures
        text_option(base) == rootdirs_of(ctx@),
{
    let graphroot_parent = match &ctx.graphroot {
        Some(path) => parent_dir(path.as_str()),
        None => None,
    };
    match graphroot_parent {
        Some(dir) => Some(dir),
        None => match &ctx.runroot {
            Some(path) => parent_dir(path.as_str()),
            None => None,
        },
    }
}

/// Two runs have the same directory only where the user is the same, and so are the first twelve
/// digits of their identifiers.
pub proof fn runs_have_directories_of_their_own(
    uid: u32,
    run_id: RunId,
    other: u32,
    other_id: RunId,
)
    requires
        roots_base(uid, run_id) == roots_base(other, other_id),
    ensures
        uid == other,
        run_id.tag() == other_id.tag(),
{
    let prefix = "/dev/shm/sarusctl-"@;
    let front = prefix + decimal(uid as nat) + "-"@;
    let other_front = prefix + decimal(other as nat) + "-"@;
    let base = front + run_id.tag();
    let other_base = other_front + other_id.tag();
    assert(base == other_base);
    assert(front.len() == other_front.len());
    assert(run_id.tag() =~= base.skip(front.len() as int));
    assert(other_id.tag() =~= other_base.skip(front.len() as int));
    assert(front =~= base.take(front.len() as int));
    assert(other_front =~= other_base.take(front.len() as int));
    let digits = decimal(uid as nat);
    let start = prefix.len() as int;
    assert(digits =~= front.subrange(start, start + digits.len()));
    assert(decimal(other as nat) =~= other_front.subrange(start, start + digits.len()));
    decimal_is_injective(uid as nat, other as nat);
}

/// The names that the mount program finds in its environment differ from each other.
pub proof fn mount_program_env_is_a_map<K>(config: ConfigView<K>, i: int, j: int)
    requires
        0 <= i < j < mount_program_env(config).len(),
    ensures
        mount_program_env(config)[i].0 != mount_program_env(config)[j].0,
{
    reveal_strlit("PARALLAX_MP_UID");
    reveal_strlit("PARALLAX_MP_GID");
    reveal_strlit("PARALLAX_MP_SQUASHFUSE_CMD");
    reveal_strlit("PARALLAX_MP_LOGFILE");
    let env = mount_program_env(config);
    assert("PARALLAX_MP_UID"@[12] != "PARALLAX_MP_GID"@[12]);
    assert(env[0].0.len() == 15 && env[1].0.len() == 15);
    assert(env[2].0.len() == 26 && env[3].0.len() == 19);
    assert(i == 0 || i == 1 || i == 2);
    assert(j == 1 || j == 2 || j == 3);
}

} // verus!
