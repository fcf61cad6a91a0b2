//! Finding and loading the configuration of the host.

use vstd::prelude::*;
use vstd::string::*;

use crate::command::{ExecOptions, OptionsView};
use crate::config::{apply_options, overridden, Config, ConfigView};
use crate::context::text_option;
use crate::deps::{DirStatus, DirStatusView, HostOps, RasterOps};
use crate::error::{plain_result, viewed_result, AppError, ErrorView};
use crate::text::{chars_of, join, joined, texts};

verus! {

/// The result of loading a configuration, with the options of the invocation applied to it.
pub open spec fn with_options<K>(
    loaded: Result<ConfigView<K>, ErrorView>,
    options: OptionsView,
) -> Result<ConfigView<K>, ErrorView> {
    match loaded {
        Ok(config) => Ok(overridden(config, options)),
        Err(err) => Err(err),
    }
}

/// Loads the configuration and applies the options of the invocation to it.
pub fn load_config_with_options<R: RasterOps>(raster: &R, options: &ExecOptions) -> (config: Result<
    Config<R::ConfigDocument>,
    AppError,
>)
    ensures
        exists|answer: Result<Config<R::ConfigDocument>, AppError>|
            {
                &&& #[trigger] call_ensures(R::load_config, (raster,), answer)
                &&& viewed_result(config) == with_options(viewed_result(answer), options@)
            },
{
    match raster.load_config() {
        Ok(config) => Ok(apply_options(config, options)),
        Err(err) => Err(err),
    }
}

/// Whether a configuration directory is there. What is no directory, and what cannot be looked at,
/// is an error.
pub open spec fn config_dir(path: Seq<char>, status: DirStatusView) -> Result<bool, ErrorView> {
    match status {
        DirStatusView::Directory => Ok(true),
        DirStatusView::Missing => Ok(false),
        DirStatusView::NotADirectory => Err(
            ErrorView::ConfigLoad(
                "Failed to access configuration directory "@ + path
                    + ": path exists but is not a directory"@,
            ),
        ),
        DirStatusView::Inaccessible(message) => Err(
            ErrorView::ConfigLoad(
                "Failed to access configuration directory "@ + path + ": "@ + message,
            ),
        ),
    }
}

/// Whether a configuration directory is there.
pub fn config_dir_exists(path: &str, status: DirStatus) -> (exists: Result<bool, AppError>)
    ensures
        plain_result(exists) == config_dir(path@, status@),
{
    match status {
        DirStatus::Directory => Ok(true),
        DirStatus::Missing => Ok(false),
        DirStatus::NotADirectory => Err(
            AppError::ConfigLoad(
                "Failed to access configuration directory ".to_string().concat(path).concat(
                    ": path exists but is not a directory",
                ),
            ),
        ),
        DirStatus::Inaccessible(message) => Err(
            AppError::ConfigLoad(
                "Failed to access configuration directory ".to_string().concat(path).concat(
                    ": ",
                ).concat(message.as_str()),
            ),
        ),
    }
}

/// None of the first candidates is there.
pub open spec fn all_missing(candidates: Seq<Seq<char>>, statuses: Seq<DirStatusView>) -> bool {
    forall|k: int|
        0 <= k < statuses.len() ==> config_dir(candidates[k], #[trigger] statuses[k]) == Ok::<
            bool,
            ErrorView,
        >(false)
}

/// What a search for the configuration comes to: the place of the first candidate that is there, or
/// the error of one before it that is in the way, or the error that none is there. `statuses` holds
/// what stands under the candidates that were looked at, which are just those that the search
/// needs.
pub open spec fn config_search(
    candidates: Seq<Seq<char>>,
    statuses: Seq<DirStatusView>,
) -> Option<Result<int, ErrorView>> {
    let last = statuses.len() - 1;
    if statuses.len() == candidates.len() && all_missing(candidates, statuses) {
        Some(
            Err(
                ErrorView::ConfigLoad(
                    "Cannot find config files in "@ + joined(candidates, " or "@),
                ),
            ),
        )
    } else if 0 <= last < candidates.len() && all_missing(candidates, statuses.drop_last()) {
        match config_dir(candidates[last], statuses[last]) {
            Ok(true) => Some(Ok(last)),
            Ok(false) => None,
            Err(err) => Some(Err(err)),
        }
    } else {
        None
    }
}

/// A result of loading the configuration from the first of several directories that is there. The
/// host said what stands under the candidates, and the configuration is what was loaded from the
/// directory that the search came to.
pub open spec fn loaded_from_candidates<R, H>(
    raster: R,
    host: H,
    candidates: Seq<Seq<char>>,
    statuses: Seq<DirStatusView>,
    config: Result<ConfigView<R::ConfigDocument>, ErrorView>,
) -> bool where R: RasterOps, H: HostOps<R::ConfigDocument> {
    &&& forall|k: int|
        0 <= k < statuses.len() ==> status_given::<R, H>(
            host,
            candidates[k],
            #[trigger] statuses[k],
        )
    &&& match config_search(candidates, statuses) {
        None => false,
        Some(Err(err)) => config == Err::<ConfigView<R::ConfigDocument>, ErrorView>(err),
        Some(Ok(k)) => exists|p: &str, r: Result<Config<R::ConfigDocument>, AppError>| #[trigger]
            call_ensures(R::load_config_path, (&raster, p), r) && p@ == candidates[k] && config
                == viewed_result(r),
    }
}

/// The host said that this stands under a path.
pub open spec fn status_given<R, H>(host: H, path: Seq<char>, status: DirStatusView) -> bool where
    R: RasterOps,
    H: HostOps<R::ConfigDocument>,
 {
    exists|p: &str, r: DirStatus| #[trigger]
        call_ensures(H::dir_status, (&host, p), r) && p@ == path && r@ == status
}

/// Loads the configuration from the first of several directories that is there. Once one is, the
/// others are not looked at, whatever comes of loading it.
pub fn load_config_from_candidates<R, H>(
    raster: &R,
    host: &H,
    candidates: &Vec<String>,
) -> (config: Result<Config<R::ConfigDocument>, AppError>) where
    R: RasterOps,
    H: HostOps<R::ConfigDocument>,

    ensures
        exists|statuses: Seq<DirStatusView>| #[trigger]
            loaded_from_candidates(
                *raster,
                *host,
                texts(candidates@),
                statuses,
                viewed_result(config),
            ),
{
    let ghost mut statuses: Seq<DirStatusView> = Seq::empty();
    let mut k: usize = 0;
    while k < candidates.len()
        invariant
            k <= candidates@.len(),
            statuses.len() == k,
            all_missing(texts(candidates@), statuses),
            forall|j: int|
                0 <= j < k ==> status_given::<R, H>(
                    *host,
                    texts(candidates@)[j],
                    #[trigger] statuses[j],
                ),
        decreases candidates@.len() - k,
    {
        let path = candidates[k].as_str();
        let status = host.dir_status(path);
        let ghost earlier = statuses;
        proof {
            statuses = statuses.push(status@);
            assert(statuses.drop_last() =~= earlier);
            assert(texts(candidates@)[k as int] == path@);
            assert(status_given::<R, H>(*host, path@, status@));
        }
        match config_dir_exists(path, status) {
            Ok(true) => {
                let config = raster.load_config_path(path);
                proof {
                    assert(config_search(texts(candidates@), statuses) == Some(
                        Ok::<int, ErrorView>(k as int),
                    ));
                    assert(loaded_from_candidates(
                        *raster,
                        *host,
                        texts(candidates@),
                        statuses,
                        viewed_result(config),
                    ));
                }
                return config;
            },
            Ok(false) => {},
            Err(err) => {
                let config: Result<Config<R::ConfigDocument>, AppError> = Err(err);
                proof {
                    assert(loaded_from_candidates(
                        *raster,
                        *host,
                        texts(candidates@),
                        statuses,
                        viewed_result(config),
                    ));
                }
                return config;
            },
        }
        k = k + 1;
    }
    let config: Result<Config<R::ConfigDocument>, AppError> = Err(
        AppError::ConfigLoad(
            "Cannot find config files in ".to_string().concat(join(candidates, " or ").as_str()),
        ),
    );
    proof {
        assert(loaded_from_candidates(
            *raster,
            *host,
            texts(candidates@),
            statuses,
            viewed_result(config),
        ));
    }
    config
}

/// A name in a directory. What is in no directory is the name itself.
pub open spec fn path_in(directory: Seq<char>, name: Seq<char>) -> Seq<char> {
    if directory.len() == 0 {
        name
    } else if directory.last() == '/' {
        directory + name
    } else {
        directory + "/"@ + name
    }
}

/// A name in a directory.
fn path_join(directory: &str, name: &str) -> (path: String)
    ensures
        path@ == path_in(directory@, name@),
{
    if directory.is_empty() {
        return name.to_string();
    }
    let chars = chars_of(directory);
    if chars[chars.len() - 1] == '/' {
        directory.to_string().concat(name)
    } else {
        directory.to_string().concat("/").concat(name)
    }
}

/// The directory with the user's own configuration.
pub open spec fn user_config(home: Option<Seq<char>>) -> Option<Seq<char>> {
    match home {
        Some(home) => Some(path_in(path_in(home, ".config"@), "sarus-suite"@)),
        None => None,
    }
}

/// The directory with the user's own configuration.
pub fn user_config_dir(home: Option<String>) -> (directory: Option<String>)
    ensures
        text_option(directory) == user_config(text_option(home)),
{
    match home {
        Some(home) => Some(
            path_join(path_join(home.as_str(), ".config").as_str(), "sarus-suite"),
        ),
        None => None,
    }
}

/// The directories that may hold the configuration: that of the system, then that of the user.
pub open spec fn config_candidates(home: Option<Seq<char>>) -> Seq<Seq<char>> {
    match user_config(home) {
        Some(directory) => seq!["/etc/sarus-suite"@, directory],
        None => seq!["/etc/sarus-suite"@],
    }
}

/// Loads the configuration of the system or, where there is none, that of the user.
pub fn load_config_with_fallback<R, H>(raster: &R, host: &H) -> (config: Result<
    Config<R::ConfigDocument>,
    AppError,
>) where R: RasterOps, H: HostOps<R::ConfigDocument>
    ensures
        exists|home: Option<String>, statuses: Seq<DirStatusView>|
            {
                &&& #[trigger] call_ensures(H::home_dir, (host,), home)
                &&& #[trigger] loaded_from_candidates(
                    *raster,
                    *host,
                    config_candidates(text_option(home)),
                    statuses,
                    viewed_result(config),
                )
            },
{
    let home = host.home_dir();
    let ghost said = home;
    let mut candidates: Vec<String> = Vec::new();
    candidates.push("/etc/sarus-suite".to_string());
    if let Some(directory) = user_config_dir(home) {
        candidates.push(directory);
    }
    proof {
        assert(texts(candidates@) =~= config_candidates(text_option(said)));
    }
    load_config_from_candidates(raster, host, &candidates)
}

/// A search that finds a directory finds the first that is there: all candidates before it are
/// missing, and none after it was looked at.
pub proof fn the_first_directory_is_found(
    candidates: Seq<Seq<char>>,
    statuses: Seq<DirStatusView>,
    k: int,
)
    requires
        config_search(candidates, statuses) == Some(Ok::<int, ErrorView>(k)),
    ensures
        0 <= k < candidates.len(),
        statuses.len() == k + 1,
        statuses[k] is Directory,
        forall|j: int| 0 <= j < k ==> (#[trigger] statuses[j]) is Missing,
{
    assert forall|j: int| 0 <= j < k implies (#[trigger] statuses[j]) is Missing by {
        assert(statuses.drop_last()[j] == statuses[j]);
    }
}

/// Whatever stands under the candidates, the search ends, and at one place only: after `len`
/// candidates it is decided, and after no other number of them.
pub proof fn the_search_ends_once(candidates: Seq<Seq<char>>, statuses: Seq<DirStatusView>) -> (len:
    int)
    requires
        statuses.len() == candidates.len(),
    ensures
        0 <= len <= candidates.len(),
        forall|n: int|
            0 <= n <= candidates.len() ==> (config_search(
                candidates,
                #[trigger] statuses.take(n),
            ) is Some <==> n == len),
{
    let len = decided_after(candidates, statuses, 0);
    assert forall|n: int| 0 <= n <= candidates.len() implies (config_search(
        candidates,
        #[trigger] statuses.take(n),
    ) is Some <==> n == len) by {
        let seen = statuses.take(n);
        if n > 0 {
            assert(seen.drop_last() =~= statuses.take(n - 1));
            if n > len {
                assert(len < candidates.len());
                assert(statuses.take(n - 1).len() == n - 1);
                if len > 0 {
                    assert(seen.drop_last()[len - 1] == statuses[len - 1]);
                    assert(seen[len - 1] == statuses[len - 1]);
                } else {
                    assert(candidates.len() == 0);
                }
            } else {
                assert forall|j: int| 0 <= j < n - 1 implies config_dir(
                    candidates[j],
                    #[trigger] statuses.take(n - 1)[j],
                ) == Ok::<bool, ErrorView>(false) by {
                    assert(config_dir(candidates[j], statuses[j]) == Ok::<bool, ErrorView>(false));
                }
                if n < len {
                    assert(config_dir(candidates[n - 1], statuses[n - 1]) == Ok::<bool, ErrorView>(
                        false,
                    ));
                } else if config_dir(candidates[n - 1], statuses[n - 1]) == Ok::<bool, ErrorView>(
                    false,
                ) {
                    assert(all_missing(candidates, seen));
                }
            }
        }
    }
    len
}

/// The number of candidates after which a search is decided that missed the first `from` of them.
proof fn decided_after(candidates: Seq<Seq<char>>, statuses: Seq<DirStatusView>, from: int) -> (len:
    int)
    requires
        statuses.len() == candidates.len(),
        0 <= from <= candidates.len(),
        forall|j: int|
            0 <= j < from ==> config_dir(candidates[j], #[trigger] statuses[j]) == Ok::<
                bool,
                ErrorView,
            >(false),
    ensures
        from <= len <= candidates.len(),
        forall|j: int|
            0 <= j < len - 1 ==> config_dir(candidates[j], #[trigger] statuses[j]) == Ok::<
                bool,
                ErrorView,
            >(false),
        len < candidates.len() ==> 0 < len && config_dir(candidates[len - 1], statuses[len - 1])
            != Ok::<bool, ErrorView>(false),
    decreases candidates.len() - from,
{
    if from == candidates.len() {
        from
    } else if config_dir(candidates[from], statuses[from]) == Ok::<bool, ErrorView>(false) {
        decided_after(candidates, statuses, from + 1)
    } else {
        from + 1
    }
}

} // verus!
