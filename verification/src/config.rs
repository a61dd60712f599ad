//! Where the client keeps its configuration and its cache, and how a configuration
//! that was read is completed.
use vstd::prelude::*;
use crate::text::{is_prefix, is_suffix, starts_with};
use std::path::Path;

verus! {

/// Where the configuration is looked for when no file is named.
pub const CONFIG_LOCATION: &'static str = "~/.config/ghn/config.yaml";

/// The cache file name used when the configuration names none, next to the configuration.
pub const DEFAULT_CACHE_FILE: &'static str = "cache.yaml";

/// The client's configuration.
pub struct Config {
    /// The file that caches the notifications between runs.
    pub cache_file: Option<String>,
    /// The configuration file this configuration came from; it is not written out.
    pub config_file: Option<String>,
}

// ---------------------------------------------------------------------------
// Paths, through `std::path`
// ---------------------------------------------------------------------------

/// The directory that `Path::parent` gives for path `p`, as a string; `None` where the
/// path has no parent (or the parent is not valid UTF-8).
pub uninterp spec fn path_parent(p: Seq<char>) -> Option<Seq<char>>;

/// The path that `Path::join` makes of `base` and `child`, as a string; `None` where it
/// is not valid UTF-8.
pub uninterp spec fn path_join(base: Seq<char>, child: Seq<char>) -> Option<Seq<char>>;

/// `Path::parent` (then `Path::to_str`): the parent directory of `p`. Its result is
/// named by `path_parent`; nothing more is claimed of it.
#[verifier::external_body]
fn parent_dir(p: &str) -> (r: Option<String>)
    ensures
        r.deep_view() == path_parent(p@),
{
    match Path::new(p).parent() {
        Some(q) => match q.to_str() {
            Some(s) => Some(String::from(s)),
            None => None,
        },
        None => None,
    }
}

/// `Path::join` (then `OsString::into_string`): `child` adjoined to `base` as a path.
/// Its result is named by `path_join`. What the documentation says of it is claimed: an
/// absolute `child` (on Unix, one that starts with `/`) replaces `base`; a relative one
/// extends `base`, so the result starts with `base` and ends with `child`. Where a
/// separator goes between them the documentation shows only by example, and that is not
/// claimed.
#[verifier::external_body]
fn join_path(base: &str, child: &str) -> (r: Option<String>)
    ensures
        r.deep_view() == path_join(base@, child@),
        is_prefix("/"@, child@) ==> r.deep_view() == Some(child@),
        !is_prefix("/"@, child@) ==> r is Some && is_prefix(base@, r->Some_0@) && is_suffix(
            child@,
            r->Some_0@,
        ),
{
    match Path::new(base).join(child).into_os_string().into_string() {
        Ok(s) => Some(s),
        Err(_) => None,
    }
}

// ---------------------------------------------------------------------------
// Home directory and absolute paths
// ---------------------------------------------------------------------------

/// `path` with a leading `~/` replaced by the home directory `home` and a `/`.
pub open spec fn home_expanded(path: Seq<char>, home: Seq<char>) -> Seq<char> {
    if is_prefix("~/"@, path) {
        home + "/"@ + path.skip(2)
    } else {
        path
    }
}

/// Expands a leading `~/` of `path` to the home directory `home`; any other path is
/// returned as it is.
pub fn sanitize_tilde_to_home(path: &str, home: &str) -> (r: String)
    ensures
        r@ == home_expanded(path@, home@),
{
    proof {
        reveal_strlit("~/");
    }
    if starts_with(path, "~/") {
        let mut r = String::from_str(home);
        r.append("/");
        r.append(path.substring_char(2, path.unicode_len()));
        r
    } else {
        String::from_str(path)
    }
}

/// Where the cache file `cache_file` lies, given the configuration file `cfg_file`: an
/// absolute path stays as it is; a relative one is taken from the configuration's directory.
pub open spec fn absolute_cache_path(cache_file: Seq<char>, cfg_file: Seq<char>) -> Result<
    Seq<char>,
    Seq<char>,
> {
    if is_prefix("/"@, cache_file) {
        Ok(cache_file)
    } else {
        match path_parent(cfg_file) {
            None => Err(
                "Provided config file path '"@ + cfg_file + "' has no parent directory."@,
            ),
            Some(parent) => match path_join(parent, cache_file) {
                Some(p) => Ok(p),
                None => Err("Unable to get absolute cache file path for '"@ + cache_file + "'"@),
            },
        }
    }
}

/// The plain view of a result of strings.
pub open spec fn result_view(r: Result<String, String>) -> Result<Seq<char>, Seq<char>> {
    match r {
        Ok(s) => Ok(s@),
        Err(e) => Err(e@),
    }
}

/// The absolute path of the cache file `cache_file` named in the configuration file
/// `cfg_file` (see `absolute_cache_path`).
pub fn cache_file_absolute_path(cache_file: &String, cfg_file: &String) -> (r: Result<String, String>)
    ensures
        result_view(r) == absolute_cache_path(cache_file@, cfg_file@),
        r is Err <==> (!is_prefix("/"@, cache_file@) && path_parent(cfg_file@) is None),
        r is Err ==> r->Err_0@ == "Provided config file path '"@ + cfg_file@
            + "' has no parent directory."@,
        r is Ok ==> is_suffix(cache_file@, r->Ok_0@),
        r is Ok && !is_prefix("/"@, cache_file@) ==> is_prefix(
            path_parent(cfg_file@)->Some_0,
            r->Ok_0@,
        ),
{
    proof {
        reveal_strlit("/");
    }
    if starts_with(cache_file.as_str(), "/") {
        assert(cache_file@.subrange(0, cache_file@.len() as int) =~= cache_file@);
        return Ok(cache_file.clone());
    }
    let parent = match parent_dir(cfg_file.as_str()) {
        Some(p) => p,
        None => {
            let mut m = String::from_str("Provided config file path '");
            m.append(cfg_file.as_str());
            m.append("' has no parent directory.");
            return Err(m);
        },
    };
    match join_path(parent.as_str(), cache_file.as_str()) {
        Some(p) => Ok(p),
        None => {
            let mut m = String::from_str("Unable to get absolute cache file path for '");
            m.append(cache_file.as_str());
            m.append("'");
            Err(m)
        },
    }
}

// ---------------------------------------------------------------------------
// The configuration
// ---------------------------------------------------------------------------

/// The configuration file looked for first, for the home directory `home`.
pub open spec fn default_config_path(home: Seq<char>) -> Seq<char> {
    home_expanded(CONFIG_LOCATION@, home)
}

/// The default cache file can be placed: the default configuration file has a
/// directory, and the cache file name joins it.
pub open spec fn defaults_resolve(home: Seq<char>) -> bool {
    &&& path_parent(default_config_path(home)) is Some
    &&& path_join(path_parent(default_config_path(home))->Some_0, DEFAULT_CACHE_FILE@) is Some
}

/// The default configuration for the home directory `home`: the configuration file at its
/// usual place, and the cache file next to it.
pub open spec fn is_default_config(c: Config, home: Seq<char>) -> bool {
    &&& c.config_file is Some
    &&& c.config_file->Some_0@ == default_config_path(home)
    &&& c.cache_file is Some
    &&& c.cache_file->Some_0@ == path_join(
        path_parent(default_config_path(home))->Some_0,
        DEFAULT_CACHE_FILE@,
    )->Some_0
}

impl Config {
    /// The default configuration (see `is_default_config`) for the home directory `home`.
    pub fn defaults(home: &str) -> (c: Config)
        requires
            defaults_resolve(home@),
        ensures
            is_default_config(c, home@),
    {
        let cfg = sanitize_tilde_to_home(CONFIG_LOCATION, home);
        let parent = match parent_dir(cfg.as_str()) {
            Some(p) => p,
            None => String::new(),
        };
        let cache = match join_path(parent.as_str(), DEFAULT_CACHE_FILE) {
            Some(p) => p,
            None => String::new(),
        };
        Config { cache_file: Some(cache), config_file: Some(cfg) }
    }
}


/// The cache file that a configuration names, `cache.yaml` where it names none.
pub open spec fn cache_file_named(c: Config) -> Seq<char> {
    match c.cache_file {
        Some(f) => f@,
        None => DEFAULT_CACHE_FILE@,
    }
}

/// The configuration as read, before its cache file is made absolute, as the pair of its
/// cache file and its configuration file: the file named (`filepath`) as parsed (`loaded`),
/// remembered as the configuration's file; or, where no file is named, the default
/// configuration. A parse failure gives its message.
pub open spec fn base_paths(filepath: Option<String>, home: Seq<char>, loaded: Result<Config, String>) -> Result<
    (Seq<char>, Seq<char>),
    Seq<char>,
> {
    match filepath {
        Some(f) => match loaded {
            Err(e) => Err("unable to parse config file '"@ + f@ + "': "@ + e@),
            Ok(c) => Ok((cache_file_named(c), f@)),
        },
        None => Ok(
            (
                path_join(path_parent(default_config_path(home))->Some_0, DEFAULT_CACHE_FILE@)->Some_0,
                default_config_path(home),
            ),
        ),
    }
}

/// The configuration to run with, as the pair of its absolute cache file and its
/// configuration file, or the message of the failure.
pub open spec fn config_outcome(filepath: Option<String>, home: Seq<char>, loaded: Result<Config, String>) -> Result<
    (Seq<char>, Seq<char>),
    Seq<char>,
> {
    match base_paths(filepath, home, loaded) {
        Err(m) => Err(m),
        Ok((cache, cfg)) => match absolute_cache_path(cache, cfg) {
            Ok(p) => Ok((p, cfg)),
            Err(_) => Err("Unable to get absolute cache file path for '"@ + cache + "'"@),
        },
    }
}

/// `r` is the configuration or the failure that `outcome` describes.
pub open spec fn config_matches(r: Result<Config, String>, outcome: Result<(Seq<char>, Seq<char>), Seq<char>>) -> bool {
    match outcome {
        Ok((cache, cfg)) => r matches Ok(c) && c.cache_file is Some && c.cache_file->Some_0@
            == cache && c.config_file is Some && c.config_file->Some_0@ == cfg,
        Err(m) => r matches Err(e) && e@ == m,
    }
}

impl Config {
    /// The configuration to run with. `filepath` names the configuration file to use, if
    /// any; `loaded` is what reading and parsing that file (its `~/` expanded by
    /// `sanitize_tilde_to_home`) gave, and is not looked at when no file is named. With no
    /// file named, the default configuration is used. Either way, the cache file is then
    /// made absolute, from the directory of the configuration file.
    pub fn new(filepath: Option<String>, home: &String, loaded: Result<Config, String>) -> (r:
        Result<Config, String>)
        requires
            filepath is None ==> defaults_resolve(home@),
        ensures
            config_matches(r, config_outcome(filepath, home@, loaded)),
            (filepath is None || (loaded is Ok && path_parent(filepath->Some_0@) is Some))
                ==> r is Ok,
    {
        let cfg = match filepath {
            Some(f) => match loaded {
                Err(e) => {
                    let mut m = String::from_str("unable to parse config file '");
                    m.append(f.as_str());
                    m.append("': ");
                    m.append(e.as_str());
                    return Err(m);
                },
                Ok(c) => Config { cache_file: c.cache_file, config_file: Some(f) },
            },
            None => Config::defaults(home.as_str()),
        };
        let cfg_file = match &cfg.config_file {
            Some(f) => f.clone(),
            None => String::new(),
        };
        let cache_file = match cfg.cache_file {
            Some(c) => c,
            None => String::from_str(DEFAULT_CACHE_FILE),
        };
        match cache_file_absolute_path(&cache_file, &cfg_file) {
            Ok(p) => Ok(Config { cache_file: Some(p), config_file: cfg.config_file }),
            Err(_) => {
                let mut m = String::from_str("Unable to get absolute cache file path for '");
                m.append(cache_file.as_str());
                m.append("'");
                Err(m)
            },
        }
    }

    /// `Config::new`, where the default configuration can be formed; `None` where no file
    /// is named and the default cache file cannot be placed (`defaults_resolve`).
    pub fn load(filepath: Option<String>, home: &String, loaded: Result<Config, String>) -> (r:
        Option<Result<Config, String>>)
        ensures
            r is None <==> (filepath is None && !defaults_resolve(home@)),
            r matches Some(res) ==> config_matches(res, config_outcome(filepath, home@, loaded)),
            r matches Some(res) ==> ((filepath is None || (loaded is Ok && path_parent(
                filepath->Some_0@,
            ) is Some)) ==> res is Ok),
    {
        if filepath.is_none() && !Config::defaults_available(home.as_str()) {
            return None;
        }
        Some(Config::new(filepath, home, loaded))
    }

    /// Can the default configuration be formed for the home directory `home`?
    pub fn defaults_available(home: &str) -> (b: bool)
        ensures
            b == defaults_resolve(home@),
    {
        let cfg = sanitize_tilde_to_home(CONFIG_LOCATION, home);
        match parent_dir(cfg.as_str()) {
            Some(p) => join_path(p.as_str(), DEFAULT_CACHE_FILE).is_some(),
            None => false,
        }
    }
}

} // verus!
