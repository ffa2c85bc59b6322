//! The backend registry: the static configuration the proxy starts with.

use crate::router::auth_header;
use crate::router::check_auth;
use crate::router::AuthError;
use vstd::prelude::*;
use vstd::string::StringExecFns;

verus! {

/// How the gateway authenticates itself to a backend.
#[derive(Debug)]
pub enum AuthConfig {
    /// `Authorization: Bearer <token>`.
    Bearer { token: String },
    /// `Authorization: Basic <base64(username:password)>`.
    Basic { username: String, password: String },
    /// An arbitrary header, replacing any header of that name.
    CustomHeader { name: String, value: String },
}

/// One configured backend.
#[derive(Debug)]
pub struct BackendConfig {
    pub name: String,
    /// The base URL; the routing table refers to a backend by it.
    pub url: String,
    pub auth: Option<AuthConfig>,
}

/// The whole configuration: the refresh period in seconds and the backends in
/// the order they were written.
#[derive(Debug)]
pub struct Config {
    pub refresh_interval: u64,
    pub backends: Vec<BackendConfig>,
}

/// The mathematical value of an [`AuthConfig`].
pub enum AuthView {
    Bearer { token: Seq<char> },
    Basic { username: Seq<char>, password: Seq<char> },
    CustomHeader { name: Seq<char>, value: Seq<char> },
}

/// The mathematical value of a [`BackendConfig`].
pub struct BackendView {
    pub name: Seq<char>,
    pub url: Seq<char>,
    pub auth: Option<AuthView>,
}

/// The mathematical value of a [`Config`].
pub struct ConfigView {
    pub refresh_interval: u64,
    pub backends: Seq<BackendView>,
}

impl View for AuthConfig {
    type V = AuthView;

    open spec fn view(&self) -> AuthView {
        match *self {
            AuthConfig::Bearer { token } => AuthView::Bearer { token: token@ },
            AuthConfig::Basic { username, password } => AuthView::Basic {
                username: username@,
                password: password@,
            },
            AuthConfig::CustomHeader { name, value } => AuthView::CustomHeader {
                name: name@,
                value: value@,
            },
        }
    }
}

impl View for BackendConfig {
    type V = BackendView;

    open spec fn view(&self) -> BackendView {
        BackendView {
            name: self.name@,
            url: self.url@,
            auth: match self.auth {
                Some(auth) => Some(auth@),
                None => None,
            },
        }
    }
}

impl Clone for AuthConfig {
    fn clone(&self) -> (r: Self)
        ensures
            r@ == self@,
    {
        match self {
            AuthConfig::Bearer { token } => AuthConfig::Bearer { token: token.clone() },
            AuthConfig::Basic { username, password } => AuthConfig::Basic {
                username: username.clone(),
                password: password.clone(),
            },
            AuthConfig::CustomHeader { name, value } => AuthConfig::CustomHeader {
                name: name.clone(),
                value: value.clone(),
            },
        }
    }
}

impl Clone for BackendConfig {
    fn clone(&self) -> (r: Self)
        ensures
            r@ == self@,
    {
        BackendConfig {
            name: self.name.clone(),
            url: self.url.clone(),
            auth: match &self.auth {
                Some(auth) => Some(auth.clone()),
                None => None,
            },
        }
    }
}

/// The views of a sequence of backends, in the same order.
pub open spec fn backend_views(backends: Seq<BackendConfig>) -> Seq<BackendView> {
    backends.map_values(|b: BackendConfig| b@)
}

impl View for Config {
    type V = ConfigView;

    open spec fn view(&self) -> ConfigView {
        ConfigView {
            refresh_interval: self.refresh_interval,
            backends: backend_views(self.backends@),
        }
    }
}

/// The first backend whose base URL is `url`, if there is one.
pub open spec fn first_backend(backends: Seq<BackendView>, url: Seq<char>) -> Option<BackendView>
    decreases backends.len(),
{
    if backends.len() == 0 {
        None
    } else {
        match first_backend(backends.drop_last(), url) {
            Some(b) => Some(b),
            None => if backends.last().url == url {
                Some(backends.last())
            } else {
                None
            },
        }
    }
}

/// A match within a prefix of the registry is the match in the whole registry.
proof fn lemma_first_backend_prefix(backends: Seq<BackendView>, n: int, url: Seq<char>)
    requires
        0 <= n <= backends.len(),
        first_backend(backends.take(n), url) is Some,
    ensures
        first_backend(backends, url) == first_backend(backends.take(n), url),
    decreases backends.len() - n,
{
    if n < backends.len() {
        assert(backends.take(n + 1).drop_last() =~= backends.take(n));
        lemma_first_backend_prefix(backends, n + 1, url);
    } else {
        assert(backends.take(n) =~= backends);
    }
}

impl Config {
    /// The registry entry that authenticates requests to `url`: the first
    /// backend, in configuration order, whose base URL equals `url`.
    pub fn find_backend(&self, url: &String) -> (r: Option<&BackendConfig>)
        ensures
            match r {
                Some(b) => first_backend(self@.backends, url@) == Some(b@),
                None => first_backend(self@.backends, url@) is None,
            },
    {
        let ghost views = self@.backends;
        let mut i: usize = 0;
        while i < self.backends.len()
            invariant
                i <= self.backends.len(),
                views == backend_views(self.backends@),
                first_backend(views.take(i as int), url@) is None,
            decreases self.backends.len() - i,
        {
            let b = &self.backends[i];
            proof {
                assert(views.take(i + 1).drop_last() =~= views.take(i as int));
                assert(views.take(i + 1).last() == b@);
            }
            if b.url == *url {
                proof {
                    lemma_first_backend_prefix(views, i + 1, url@);
                }
                return Some(b);
            }
            i = i + 1;
        }
        proof {
            assert(views.take(i as int) =~= views);
        }
        None
    }
}

/// Why a configuration is refused before the proxy starts.
#[derive(Debug, Clone, Copy, PartialEq, Eq, Structural)]
pub enum ConfigError {
    /// The refresh interval is zero.
    ZeroRefreshInterval,
    /// The authentication of the backend at `index` cannot be put in a header.
    BackendAuth { index: usize, error: AuthError },
}

/// Why the authentication of a backend cannot be put in a header, if it
/// cannot.
pub open spec fn backend_auth_error(backend: BackendView) -> Option<AuthError> {
    match backend.auth {
        None => None,
        Some(auth) => match auth_header(auth) {
            Ok(_) => None,
            Err(e) => Some(e),
        },
    }
}

/// Whether `index` is the first backend whose authentication cannot be put in
/// a header.
pub open spec fn first_auth_error(backends: Seq<BackendView>, index: int, error: AuthError) -> bool {
    &&& 0 <= index < backends.len()
    &&& backend_auth_error(backends[index]) == Some(error)
    &&& forall|j: int| 0 <= j < index ==> backend_auth_error(#[trigger] backends[j]) is None
}

/// Whether the proxy can start with a configuration: its refresh interval is
/// positive and every configured authentication can be put in a header.
pub open spec fn config_valid(config: ConfigView) -> bool {
    &&& config.refresh_interval > 0
    &&& forall|j: int| 0 <= j < config.backends.len() ==> backend_auth_error(#[trigger] config.backends[j]) is None
}

impl Config {
    /// Checks a configuration before the proxy starts. A zero refresh
    /// interval is reported first, then the first backend, in configuration
    /// order, whose authentication cannot be put in a header.
    pub fn validate(&self) -> (r: Result<(), ConfigError>)
        ensures
            match r {
                Ok(_) => config_valid(self@),
                Err(ConfigError::ZeroRefreshInterval) => self@.refresh_interval == 0,
                Err(ConfigError::BackendAuth { index, error }) => self@.refresh_interval > 0 && first_auth_error(
                    self@.backends,
                    index as int,
                    error,
                ),
            },
    {
        if self.refresh_interval == 0 {
            return Err(ConfigError::ZeroRefreshInterval);
        }
        let ghost views = self@.backends;
        let mut i: usize = 0;
        while i < self.backends.len()
            invariant
                i <= self.backends.len(),
                self.refresh_interval > 0,
                views == self@.backends,
                forall|j: int| 0 <= j < i ==> backend_auth_error(#[trigger] views[j]) is None,
            decreases self.backends.len() - i,
        {
            assert(views[i as int] == self.backends[i as int]@);
            match &self.backends[i].auth {
                None => {},
                Some(auth) => match check_auth(auth) {
                    Ok(_) => {},
                    Err(error) => {
                        return Err(ConfigError::BackendAuth { index: i, error });
                    },
                },
            }
            i = i + 1;
        }
        Ok(())
    }
}

/// The extension of a path, as `std::path::Path::extension` gives it.
pub uninterp spec fn path_extension(path: Seq<char>) -> Option<Seq<char>>;

/// The file stem of a path, as `std::path::Path::file_stem` gives it.
pub uninterp spec fn path_file_stem(path: Seq<char>) -> Option<Seq<char>>;

/// `std::path::Path::extension` of a path given as text. Assumed: on the
/// platform the library is built for, the extension depends on the text of the
/// path alone.
#[verifier::external_body]
fn extension_of(path: &str) -> (r: Option<String>)
    ensures
        match r {
            Some(extension) => path_extension(path@) == Some(extension@),
            None => path_extension(path@) is None,
        },
{
    let extension = std::path::Path::new(path).extension()?;
    Some(extension.to_str()?.to_owned())
}

/// `std::path::Path::file_stem` of a path given as text. Assumed: on the
/// platform the library is built for, the stem depends on the text of the path
/// alone.
#[verifier::external_body]
fn file_stem_of(path: &str) -> (r: Option<String>)
    ensures
        match r {
            Some(stem) => path_file_stem(path@) == Some(stem@),
            None => path_file_stem(path@) is None,
        },
{
    let stem = std::path::Path::new(path).file_stem()?;
    Some(stem.to_str()?.to_owned())
}

/// Whether a file with this extension may hold the configuration: a path
/// without an extension may, and so may `yml` and `yaml`.
pub open spec fn extension_accepted(extension: Option<Seq<char>>) -> bool {
    match extension {
        None => true,
        Some(e) => e == "yml"@ || e == "yaml"@,
    }
}

/// Whether a path is read as a configuration file at all.
pub open spec fn is_config_path(path: Seq<char>) -> bool {
    extension_accepted(path_extension(path))
}

/// The paths tried for a configuration named `filename` whose file stem is
/// `stem`, in order: the name as given, then the stem with `.yml`, then the
/// stem with `.yaml`. A name without a stem is tried alone.
pub open spec fn candidates_for(filename: Seq<char>, stem: Option<Seq<char>>) -> Seq<Seq<char>> {
    match stem {
        None => seq![filename],
        Some(s) => seq![filename, s + "."@ + "yml"@, s + "."@ + "yaml"@],
    }
}

/// The paths tried for a configuration named `filename`, in order.
pub open spec fn config_candidates(filename: Seq<char>) -> Seq<Seq<char>> {
    candidates_for(filename, path_file_stem(filename))
}

/// The texts of a sequence of paths, in the same order.
pub open spec fn path_views(paths: Seq<String>) -> Seq<Seq<char>> {
    paths.map_values(|p: String| p@)
}

/// Whether a file with this extension may hold the configuration; see
/// [`extension_accepted`].
pub fn accepts_extension(extension: Option<String>) -> (r: bool)
    ensures
        r == extension_accepted(
            match extension {
                Some(e) => Some(e@),
                None => None,
            },
        ),
{
    match extension {
        None => true,
        Some(e) => e == String::from_str("yml") || e == String::from_str("yaml"),
    }
}

/// Whether a path is read as a configuration file at all; see
/// [`is_config_path`].
pub fn has_config_extension(path: &str) -> (r: bool)
    ensures
        r == is_config_path(path@),
{
    accepts_extension(extension_of(path))
}

/// The paths tried for a configuration named `filename` whose file stem is
/// `stem`; see [`candidates_for`].
pub fn candidates_from(filename: &str, stem: Option<String>) -> (r: Vec<String>)
    ensures
        path_views(r@) == candidates_for(
            filename@,
            match stem {
                Some(s) => Some(s@),
                None => None,
            },
        ),
{
    let mut paths: Vec<String> = Vec::new();
    paths.push(String::from_str(filename));
    match stem {
        None => {},
        Some(stem) => {
            let mut yml = stem.clone();
            yml.append(".");
            yml.append("yml");
            let mut yaml = stem;
            yaml.append(".");
            yaml.append("yaml");
            paths.push(yml);
            paths.push(yaml);
        },
    }
    proof {
        assert(path_views(paths@) =~= candidates_for(
            filename@,
            match stem {
                Some(s) => Some(s@),
                None => None,
            },
        ));
    }
    paths
}

/// The paths tried for a configuration named `filename`, in order; see
/// [`config_candidates`].
pub fn candidate_paths(filename: &str) -> (r: Vec<String>)
    ensures
        path_views(r@) == config_candidates(filename@),
{
    candidates_from(filename, file_stem_of(filename))
}

/// Whether the candidate at `index` gave a configuration: it is read as a
/// configuration file at all, and reading it gave one. `attempts[i]` is what
/// reading the `i`-th candidate gave.
pub open spec fn candidate_loaded(candidates: Seq<Seq<char>>, attempts: Seq<Option<Config>>, index: int) -> bool {
    &&& 0 <= index < candidates.len()
    &&& index < attempts.len()
    &&& is_config_path(candidates[index])
    &&& attempts[index] is Some
}

/// Whether some candidate gave a configuration.
pub open spec fn some_loaded(candidates: Seq<Seq<char>>, attempts: Seq<Option<Config>>) -> bool {
    exists|i: int| candidate_loaded(candidates, attempts, i)
}

/// Whether the candidate at `index` is the first that gave a configuration.
pub open spec fn first_loaded(candidates: Seq<Seq<char>>, attempts: Seq<Option<Config>>, index: int) -> bool {
    &&& candidate_loaded(candidates, attempts, index)
    &&& forall|j: int| 0 <= j < index ==> !candidate_loaded(candidates, attempts, j)
}

/// Whether `config` is what the first candidate that gave a configuration
/// gave.
pub open spec fn loaded_first(candidates: Seq<Seq<char>>, attempts: Seq<Option<Config>>, config: Config) -> bool {
    exists|i: int| first_loaded(candidates, attempts, i) && attempts[i] == Some(config)
}

/// Loads the configuration named `filename` from what reading its candidates
/// gave.
///
/// `attempts[i]` is what reading and parsing the `i`-th path of
/// [`config_candidates`] gave, `None` for a file that is missing or does not
/// hold a configuration. The result is the configuration of the first
/// candidate that gave one; what was read from a candidate whose extension is
/// neither `yml` nor `yaml` is passed over. Some candidate must have given a
/// configuration: without one the proxy does not start.
pub fn load_config(filename: &str, attempts: Vec<Option<Config>>) -> (r: Config)
    requires
        some_loaded(config_candidates(filename@), attempts@),
    ensures
        loaded_first(config_candidates(filename@), attempts@, r),
{
    let paths = candidate_paths(filename);
    let ghost candidates = config_candidates(filename@);
    let ghost found = choose|i: int| candidate_loaded(candidates, attempts@, i);
    let mut given = attempts;
    let mut i: usize = 0;
    loop
        invariant
            candidates == path_views(paths@),
            candidates == config_candidates(filename@),
            given@ == attempts@,
            candidate_loaded(candidates, attempts@, found),
            i <= found,
            forall|j: int| 0 <= j < i ==> !candidate_loaded(candidates, attempts@, j),
        decreases found - i,
    {
        assert(candidates[i as int] == paths[i as int]@);
        if given[i].is_some() && has_config_extension(paths[i].as_str()) {
            assert(first_loaded(candidates, attempts@, i as int));
            return given.swap_remove(i).unwrap();
        }
        i = i + 1;
    }
}

/// Whether some candidate gave a configuration; see [`some_loaded`].
fn any_loaded(filename: &str, attempts: &Vec<Option<Config>>) -> (r: bool)
    ensures
        r == some_loaded(config_candidates(filename@), attempts@),
{
    let paths = candidate_paths(filename);
    let ghost candidates = config_candidates(filename@);
    let mut i: usize = 0;
    while i < paths.len() && i < attempts.len()
        invariant
            candidates == path_views(paths@),
            candidates == config_candidates(filename@),
            forall|j: int| 0 <= j < i ==> !candidate_loaded(candidates, attempts@, j),
        decreases paths.len() - i,
    {
        assert(candidates[i as int] == paths[i as int]@);
        if attempts[i].is_some() && has_config_extension(paths[i].as_str()) {
            assert(candidate_loaded(candidates, attempts@, i as int));
            return true;
        }
        i = i + 1;
    }
    false
}

/// Looks for the configuration named `filename` in what reading its
/// candidates gave: [`load_config`] where some candidate gave a
/// configuration, `None` where none did.
pub fn find_config(filename: &str, attempts: Vec<Option<Config>>) -> (r: Option<Config>)
    ensures
        match r {
            Some(config) => loaded_first(config_candidates(filename@), attempts@, config),
            None => !some_loaded(config_candidates(filename@), attempts@),
        },
{
    if any_loaded(filename, &attempts) {
        Some(load_config(filename, attempts))
    } else {
        None
    }
}

} // verus!
