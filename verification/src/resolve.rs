//! The path resolver: turns each tracked file's configured short paths into
//! the two absolute locations that are compared and synced.
//!
//! The remote root is resolved once per run: kept as-is when absolute, else
//! joined onto the home directory. Each tracked file's local path follows
//! the same rule, and its remote short path is either the configured one or
//! the basename of the local path. The home directory is the configured
//! override when present, else the value of the `HOME` environment variable
//! that the surrounding binary hands in; the core itself never reads the
//! environment.

use vstd::prelude::*;
use vstd::string::*;

use crate::config::{Config, ConfigError, ConfigView, DotfileView, Dotfile};
use crate::paths::{basename, basename_of, is_absolute, is_absolute_path, join_paths, joined};

verus! {

/// A tracked file with both locations resolved: the display (short) and
/// absolute (full) path of each side. Immutable once constructed.
#[derive(Debug, Clone, PartialEq, Eq)]
pub struct ResolvedDotfile {
    pub local_short: String,
    pub local_full: String,
    pub remote_short: String,
    pub remote_full: String,
}

/// The mathematical form of a resolved tracked file.
pub ghost struct ResolvedDotfileView {
    pub local_short: Seq<char>,
    pub local_full: Seq<char>,
    pub remote_short: Seq<char>,
    pub remote_full: Seq<char>,
}

impl View for ResolvedDotfile {
    type V = ResolvedDotfileView;

    open spec fn view(&self) -> ResolvedDotfileView {
        ResolvedDotfileView {
            local_short: self.local_short@,
            local_full: self.local_full@,
            remote_short: self.remote_short@,
            remote_full: self.remote_full@,
        }
    }
}

impl DeepView for ResolvedDotfile {
    type V = ResolvedDotfileView;

    open spec fn deep_view(&self) -> ResolvedDotfileView {
        self@
    }
}

/// The home directory a run works with: the configured override when
/// present, else the environment-derived value.
pub open spec fn effective_home(
    config_home: Option<Seq<char>>,
    env_home: Option<Seq<char>>,
) -> Option<Seq<char>> {
    if config_home is Some {
        config_home
    } else {
        env_home
    }
}

/// The resolved remote root: the configured remote path as-is when
/// absolute, else joined onto the home directory; without a home directory
/// a relative remote path is a configuration fault.
pub open spec fn resolved_root(remote_path: Seq<char>, home: Option<Seq<char>>) -> Result<
    Seq<char>,
    ConfigError,
> {
    if is_absolute_path(remote_path) {
        Ok(remote_path)
    } else {
        match home {
            Some(h) => Ok(joined(h, remote_path)),
            None => Err(ConfigError::NoHomePath),
        }
    }
}

/// One tracked file resolved against the home directory and remote root.
///
/// The remote short path is the configured one when present, else the
/// basename of the local path; a local path without a basename (a directory
/// path) is a fault. The local full path is the local path as-is when
/// absolute, else joined onto the home directory, which must then be known.
pub open spec fn resolved_dotfile(
    d: DotfileView,
    home: Option<Seq<char>>,
    root: Seq<char>,
) -> Result<ResolvedDotfileView, ConfigError> {
    let short = match d.remote_path {
        Some(rp) => Ok(rp),
        None => match basename_of(d.local_path) {
            Some(b) => Ok(b),
            None => Err(ConfigError::NoRemotePath),
        },
    };
    match short {
        Err(e) => Err(e),
        Ok(rshort) => {
            let full = if is_absolute_path(d.local_path) {
                Ok(d.local_path)
            } else {
                match home {
                    Some(h) => Ok(joined(h, d.local_path)),
                    None => Err(ConfigError::NoHomePath),
                }
            };
            match full {
                Err(e) => Err(e),
                Ok(lfull) => Ok(
                    ResolvedDotfileView {
                        local_short: d.local_path,
                        local_full: lfull,
                        remote_short: rshort,
                        remote_full: joined(root, rshort),
                    },
                ),
            }
        },
    }
}

/// The tracked files resolved in configuration order; the first fault, if
/// any, is the result.
pub open spec fn resolved_files(
    files: Seq<DotfileView>,
    home: Option<Seq<char>>,
    root: Seq<char>,
) -> Result<Seq<ResolvedDotfileView>, ConfigError>
    decreases files.len(),
{
    if files.len() == 0 {
        Ok(Seq::empty())
    } else {
        match resolved_files(files.drop_last(), home, root) {
            Err(e) => Err(e),
            Ok(rest) => match resolved_dotfile(files.last(), home, root) {
                Err(e) => Err(e),
                Ok(r) => Ok(rest.push(r)),
            },
        }
    }
}

/// The whole configuration resolved: the remote root first, then each
/// tracked file in order.
pub open spec fn resolved_config(c: ConfigView, env_home: Option<Seq<char>>) -> Result<
    Seq<ResolvedDotfileView>,
    ConfigError,
> {
    let home = effective_home(c.home_path, env_home);
    match resolved_root(c.remote_path, home) {
        Err(e) => Err(e),
        Ok(root) => resolved_files(c.files, home, root),
    }
}

/// A fault in a prefix of the file list is the fault of the whole list.
proof fn lemma_resolved_files_error_persists(
    files: Seq<DotfileView>,
    home: Option<Seq<char>>,
    root: Seq<char>,
    i: int,
)
    requires
        0 <= i <= files.len(),
        resolved_files(files.take(i), home, root) is Err,
    ensures
        resolved_files(files, home, root) == resolved_files(files.take(i), home, root),
    decreases files.len(),
{
    if i == files.len() {
        assert(files.take(i) =~= files);
    } else {
        assert(files.len() > 0);
        assert(files.drop_last().take(i) =~= files.take(i));
        lemma_resolved_files_error_persists(files.drop_last(), home, root, i);
    }
}

/// The resolved remote root, following `resolved_root`.
fn resolve_root(remote_path: &String, home: &Option<String>) -> (r: Result<String, ConfigError>)
    ensures
        match r {
            Ok(root) => resolved_root(remote_path@, home.deep_view()) == Ok::<_, ConfigError>(
                root@,
            ),
            Err(e) => resolved_root(remote_path@, home.deep_view()) == Err::<Seq<char>, _>(e),
        },
{
    if is_absolute(remote_path.as_str()) {
        Ok(remote_path.clone())
    } else {
        match home {
            Some(h) => Ok(join_paths(h.as_str(), remote_path.as_str())),
            None => Err(ConfigError::NoHomePath),
        }
    }
}

/// One tracked file resolved, following `resolved_dotfile`.
fn resolve_dotfile(d: &Dotfile, home: &Option<String>, root: &String) -> (r: Result<
    ResolvedDotfile,
    ConfigError,
>)
    ensures
        match r {
            Ok(rd) => resolved_dotfile(d@, home.deep_view(), root@) == Ok::<_, ConfigError>(rd@),
            Err(e) => resolved_dotfile(d@, home.deep_view(), root@) == Err::<
                ResolvedDotfileView,
                _,
            >(e),
        },
{
    let remote_short: String = match &d.remote_path {
        Some(rp) => rp.clone(),
        None => match basename(d.local_path.as_str()) {
            Some(b) => b,
            None => {
                return Err(ConfigError::NoRemotePath);
            },
        },
    };
    let local_full: String = if is_absolute(d.local_path.as_str()) {
        d.local_path.clone()
    } else {
        match home {
            Some(h) => join_paths(h.as_str(), d.local_path.as_str()),
            None => {
                return Err(ConfigError::NoHomePath);
            },
        }
    };
    let remote_full = join_paths(root.as_str(), remote_short.as_str());
    Ok(
        ResolvedDotfile {
            local_short: d.local_path.clone(),
            local_full,
            remote_short,
            remote_full,
        },
    )
}

/// Resolves the whole configuration: the remote root once, then each
/// tracked file in configuration order, stopping at the first fault.
///
/// `env_home` is the `HOME` value of the environment, read and handed in by
/// the surrounding binary; the configured `home_path` takes precedence.
pub fn resolve_config(config: &Config, env_home: &Option<String>) -> (r: Result<
    Vec<ResolvedDotfile>,
    ConfigError,
>)
    ensures
        match r {
            Ok(v) => resolved_config(config@, env_home.deep_view()) == Ok::<_, ConfigError>(
                v.deep_view(),
            ),
            Err(e) => resolved_config(config@, env_home.deep_view()) == Err::<
                Seq<ResolvedDotfileView>,
                _,
            >(e),
        },
{
    let home: Option<String> = match &config.home_path {
        Some(h) => Some(h.clone()),
        None => match env_home {
            Some(h) => Some(h.clone()),
            None => None,
        },
    };
    proof {
        assert(home.deep_view() == effective_home(
            config.home_path.deep_view(),
            env_home.deep_view(),
        ));
    }
    let root: String = match resolve_root(&config.remote_path, &home) {
        Ok(root) => root,
        Err(e) => {
            return Err(e);
        },
    };
    let ghost files = config.files@;
    let mut out: Vec<ResolvedDotfile> = Vec::new();
    let mut i: usize = 0;
    let n: usize = config.files.0.len();
    proof {
        assert(out.deep_view() =~= Seq::<ResolvedDotfileView>::empty());
        assert(files.take(0) =~= Seq::<DotfileView>::empty());
    }
    while i < n
        invariant
            i <= n,
            n == files.len(),
            files == config.files@,
            home.deep_view() == effective_home(config@.home_path, env_home.deep_view()),
            resolved_root(config@.remote_path, home.deep_view()) == Ok::<_, ConfigError>(root@),
            resolved_files(files.take(i as int), home.deep_view(), root@) == Ok::<
                _,
                ConfigError,
            >(out.deep_view()),
        decreases n - i,
    {
        let ghost prior = out.deep_view();
        match resolve_dotfile(&config.files.0[i], &home, &root) {
            Ok(rd) => {
                out.push(rd);
                proof {
                    assert(files.take(i + 1).drop_last() =~= files.take(i as int));
                    assert(files.take(i + 1).last() == files[i as int]);
                    assert(out.deep_view() =~= prior.push(out.deep_view().last()));
                }
            },
            Err(e) => {
                proof {
                    assert(files.take(i + 1).drop_last() =~= files.take(i as int));
                    assert(files.take(i + 1).last() == files[i as int]);
                    assert(resolved_files(files.take(i + 1), home.deep_view(), root@)
                        == Err::<Seq<ResolvedDotfileView>, _>(e));
                    lemma_resolved_files_error_persists(
                        files,
                        home.deep_view(),
                        root@,
                        i + 1,
                    );
                }
                return Err(e);
            },
        }
        i = i + 1;
    }
    proof {
        assert(files.take(n as int) =~= files);
    }
    Ok(out)
}

} // verus!
