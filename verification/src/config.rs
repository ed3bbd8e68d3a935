//! The configuration record that the surrounding binary loads and hands to
//! the core: the remote root, an optional home override, and the ordered
//! list of tracked files.

use vstd::prelude::*;

verus! {

/// One tracked file: its local path (relative to the home directory unless
/// absolute) and, optionally, its path relative to the remote root.
#[derive(Debug, Clone)]
pub struct Dotfile {
    pub local_path: String,
    pub remote_path: Option<String>,
}

/// The mathematical form of a tracked-file descriptor.
pub ghost struct DotfileView {
    pub local_path: Seq<char>,
    pub remote_path: Option<Seq<char>>,
}

impl View for Dotfile {
    type V = DotfileView;

    open spec fn view(&self) -> DotfileView {
        DotfileView {
            local_path: self.local_path@,
            remote_path: self.remote_path.deep_view(),
        }
    }
}

impl DeepView for Dotfile {
    type V = DotfileView;

    open spec fn deep_view(&self) -> DotfileView {
        self@
    }
}

/// The ordered list of tracked files.
#[derive(Debug, Clone)]
pub struct Dotfiles(pub Vec<Dotfile>);

impl View for Dotfiles {
    type V = Seq<DotfileView>;

    open spec fn view(&self) -> Seq<DotfileView> {
        self.0.deep_view()
    }
}

impl Dotfiles {
    /// An empty list of tracked files.
    pub fn new() -> (r: Self)
        ensures
            r@ == Seq::<DotfileView>::empty(),
    {
        let v: Vec<Dotfile> = Vec::new();
        proof {
            assert(v.deep_view() =~= Seq::<DotfileView>::empty());
        }
        Dotfiles(v)
    }

    /// Whether no file is tracked.
    pub fn is_empty(&self) -> (r: bool)
        ensures
            r == (self@.len() == 0),
    {
        self.0.len() == 0
    }

    /// Appends one tracked file at the end of the list.
    pub fn push(&mut self, d: Dotfile)
        ensures
            final(self)@ == old(self)@.push(d@),
    {
        let ghost prior = self.0.deep_view();
        self.0.push(d);
        proof {
            assert(self.0.deep_view() =~= prior.push(d@));
        }
    }
}

/// The configuration record: the remote root path (required), an optional
/// home-directory override, and the tracked files in order.
#[derive(Debug, Clone)]
pub struct Config {
    pub remote_path: String,
    pub home_path: Option<String>,
    pub files: Dotfiles,
}

/// The mathematical form of a configuration record.
pub ghost struct ConfigView {
    pub remote_path: Seq<char>,
    pub home_path: Option<Seq<char>>,
    pub files: Seq<DotfileView>,
}

impl View for Config {
    type V = ConfigView;

    open spec fn view(&self) -> ConfigView {
        ConfigView {
            remote_path: self.remote_path@,
            home_path: self.home_path.deep_view(),
            files: self.files@,
        }
    }
}

/// A fatal configuration fault, found before any file is classified.
#[derive(Debug, Clone, Copy, PartialEq, Eq, Structural)]
pub enum ConfigError {
    /// A relative path had to be resolved against a home directory, but no
    /// home directory is known.
    NoHomePath,
    /// A tracked file names no remote path and its local path has no usable
    /// basename to derive one from.
    NoRemotePath,
}

/// The message that a configuration fault is reported with.
pub open spec fn config_error_text(e: ConfigError) -> Seq<char> {
    match e {
        ConfigError::NoHomePath => "failed to determine `HOME` path"@,
        ConfigError::NoRemotePath => "failed to determine remote path"@,
    }
}

impl ConfigError {
    /// The human-readable message for this fault.
    pub fn message(&self) -> (r: String)
        ensures
            r@ == config_error_text(*self),
    {
        match self {
            ConfigError::NoHomePath => "failed to determine `HOME` path".to_owned(),
            ConfigError::NoRemotePath => "failed to determine remote path".to_owned(),
        }
    }
}

} // verus!
