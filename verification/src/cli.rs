//! What the command line asks for, and what follows from it.
//!
//! Argument parsing and the file system are the caller's. This module holds
//! the parsed arguments as plain values and decides from them, from the
//! configuration file's values and from what the caller found on disk: which
//! repository to open, which settings apply, and which commit to show first.

use crate::text::chars_equal;
use crate::text::str_chars;
use vstd::prelude::*;

verus! {

/// The order in which commits are played.
#[derive(Debug, Clone, Copy, PartialEq, Eq, Structural)]
pub enum PlaybackOrder {
    Random,
    Asc,
    Desc,
}

/// Theme management commands.
#[derive(Debug, Clone, PartialEq, Eq)]
pub enum ThemeCommands {
    /// List all available themes.
    List,
    /// Set the default theme in the configuration file.
    SetDefault { name: String },
}

/// Subcommands.
#[derive(Debug, Clone, PartialEq, Eq)]
pub enum Commands {
    Theme { command: ThemeCommands },
}

/// The parsed command line.
#[derive(Debug, Clone, PartialEq, Eq)]
pub struct Args {
    /// Path to the repository; the current directory when absent.
    pub path: Option<String>,
    /// A commit to replay.
    pub commit: Option<String>,
    /// Typing speed in milliseconds per character.
    pub speed: Option<u64>,
    /// Name of the theme.
    pub theme: Option<String>,
    /// Whether background colors are shown.
    pub background: Option<bool>,
    /// Playback order.
    pub order: Option<PlaybackOrder>,
    /// Whether the animation loops.
    pub loop_playback: Option<bool>,
    /// Whether to print the third-party licenses and stop.
    pub license: bool,
    pub command: Option<Commands>,
}

/// The values of the configuration file.
#[derive(Debug, Clone, PartialEq, Eq)]
pub struct ConfigValues {
    pub theme: String,
    pub speed: u64,
    pub background: bool,
    /// `asc`, `desc`, or anything else for random order.
    pub order: String,
    pub loop_playback: bool,
}

/// The settings in force: the command line wins over the configuration file.
#[derive(Debug, Clone, PartialEq, Eq)]
pub struct Settings {
    pub theme: String,
    pub speed: u64,
    pub background: bool,
    pub order: PlaybackOrder,
    pub loop_playback: bool,
}

/// One directory on the way from the start path up to the root.
#[derive(Debug, Clone, PartialEq, Eq)]
pub struct DirProbe {
    pub path: String,
    /// Whether the directory holds an entry named `.git`.
    pub has_git: bool,
}

/// What the caller found on disk about the start path.
#[derive(Debug, Clone, PartialEq, Eq)]
pub struct PathProbe {
    /// Whether the start path exists.
    pub exists: bool,
    /// Whether the start path could be made absolute.
    pub resolved: bool,
    /// The directory of the start path and its ancestors, nearest first.
    pub ancestors: Vec<DirProbe>,
}

/// Why no repository was found.
#[derive(Debug, Clone, PartialEq, Eq)]
pub enum ValidateError {
    /// The start path does not exist.
    MissingPath { path: String },
    /// The start path could not be made absolute.
    Unresolved,
    /// Neither the start path nor any ancestor is a repository.
    NotARepository { path: String },
}

/// What to show first.
#[derive(Debug, Clone, PartialEq, Eq)]
pub enum FirstCommit {
    /// The commit named on the command line.
    Named(String),
    /// The next commit in the given order.
    InOrder(PlaybackOrder),
}

/// Index of the nearest directory that holds `.git`, or the number of
/// directories when none does.
pub open spec fn first_with_git(dirs: Seq<DirProbe>) -> nat
    decreases dirs.len(),
{
    if dirs.len() == 0 || dirs[0].has_git {
        0
    } else {
        1 + first_with_git(dirs.drop_first())
    }
}

proof fn lemma_first_with_git(dirs: Seq<DirProbe>, n: int)
    requires
        0 <= n <= dirs.len(),
        forall|k: int| 0 <= k < n ==> !dirs[k].has_git,
        n < dirs.len() ==> dirs[n].has_git,
    ensures
        first_with_git(dirs) == n,
    decreases n,
{
    if n > 0 {
        let rest = dirs.drop_first();
        assert forall|k: int| 0 <= k < n - 1 implies !rest[k].has_git by {
            assert(rest[k] == dirs[k + 1]);
        }
        assert(!dirs[0].has_git);
        lemma_first_with_git(rest, n - 1);
    }
}

pub open spec fn text_or(text: Option<String>, default: Seq<char>) -> Seq<char> {
    match text {
        Some(t) => t@,
        None => default,
    }
}

impl PlaybackOrder {
    /// The order a configuration value names: `asc`, `desc`, or random for
    /// anything else.
    pub open spec fn of_config(value: Seq<char>) -> PlaybackOrder {
        if value == "asc"@ {
            PlaybackOrder::Asc
        } else if value == "desc"@ {
            PlaybackOrder::Desc
        } else {
            PlaybackOrder::Random
        }
    }

    /// Reads the order from a configuration value.
    pub fn from_config(value: &str) -> (res: PlaybackOrder)
        ensures
            res == PlaybackOrder::of_config(value@),
    {
        let chars = str_chars(value);
        if chars_equal(&chars, &str_chars("asc")) {
            PlaybackOrder::Asc
        } else if chars_equal(&chars, &str_chars("desc")) {
            PlaybackOrder::Desc
        } else {
            PlaybackOrder::Random
        }
    }
}

impl Default for PlaybackOrder {
    fn default() -> (res: PlaybackOrder)
        ensures
            res == PlaybackOrder::Random,
    {
        PlaybackOrder::Random
    }
}

impl ValidateError {
    /// A human-readable message for the error.
    pub fn message(&self) -> (res: String)
        ensures
            self is MissingPath ==> res@ == "Path does not exist: "@ + self->MissingPath_path@,
            self is Unresolved ==> res@ == "Failed to resolve path"@,
            self is NotARepository ==> res@ == "Not a Git repository: "@
                + self->NotARepository_path@ + " (or any parent directories)"@,
    {
        match self {
            ValidateError::MissingPath { path } => {
                let mut out = "Path does not exist: ".to_owned();
                out.append(path.as_str());
                out
            },
            ValidateError::Unresolved => "Failed to resolve path".to_owned(),
            ValidateError::NotARepository { path } => {
                let mut out = "Not a Git repository: ".to_owned();
                out.append(path.as_str());
                out.append(" (or any parent directories)");
                out
            },
        }
    }
}

impl Args {
    /// The path from which the repository is searched: the one given, or the
    /// current directory.
    pub open spec fn start(self) -> Seq<char> {
        text_or(self.path, "."@)
    }

    /// The path from which the repository is searched.
    pub fn start_path(&self) -> (res: String)
        ensures
            res@ == self.start(),
    {
        match &self.path {
            Some(p) => p.clone(),
            None => ".".to_owned(),
        }
    }

    /// The nearest directory that holds `.git`, walking from the start
    /// directory upward.
    pub fn find_git_root(ancestors: &Vec<DirProbe>) -> (res: Option<String>)
        ensures
            first_with_git(ancestors@) < ancestors.len() ==> res is Some && res->Some_0@
                == ancestors[first_with_git(ancestors@) as int].path@,
            first_with_git(ancestors@) >= ancestors.len() ==> res is None,
    {
        let mut i: usize = 0;
        while i < ancestors.len()
            invariant
                i <= ancestors.len(),
                forall|k: int| 0 <= k < i ==> !ancestors[k].has_git,
            decreases ancestors.len() - i,
        {
            if ancestors[i].has_git {
                proof {
                    lemma_first_with_git(ancestors@, i as int);
                }
                return Some(ancestors[i].path.clone());
            }
            i += 1;
        }
        proof {
            lemma_first_with_git(ancestors@, i as int);
        }
        None
    }

    /// The root of the repository to open, given what was found on disk. The
    /// start path must exist and resolve, and it or one of its ancestors
    /// must hold `.git`.
    pub fn validate(&self, probe: &PathProbe) -> (res: Result<String, ValidateError>)
        ensures
            !probe.exists ==> res is Err && res->Err_0 is MissingPath
                && res->Err_0->MissingPath_path@ == self.start(),
            probe.exists && !probe.resolved ==> res is Err && res->Err_0 is Unresolved,
            probe.exists && probe.resolved && first_with_git(probe.ancestors@)
                >= probe.ancestors.len() ==> res is Err && res->Err_0 is NotARepository
                && res->Err_0->NotARepository_path@ == self.start(),
            probe.exists && probe.resolved && first_with_git(probe.ancestors@)
                < probe.ancestors.len() ==> res is Ok && res->Ok_0@
                == probe.ancestors[first_with_git(probe.ancestors@) as int].path@,
    {
        if !probe.exists {
            return Err(ValidateError::MissingPath { path: self.start_path() });
        }
        if !probe.resolved {
            return Err(ValidateError::Unresolved);
        }
        match Args::find_git_root(&probe.ancestors) {
            Some(root) => Ok(root),
            None => Err(ValidateError::NotARepository { path: self.start_path() }),
        }
    }

    /// The settings in force: each value of the command line, or else of the
    /// configuration file.
    pub fn settings(&self, config: &ConfigValues) -> (res: Settings)
        ensures
            res.theme@ == text_or(self.theme, config.theme@),
            res.speed == if self.speed is Some {
                self.speed->Some_0
            } else {
                config.speed
            },
            res.background == if self.background is Some {
                self.background->Some_0
            } else {
                config.background
            },
            res.order == if self.order is Some {
                self.order->Some_0
            } else {
                PlaybackOrder::of_config(config.order@)
            },
            res.loop_playback == if self.loop_playback is Some {
                self.loop_playback->Some_0
            } else {
                config.loop_playback
            },
    {
        Settings {
            theme: match &self.theme {
                Some(t) => t.clone(),
                None => config.theme.clone(),
            },
            speed: match self.speed {
                Some(s) => s,
                None => config.speed,
            },
            background: match self.background {
                Some(b) => b,
                None => config.background,
            },
            order: match self.order {
                Some(o) => o,
                None => PlaybackOrder::from_config(config.order.as_str()),
            },
            loop_playback: match self.loop_playback {
                Some(l) => l,
                None => config.loop_playback,
            },
        }
    }

    /// What to show first: the commit named on the command line, or else
    /// the next commit in the given order.
    pub fn first_commit(&self, order: PlaybackOrder) -> (res: FirstCommit)
        ensures
            self.commit is Some ==> res is Named && res->Named_0@ == self.commit->Some_0@,
            self.commit is None ==> res == FirstCommit::InOrder(order),
    {
        match &self.commit {
            Some(hash) => FirstCommit::Named(hash.clone()),
            None => FirstCommit::InOrder(order),
        }
    }

    /// Whether playback goes on after the first commit and so needs the
    /// repository: always, unless a single commit is replayed once.
    pub fn keeps_repository(&self, loop_playback: bool) -> (res: bool)
        ensures
            res == !(self.commit is Some && !loop_playback),
    {
        !(self.commit.is_some() && !loop_playback)
    }
}

} // verus!
