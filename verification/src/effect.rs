//! The vocabulary in which the library and its caller talk.
//!
//! A step function returns an [`Effect`] for the caller to perform and takes
//! the [`Reply`] on its next call. Nothing here touches the disk or starts a
//! process.

use crate::record::{CrateVersion, CrateVersionView};
use vstd::prelude::*;
use vstd::string::*;

verus! {

/// One run of `git`.
#[derive(Debug, Clone, PartialEq, Eq)]
pub struct GitCommand {
    /// The directory to run in, where it matters.
    pub dir: Option<String>,
    /// The repository to act on, passed as `--git-dir` before `args`.
    pub git_dir: Option<String>,
    /// Whether author and committer are set to the library's own identity.
    pub identity: bool,
    /// Whether prompts for credentials are answered by `true`, so that `git`
    /// fails rather than waits.
    pub askpass: bool,
    /// The arguments, beginning with the subcommand.
    pub args: Vec<String>,
}

/// What a [`GitCommand`] holds.
pub struct GitCommandView {
    pub dir: Option<Seq<char>>,
    pub git_dir: Option<Seq<char>>,
    pub identity: bool,
    pub askpass: bool,
    pub args: Seq<Seq<char>>,
}

impl View for GitCommand {
    type V = GitCommandView;

    open spec fn view(&self) -> GitCommandView {
        GitCommandView {
            dir: self.dir.deep_view(),
            git_dir: self.git_dir.deep_view(),
            identity: self.identity,
            askpass: self.askpass,
            args: self.args.deep_view(),
        }
    }
}

impl GitCommandView {
    /// A run on the repository at `git_dir`, under the library's identity and
    /// without prompts.
    pub open spec fn on_repository(git_dir: Seq<char>, args: Seq<Seq<char>>) -> GitCommandView {
        GitCommandView { dir: None, git_dir: Some(git_dir), identity: true, askpass: true, args }
    }

    /// A run in the directory `dir`.
    pub open spec fn in_directory(
        dir: Seq<char>,
        identity: bool,
        askpass: bool,
        args: Seq<Seq<char>>,
    ) -> GitCommandView {
        GitCommandView { dir: Some(dir), git_dir: None, identity, askpass, args }
    }

    /// A run that depends on no directory.
    pub open spec fn anywhere(askpass: bool, args: Seq<Seq<char>>) -> GitCommandView {
        GitCommandView { dir: None, git_dir: None, identity: false, askpass, args }
    }
}

/// The name under which the library commits.
pub const IDENTITY_NAME: &'static str = "LTS";

/// The address under which the library commits.
pub const IDENTITY_EMAIL: &'static str = "lts@lib.rs";

/// A run of `git` on the repository at `git_dir`, under the library's
/// identity and without prompts.
pub fn git(git_dir: &str, args: Vec<String>) -> (command: GitCommand)
    ensures
        command@ == GitCommandView::on_repository(git_dir@, args.deep_view()),
{
    GitCommand {
        dir: None,
        git_dir: Some(String::from_str(git_dir)),
        identity: true,
        askpass: true,
        args,
    }
}

/// A run of `git` in the directory `dir`.
pub fn git_in(dir: &str, identity: bool, askpass: bool, args: Vec<String>) -> (command: GitCommand)
    ensures
        command@ == GitCommandView::in_directory(dir@, identity, askpass, args.deep_view()),
{
    GitCommand { dir: Some(String::from_str(dir)), git_dir: None, identity, askpass, args }
}

/// A run of `git` that depends on no directory.
pub fn git_anywhere(askpass: bool, args: Vec<String>) -> (command: GitCommand)
    ensures
        command@ == GitCommandView::anywhere(askpass, args.deep_view()),
{
    GitCommand { dir: None, git_dir: None, identity: false, askpass, args }
}

/// Something for the caller to do before the next step.
#[derive(Debug, Clone, PartialEq, Eq)]
pub enum Effect {
    /// Run `git`; reply `Done` with its trimmed output, `Failed` with what it
    /// wrote to standard error if it exits non-zero.
    Git(GitCommand),
    /// Create a directory and its parents.
    MakeDirs(String),
    /// Delete a directory and all below it.
    RemoveTree(String),
    /// Rename a directory.
    Rename { from: String, to: String },
    /// Create the symbolic link `link` that points at `target`.
    Symlink { target: String, link: String },
    /// Make a path absolute and free of links; reply `Done` with it.
    Resolve(String),
    /// Reply `Found` with whether the path exists.
    Probe(String),
    /// Reply `Bytes` with the whole file.
    Read(String),
    /// Replace the whole file.
    Write { path: String, content: Vec<u8> },
    /// Decode each line as a record; reply `Records`, `None` for a line that
    /// is no record.
    Decode(Vec<Vec<u8>>),
    /// Encode each record as one line; reply `Lines`.
    Encode(Vec<CrateVersion>),
}

/// What an [`Effect`] holds.
pub enum EffectView {
    Git(GitCommandView),
    MakeDirs(Seq<char>),
    RemoveTree(Seq<char>),
    Rename { from: Seq<char>, to: Seq<char> },
    Symlink { target: Seq<char>, link: Seq<char> },
    Resolve(Seq<char>),
    Probe(Seq<char>),
    Read(Seq<char>),
    Write { path: Seq<char>, content: Seq<u8> },
    Decode(Seq<Seq<u8>>),
    Encode(Seq<CrateVersionView>),
}

impl View for Effect {
    type V = EffectView;

    open spec fn view(&self) -> EffectView {
        match self {
            Effect::Git(command) => EffectView::Git(command@),
            Effect::MakeDirs(path) => EffectView::MakeDirs(path@),
            Effect::RemoveTree(path) => EffectView::RemoveTree(path@),
            Effect::Rename { from, to } => EffectView::Rename { from: from@, to: to@ },
            Effect::Symlink { target, link } => EffectView::Symlink {
                target: target@,
                link: link@,
            },
            Effect::Resolve(path) => EffectView::Resolve(path@),
            Effect::Probe(path) => EffectView::Probe(path@),
            Effect::Read(path) => EffectView::Read(path@),
            Effect::Write { path, content } => EffectView::Write {
                path: path@,
                content: content@,
            },
            Effect::Decode(lines) => EffectView::Decode(lines.deep_view()),
            Effect::Encode(records) => EffectView::Encode(records.deep_view()),
        }
    }
}

/// How the last effect went.
#[derive(Debug, Clone, PartialEq, Eq)]
pub enum Reply {
    /// It was done. The text is what it produced, empty where it produces
    /// none.
    Done(String),
    /// It ran and reported failure; the text is its diagnostic.
    Failed(String),
    /// It could not be carried out; the text says why.
    Fault(String),
    /// The answer to a `Probe`.
    Found(bool),
    /// The answer to a `Read`.
    Bytes(Vec<u8>),
    /// The answer to a `Decode`.
    Records(Vec<Option<CrateVersion>>),
    /// The answer to an `Encode`.
    Lines(Vec<Vec<u8>>),
}

/// What a [`Reply`] holds.
pub enum ReplyView {
    Done(Seq<char>),
    Failed(Seq<char>),
    Fault(Seq<char>),
    Found(bool),
    Bytes(Seq<u8>),
    Records(Seq<Option<CrateVersionView>>),
    Lines(Seq<Seq<u8>>),
}

impl View for Reply {
    type V = ReplyView;

    open spec fn view(&self) -> ReplyView {
        match self {
            Reply::Done(text) => ReplyView::Done(text@),
            Reply::Failed(text) => ReplyView::Failed(text@),
            Reply::Fault(text) => ReplyView::Fault(text@),
            Reply::Found(found) => ReplyView::Found(*found),
            Reply::Bytes(bytes) => ReplyView::Bytes(bytes@),
            Reply::Records(records) => ReplyView::Records(records.deep_view()),
            Reply::Lines(lines) => ReplyView::Lines(lines.deep_view()),
        }
    }
}

/// What a step function decides.
#[derive(Debug, Clone, PartialEq, Eq)]
pub enum Step<S, T> {
    /// Perform the effect, then call again in the given state with the reply.
    Run(S, Effect),
    /// The operation is complete.
    Done(T),
    /// The operation has failed; the text says why. Nothing further is to be
    /// done.
    Fail(String),
}

/// What a [`Step`] holds.
pub enum StepView<S, T> {
    Run(S, EffectView),
    Done(T),
    Fail(Seq<char>),
}

impl<S: View, T: View> View for Step<S, T> {
    type V = StepView<S::V, T::V>;

    open spec fn view(&self) -> StepView<S::V, T::V> {
        match self {
            Step::Run(state, effect) => StepView::Run(state@, effect@),
            Step::Done(value) => StepView::Done(value@),
            Step::Fail(text) => StepView::Fail(text@),
        }
    }
}

/// What is reported when a reply is of a kind that cannot answer the effect
/// that was asked for.
pub open spec fn stray_reply() -> Seq<char> {
    "reply does not answer the effect"@
}

impl ReplyView {
    /// The text with which an operation fails on this reply, where a reply
    /// other than `Done` ends it: the diagnostic that came with the reply.
    pub open spec fn failure(self) -> Seq<char> {
        match self {
            ReplyView::Failed(text) => text,
            ReplyView::Fault(text) => text,
            _ => stray_reply(),
        }
    }

    /// As [`Self::failure`], for a command whose own diagnostic is not
    /// captured: `message` stands in for it.
    pub open spec fn failure_or(self, message: Seq<char>) -> Seq<char> {
        match self {
            ReplyView::Failed(_) => message,
            ReplyView::Fault(text) => text,
            _ => stray_reply(),
        }
    }
}

impl Reply {
    /// The text with which an operation fails on this reply.
    pub fn failure(self) -> (text: String)
        ensures
            text@ == self@.failure(),
    {
        match self {
            Reply::Failed(text) => text,
            Reply::Fault(text) => text,
            _ => String::from_str("reply does not answer the effect"),
        }
    }

    /// The text with which an operation fails on this reply, `message` where
    /// the command's own diagnostic was not captured.
    pub fn failure_or(self, message: &str) -> (text: String)
        ensures
            text@ == self@.failure_or(message@),
    {
        match self {
            Reply::Failed(_) => String::from_str(message),
            Reply::Fault(text) => text,
            _ => String::from_str("reply does not answer the effect"),
        }
    }
}

} // verus!
