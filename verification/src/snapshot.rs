//! Snapshots of the index, frozen at a date.
//!
//! A snapshot is a commit without parents that carries the tree of the last
//! commit made up to the cutoff date, exposed as a branch whose name is
//! derived from that last commit. Cutting twice at dates that resolve to the
//! same commit therefore names the same branch, and the second cut leaves the
//! branch as the first made it.

use crate::cargo_repository_hash::{hex_le, registry_hash, short_hash};
use crate::effect::{
    git, git_anywhere, Effect, EffectView, GitCommand, GitCommandView, Reply, ReplyView, Step,
    StepView, stray_reply,
};
use crate::minidate::Date;
use crate::text::{concat, join_path, joined, push_text};
use vstd::prelude::*;
use vstd::string::*;

verus! {

/// The upstream index.
pub const CRATES_IO_INDEX_URL: &'static str = "https://github.com/rust-lang/crates.io-index";

/// Where Cargo keeps its own clone of the upstream index, below its home.
pub const CRATES_IO_INDEX_DIR: &'static str = "registry/index/github.com-1ecc6299db9ec823";

/// Where Cargo keeps the archives it downloaded from the upstream index.
pub const CRATES_IO_CACHE_DIR: &'static str = "registry/cache/github.com-1ecc6299db9ec823";

/// Where Cargo keeps the sources it unpacked from those archives.
pub const CRATES_IO_SRC_DIR: &'static str = "registry/src/github.com-1ecc6299db9ec823";

/// The dates for which upstream keeps a snapshot branch, oldest first.
pub open spec fn checkpoints() -> Seq<Date> {
    seq![
        Date { y: 2018, m: 9, d: 26 },
        Date { y: 2019, m: 10, d: 17 },
        Date { y: 2020, m: 3, d: 25 },
        Date { y: 2020, m: 8, d: 4 },
        Date { y: 2020, m: 11, d: 20 },
        Date { y: 2021, m: 5, d: 5 },
        Date { y: 2021, m: 7, d: 2 },
        Date { y: 2021, m: 9, d: 24 },
        Date { y: 2021, m: 12, d: 21 },
        Date { y: 2022, m: 3, d: 2 },
        Date { y: 2022, m: 7, d: 6 },
        Date { y: 2022, m: 8, d: 31 },
        Date { y: 2022, m: 12, d: 19 },
        Date { y: 2023, m: 1, d: 12 },
        Date { y: 2023, m: 4, d: 3 },
        Date { y: 2023, m: 6, d: 30 },
        Date { y: 2023, m: 12, d: 3 },
        Date { y: 2024, m: 3, d: 11 },
        Date { y: 2024, m: 5, d: 18 },
        Date { y: 2024, m: 9, d: 8 },
        Date { y: 2024, m: 11, d: 27 },
    ]
}

/// The dates for which upstream keeps a snapshot branch, oldest first.
pub fn snapshot_dates() -> (dates: Vec<Date>)
    ensures
        dates@ == checkpoints(),
{
    let mut dates: Vec<Date> = Vec::new();
    dates.push(Date { y: 2018, m: 9, d: 26 });
    dates.push(Date { y: 2019, m: 10, d: 17 });
    dates.push(Date { y: 2020, m: 3, d: 25 });
    dates.push(Date { y: 2020, m: 8, d: 4 });
    dates.push(Date { y: 2020, m: 11, d: 20 });
    dates.push(Date { y: 2021, m: 5, d: 5 });
    dates.push(Date { y: 2021, m: 7, d: 2 });
    dates.push(Date { y: 2021, m: 9, d: 24 });
    dates.push(Date { y: 2021, m: 12, d: 21 });
    dates.push(Date { y: 2022, m: 3, d: 2 });
    dates.push(Date { y: 2022, m: 7, d: 6 });
    dates.push(Date { y: 2022, m: 8, d: 31 });
    dates.push(Date { y: 2022, m: 12, d: 19 });
    dates.push(Date { y: 2023, m: 1, d: 12 });
    dates.push(Date { y: 2023, m: 4, d: 3 });
    dates.push(Date { y: 2023, m: 6, d: 30 });
    dates.push(Date { y: 2023, m: 12, d: 3 });
    dates.push(Date { y: 2024, m: 3, d: 11 });
    dates.push(Date { y: 2024, m: 5, d: 18 });
    dates.push(Date { y: 2024, m: 9, d: 8 });
    dates.push(Date { y: 2024, m: 11, d: 27 });
    dates
}

/// Whether no date comes before an earlier one in the list.
pub open spec fn ascending(dates: Seq<Date>) -> bool {
    forall|i: int, j: int|
        0 <= i <= j < dates.len() ==> (#[trigger] dates[i]).ordinal() <= (#[trigger] dates[j]).ordinal()
}

/// The first position from `from` on whose date is `cutoff` or later.
pub open spec fn first_from(dates: Seq<Date>, cutoff: Date, from: int) -> Option<int>
    decreases dates.len() - from,
{
    if from < 0 || from >= dates.len() {
        None
    } else if dates[from].ordinal() >= cutoff.ordinal() {
        Some(from)
    } else {
        first_from(dates, cutoff, from + 1)
    }
}

/// Whether `cutoff` lies before every date of the list.
pub open spec fn precedes_all(dates: Seq<Date>, cutoff: Date) -> bool {
    forall|j: int| 0 <= j < dates.len() ==> cutoff.ordinal() < (#[trigger] dates[j]).ordinal()
}

/// The checkpoint that history up to `cutoff` needs: the first whose date is
/// `cutoff` or later. None is needed where `cutoff` lies before all of them
/// or after all of them.
pub open spec fn needed(dates: Seq<Date>, cutoff: Date) -> Option<int> {
    if precedes_all(dates, cutoff) {
        None
    } else {
        first_from(dates, cutoff, 0)
    }
}

/// What [`needed`] picks is in the list, is `cutoff` or later, and follows
/// only dates before `cutoff`. In an ascending list it is the earliest date
/// that is `cutoff` or later.
pub proof fn lemma_needed_is_earliest(dates: Seq<Date>, cutoff: Date)
    ensures
        match needed(dates, cutoff) {
            Some(i) => {
                &&& 0 <= i < dates.len()
                &&& dates[i].ordinal() >= cutoff.ordinal()
                &&& forall|j: int| 0 <= j < i ==> (#[trigger] dates[j]).ordinal() < cutoff.ordinal()
                &&& ascending(dates) ==> forall|j: int|
                    0 <= j < dates.len() && (#[trigger] dates[j]).ordinal() >= cutoff.ordinal()
                        ==> dates[i].ordinal() <= dates[j].ordinal()
            },
            None => precedes_all(dates, cutoff) || forall|j: int|
                0 <= j < dates.len() ==> (#[trigger] dates[j]).ordinal() < cutoff.ordinal(),
        },
{
    lemma_first_from(dates, cutoff, 0);
}

proof fn lemma_first_from(dates: Seq<Date>, cutoff: Date, from: int)
    requires
        0 <= from,
    ensures
        match first_from(dates, cutoff, from) {
            Some(i) => {
                &&& from <= i < dates.len()
                &&& dates[i].ordinal() >= cutoff.ordinal()
                &&& forall|j: int|
                    from <= j < i ==> (#[trigger] dates[j]).ordinal() < cutoff.ordinal()
            },
            None => forall|j: int|
                from <= j < dates.len() ==> (#[trigger] dates[j]).ordinal() < cutoff.ordinal(),
        },
    decreases dates.len() - from,
{
    if from < dates.len() && dates[from].ordinal() < cutoff.ordinal() {
        lemma_first_from(dates, cutoff, from + 1);
    }
}

/// The built-in list of checkpoints is in ascending order.
pub proof fn lemma_checkpoints_ascending()
    ensures
        ascending(checkpoints()),
        checkpoints().len() == 21,
{
}

/// Picks the checkpoint that history up to `cutoff` needs.
pub fn needed_snapshot(dates: &Vec<Date>, cutoff: Date) -> (picked: Option<usize>)
    ensures
        match picked {
            Some(i) => needed(dates@, cutoff) == Some(i as int),
            None => needed(dates@, cutoff).is_none(),
        },
        picked matches Some(i) ==> {
            &&& i < dates@.len()
            &&& dates@[i as int].ordinal() >= cutoff.ordinal()
            &&& forall|j: int| 0 <= j < i ==> (#[trigger] dates@[j]).ordinal() < cutoff.ordinal()
            &&& exists|j: int|
                0 <= j < dates@.len() && (#[trigger] dates@[j]).ordinal() <= cutoff.ordinal()
        },
        picked is None ==> precedes_all(dates@, cutoff) || forall|j: int|
            0 <= j < dates@.len() ==> (#[trigger] dates@[j]).ordinal() < cutoff.ordinal(),
{
    proof {
        lemma_needed_is_earliest(dates@, cutoff);
    }
    let mut first: Option<usize> = None;
    let mut reached: bool = false;
    let mut at: usize = 0;
    while at < dates.len()
        invariant
            at <= dates.len(),
            match first {
                Some(k) => k < at && first_from(dates@, cutoff, 0) == Some(k as int),
                None => first_from(dates@, cutoff, 0) == first_from(dates@, cutoff, at as int),
            },
            reached <==> exists|j: int|
                0 <= j < at && cutoff.ordinal() >= (#[trigger] dates@[j]).ordinal(),
        decreases dates.len() - at,
    {
        let date = dates[at];
        if first.is_none() && date.is_at_or_after(&cutoff) {
            first = Some(at);
        }
        if cutoff.is_at_or_after(&date) {
            reached = true;
        }
        at = at + 1;
    }
    if reached {
        first
    } else {
        None
    }
}

/// The name of the upstream branch that holds the checkpoint of `date`.
pub open spec fn snapshot_name(date: Date) -> Seq<char> {
    "snapshot-"@ + date.text()
}

/// The name of the upstream branch that holds the checkpoint of `date`.
pub fn snapshot_branch(date: Date) -> (name: String)
    ensures
        name@ == snapshot_name(date),
{
    let text = date.to_string();
    concat("snapshot-", text.as_str())
}

/// Handle on the clone of the index that snapshots are cut from.
#[derive(Debug, Clone)]
pub struct LTS {
    git_dir: String,
    home: String,
}

/// What an [`LTS`] holds: the repository it works on and Cargo's home.
pub struct LTSView {
    pub git_dir: Seq<char>,
    pub home: Seq<char>,
}

impl View for LTS {
    type V = LTSView;

    closed spec fn view(&self) -> LTSView {
        LTSView { git_dir: self.git_dir@, home: self.home@ }
    }
}

/// Branch of the index, frozen at a date. [`LTS::cut_branch_at`] makes it.
#[derive(Debug, Clone, PartialEq, Eq)]
pub struct Branch {
    /// Name of the branch created
    pub name: String,
    /// Hash of its latest commit
    pub head: String,
}

/// What a [`Branch`] holds.
pub struct BranchView {
    pub name: Seq<char>,
    pub head: Seq<char>,
}

impl View for Branch {
    type V = BranchView;

    open spec fn view(&self) -> BranchView {
        BranchView { name: self.name@, head: self.head@ }
    }
}

/// How far [`LTS::fetch`] has come.
#[derive(Clone, Copy, Debug, PartialEq, Eq)]
pub enum FetchState {
    /// Nothing has been asked yet.
    Start,
    /// Asked whether the checkpoint is already here.
    Checking,
    /// Asked to fetch the checkpoint.
    Fetching,
}

impl View for FetchState {
    type V = FetchState;

    open spec fn view(&self) -> FetchState {
        *self
    }
}

/// How far [`LTS::cut_branch_at`] has come.
#[derive(Debug, Clone, PartialEq, Eq)]
pub enum CutState {
    /// Nothing has been asked yet.
    Start,
    /// Asked for the last commit up to the cutoff.
    Finding,
    /// Asked whether the branch that freezes `source` is there already.
    Resolving { source: String },
    /// Asked to write the snapshot commit of the tree of `source`.
    Committing { source: String },
    /// Asked to create the branch.
    Branching { branch: Branch },
    /// Asked to set the branch's reference directly.
    Referring { branch: Branch },
}

/// What a [`CutState`] holds.
pub enum CutStateView {
    Start,
    Finding,
    Resolving { source: Seq<char> },
    Committing { source: Seq<char> },
    Branching { branch: BranchView },
    Referring { branch: BranchView },
}

impl View for CutState {
    type V = CutStateView;

    open spec fn view(&self) -> CutStateView {
        match self {
            CutState::Start => CutStateView::Start,
            CutState::Finding => CutStateView::Finding,
            CutState::Resolving { source } => CutStateView::Resolving { source: source@ },
            CutState::Committing { source } => CutStateView::Committing { source: source@ },
            CutState::Branching { branch } => CutStateView::Branching { branch: branch@ },
            CutState::Referring { branch } => CutStateView::Referring { branch: branch@ },
        }
    }
}

/// How far [`LTS::clone_to`] has come.
#[derive(Debug, Clone, PartialEq, Eq)]
pub enum CheckoutState {
    /// Nothing has been asked yet.
    Start,
    /// Asked to clear the destination.
    Clearing,
    /// Asked to clone the branch.
    Cloning,
    /// Asked to delete the clone's own object store.
    Dropping,
    /// Asked to link the mirror's object store in its place.
    Linking,
    /// Asked to point `HEAD` at the snapshot.
    Pointing,
    /// Asked to make `master` the snapshot.
    Naming,
    /// Asked for the absolute path of the clone's git directory.
    Resolving,
    /// Asked to share the archive cache with the clone at `url`.
    SharingCache { url: String },
    /// Asked to share the unpacked sources with the clone at `url`.
    SharingSources { url: String },
}

/// What a [`CheckoutState`] holds.
pub enum CheckoutStateView {
    Start,
    Clearing,
    Cloning,
    Dropping,
    Linking,
    Pointing,
    Naming,
    Resolving,
    SharingCache { url: Seq<char> },
    SharingSources { url: Seq<char> },
}

impl View for CheckoutState {
    type V = CheckoutStateView;

    open spec fn view(&self) -> CheckoutStateView {
        match self {
            CheckoutState::Start => CheckoutStateView::Start,
            CheckoutState::Clearing => CheckoutStateView::Clearing,
            CheckoutState::Cloning => CheckoutStateView::Cloning,
            CheckoutState::Dropping => CheckoutStateView::Dropping,
            CheckoutState::Linking => CheckoutStateView::Linking,
            CheckoutState::Pointing => CheckoutStateView::Pointing,
            CheckoutState::Naming => CheckoutStateView::Naming,
            CheckoutState::Resolving => CheckoutStateView::Resolving,
            CheckoutState::SharingCache { url } => CheckoutStateView::SharingCache { url: url@ },
            CheckoutState::SharingSources { url } => CheckoutStateView::SharingSources {
                url: url@,
            },
        }
    }
}

/// What a branch that freezes the commit `source` is called, if `source` is
/// long enough to name one: a fixed prefix and the first ten characters of
/// `source`.
pub open spec fn branch_name(source: Seq<char>) -> Option<Seq<char>> {
    if source.len() >= 10 {
        Some("lts-repo-at-"@ + source.subrange(0, 10))
    } else {
        None
    }
}

/// Names the branch that freezes the commit `source`.
pub fn fork_name(source: &str) -> (name: Option<String>)
    ensures
        name.deep_view() == branch_name(source@),
{
    if source.unicode_len() >= 10 {
        Some(concat("lts-repo-at-", source.substring_char(0, 10)))
    } else {
        None
    }
}

impl LTSView {
    /// A run of `git` on this repository.
    pub open spec fn git(self, args: Seq<Seq<char>>) -> GitCommandView {
        GitCommandView::on_repository(self.git_dir, args)
    }

    /// One step of [`LTS::fetch`].
    pub open spec fn fetch_step(self, for_date: Date, state: FetchState, reply: ReplyView)
        -> StepView<FetchState, ()> {
        match needed(checkpoints(), for_date) {
            None => StepView::Done(()),
            Some(i) => {
                let name = snapshot_name(checkpoints()[i]);
                match state {
                    FetchState::Start => StepView::Run(
                        FetchState::Checking,
                        EffectView::Git(self.git(seq!["rev-parse"@, name, "--"@])),
                    ),
                    FetchState::Checking => match reply {
                        ReplyView::Done(_) => StepView::Done(()),
                        ReplyView::Failed(_) | ReplyView::Fault(_) => StepView::Run(
                            FetchState::Fetching,
                            EffectView::Git(
                                self.git(
                                    seq!["fetch"@, CRATES_IO_INDEX_URL@, name + ":"@ + name],
                                ),
                            ),
                        ),
                        _ => StepView::Fail(stray_reply()),
                    },
                    FetchState::Fetching => match reply {
                        ReplyView::Done(_) => StepView::Done(()),
                        _ => StepView::Fail(reply.failure()),
                    },
                }
            },
        }
    }

    /// One step of [`LTS::cut_branch_at`].
    pub open spec fn cut_step(self, cutoff: Date, state: CutStateView, reply: ReplyView)
        -> StepView<CutStateView, BranchView> {
        match state {
            CutStateView::Start => StepView::Run(
                CutStateView::Finding,
                EffectView::Git(
                    self.git(
                        seq!["log"@, "--all"@, "-1"@, "--format=%H"@, "--until"@, cutoff.text()],
                    ),
                ),
            ),
            CutStateView::Finding => match reply {
                ReplyView::Done(source) => match branch_name(source) {
                    Some(name) => StepView::Run(
                        CutStateView::Resolving { source },
                        EffectView::Git(
                            self.git(seq!["rev-parse"@, "--verify"@, "refs/heads/"@ + name]),
                        ),
                    ),
                    None => StepView::Fail("commit id is shorter than ten characters"@),
                },
                _ => StepView::Fail(reply.failure()),
            },
            CutStateView::Resolving { source } => match reply {
                ReplyView::Done(head) => match branch_name(source) {
                    Some(name) => StepView::Done(BranchView { name, head }),
                    None => StepView::Fail("commit id is shorter than ten characters"@),
                },
                ReplyView::Failed(_) | ReplyView::Fault(_) => StepView::Run(
                    CutStateView::Committing { source },
                    EffectView::Git(
                        self.git(
                            seq![
                                "commit-tree"@,
                                source + "^{tree}"@,
                                "-m"@,
                                "Registry at "@ + cutoff.text(),
                            ],
                        ),
                    ),
                ),
                _ => StepView::Fail(stray_reply()),
            },
            CutStateView::Committing { source } => match reply {
                ReplyView::Done(head) => match branch_name(source) {
                    Some(name) => StepView::Run(
                        CutStateView::Branching { branch: BranchView { name, head } },
                        EffectView::Git(self.git(seq!["branch"@, name, head])),
                    ),
                    None => StepView::Fail("commit id is shorter than ten characters"@),
                },
                _ => StepView::Fail(reply.failure()),
            },
            CutStateView::Branching { branch } => match reply {
                ReplyView::Done(_) => StepView::Done(branch),
                ReplyView::Failed(_) | ReplyView::Fault(_) => StepView::Run(
                    CutStateView::Referring { branch },
                    EffectView::Git(
                        self.git(seq!["update-ref"@, "refs/heads/"@ + branch.name, branch.head]),
                    ),
                ),
                _ => StepView::Fail(stray_reply()),
            },
            CutStateView::Referring { branch } => match reply {
                ReplyView::Done(_) => StepView::Done(branch),
                _ => StepView::Fail(reply.failure()),
            },
        }
    }

    /// The git directory of a clone at `destination`.
    pub open spec fn fork_git_dir(destination: Seq<char>, bare: bool) -> Seq<char> {
        if bare {
            destination
        } else {
            joined(destination, ".git"@)
        }
    }

    /// The link that lets the clone at `url` use the archives downloaded from
    /// the upstream index.
    pub open spec fn cache_link(self, url: Seq<char>) -> EffectView {
        EffectView::Symlink {
            target: joined(self.home, CRATES_IO_CACHE_DIR@),
            link: joined(self.home, "registry/cache/-"@ + hex_le(registry_hash(url))),
        }
    }

    /// The link that lets the clone at `url` use the sources unpacked for the
    /// upstream index.
    pub open spec fn sources_link(self, url: Seq<char>) -> EffectView {
        EffectView::Symlink {
            target: joined(self.home, CRATES_IO_SRC_DIR@),
            link: joined(self.home, "registry/src/-"@ + hex_le(registry_hash(url))),
        }
    }

    /// The arguments that clone one branch of this repository.
    pub open spec fn clone_args(self, branch: Seq<char>, destination: Seq<char>, bare: bool)
        -> Seq<Seq<char>> {
        if bare {
            seq![
                "clone"@,
                "--single-branch"@,
                "--branch"@,
                branch,
                "--bare"@,
                self.git_dir,
                destination,
            ]
        } else {
            seq!["clone"@, "--single-branch"@, "--branch"@, branch, self.git_dir, destination]
        }
    }

    /// One step of [`LTS::clone_to`].
    pub open spec fn checkout_step(
        self,
        branch: BranchView,
        destination: Seq<char>,
        bare: bool,
        state: CheckoutStateView,
        reply: ReplyView,
    ) -> StepView<CheckoutStateView, Seq<char>> {
        let fork = Self::fork_git_dir(destination, bare);
        match state {
            CheckoutStateView::Start => StepView::Run(
                CheckoutStateView::Clearing,
                EffectView::RemoveTree(destination),
            ),
            CheckoutStateView::Clearing => StepView::Run(
                CheckoutStateView::Cloning,
                EffectView::Git(
                    GitCommandView::anywhere(false, self.clone_args(branch.name, destination, bare)),
                ),
            ),
            CheckoutStateView::Cloning => match reply {
                ReplyView::Done(_) => StepView::Run(
                    CheckoutStateView::Dropping,
                    EffectView::RemoveTree(joined(fork, "objects"@)),
                ),
                _ => StepView::Fail(reply.failure()),
            },
            CheckoutStateView::Dropping => match reply {
                ReplyView::Done(_) => StepView::Run(
                    CheckoutStateView::Linking,
                    EffectView::Symlink {
                        target: joined(self.git_dir, "objects"@),
                        link: joined(fork, "objects"@),
                    },
                ),
                _ => StepView::Fail(reply.failure()),
            },
            CheckoutStateView::Linking => match reply {
                ReplyView::Done(_) => StepView::Run(
                    CheckoutStateView::Pointing,
                    EffectView::Git(
                        GitCommandView::on_repository(
                            fork,
                            seq!["update-ref"@, "HEAD"@, branch.head],
                        ),
                    ),
                ),
                _ => StepView::Fail(reply.failure()),
            },
            CheckoutStateView::Pointing => match reply {
                ReplyView::Done(_) => StepView::Run(
                    CheckoutStateView::Naming,
                    EffectView::Git(
                        GitCommandView::on_repository(
                            fork,
                            if bare {
                                seq!["branch"@, "master"@, branch.head]
                            } else {
                                seq!["checkout"@, "-b"@, "master"@, branch.head]
                            },
                        ),
                    ),
                ),
                _ => StepView::Fail(reply.failure()),
            },
            CheckoutStateView::Naming => match reply {
                ReplyView::Done(_) => StepView::Run(
                    CheckoutStateView::Resolving,
                    EffectView::Resolve(fork),
                ),
                _ => StepView::Fail(reply.failure()),
            },
            CheckoutStateView::Resolving => match reply {
                ReplyView::Done(absolute) => {
                    let url = "file://"@ + absolute;
                    StepView::Run(CheckoutStateView::SharingCache { url }, self.cache_link(url))
                },
                _ => StepView::Fail(reply.failure()),
            },
            CheckoutStateView::SharingCache { url } => StepView::Run(
                CheckoutStateView::SharingSources { url },
                self.sources_link(url),
            ),
            CheckoutStateView::SharingSources { url } => StepView::Done(url),
        }
    }
}

impl LTS {
    /// A handle for Cargo's home at `home`, on the repository at `dir`, or on
    /// Cargo's own clone of the upstream index where `dir` is `None`.
    pub fn new(dir: Option<String>, home: String) -> (lts: LTS)
        ensures
            lts@.home == home@,
            lts@.git_dir == match dir {
                Some(d) => d@,
                None => joined(joined(home@, CRATES_IO_INDEX_DIR@), ".git"@),
            },
    {
        let git_dir = match dir {
            Some(d) => d,
            None => {
                let index = join_path(home.as_str(), CRATES_IO_INDEX_DIR);
                join_path(index.as_str(), ".git")
            },
        };
        LTS { git_dir, home }
    }

    /// Registry git location, FYI
    pub fn git_dir(&self) -> (dir: &str)
        ensures
            dir@ == self@.git_dir,
    {
        self.git_dir.as_str()
    }

    /// A run of `git` on this repository.
    pub fn git(&self, args: Vec<String>) -> (command: GitCommand)
        ensures
            command@ == self@.git(args.deep_view()),
    {
        git(self.git_dir.as_str(), args)
    }

    /// Ensure an old snapshot is available.
    ///
    /// Without this any attempt to use an older revision may fail. One
    /// checkpoint is asked for at most, however far back `for_date` lies;
    /// nothing is asked for where `for_date` lies before the oldest
    /// checkpoint or after the newest, and nothing is fetched where the
    /// checkpoint is already here.
    pub fn fetch(&self, for_date: Date, state: FetchState, reply: Reply) -> (step: Step<
        FetchState,
        (),
    >)
        ensures
            step@ == self@.fetch_step(for_date, state, reply@),
    {
        let dates = snapshot_dates();
        let index: usize = match needed_snapshot(&dates, for_date) {
            Some(i) => i,
            None => return Step::Done(()),
        };
        let name = snapshot_branch(dates[index]);
        match state {
            FetchState::Start => {
                let mut args: Vec<String> = Vec::new();
                push_text(&mut args, "rev-parse");
                push_text(&mut args, name.as_str());
                push_text(&mut args, "--");
                assert(args.deep_view() =~= seq!["rev-parse"@, name@, "--"@]);
                Step::Run(FetchState::Checking, Effect::Git(self.git(args)))
            },
            FetchState::Checking => match reply {
                Reply::Done(_) => Step::Done(()),
                Reply::Failed(_) | Reply::Fault(_) => {
                    let mut refspec = concat(name.as_str(), ":");
                    refspec.append(name.as_str());
                    let mut args: Vec<String> = Vec::new();
                    push_text(&mut args, "fetch");
                    push_text(&mut args, CRATES_IO_INDEX_URL);
                    push_text(&mut args, refspec.as_str());
                    assert(args.deep_view() =~= seq![
                        "fetch"@,
                        CRATES_IO_INDEX_URL@,
                        name@ + ":"@ + name@,
                    ]);
                    Step::Run(FetchState::Fetching, Effect::Git(self.git(args)))
                },
                _ => Step::Fail(String::from_str("reply does not answer the effect")),
            },
            FetchState::Fetching => match reply {
                Reply::Done(_) => Step::Done(()),
                other => Step::Fail(other.failure()),
            },
        }
    }

    /// Create a new branch in the local Cargo registry clone.
    ///
    /// The branch holds one commit without parents, which carries the tree of
    /// the last commit made up to `cutoff`. Its name is derived from that last
    /// commit. Where a branch of that name is there already, it is the
    /// snapshot: nothing is written, and the branch is given as it stands.
    /// Where it is not and cannot be created, because the checkout does not
    /// let branches be made, its reference is set directly.
    pub fn cut_branch_at(&self, cutoff: Date, state: CutState, reply: Reply) -> (step: Step<
        CutState,
        Branch,
    >)
        ensures
            step@ == self@.cut_step(cutoff, state@, reply@),
    {
        match state {
            CutState::Start => {
                let until = cutoff.to_string();
                let mut args: Vec<String> = Vec::new();
                push_text(&mut args, "log");
                push_text(&mut args, "--all");
                push_text(&mut args, "-1");
                push_text(&mut args, "--format=%H");
                push_text(&mut args, "--until");
                push_text(&mut args, until.as_str());
                assert(args.deep_view() =~= seq![
                    "log"@,
                    "--all"@,
                    "-1"@,
                    "--format=%H"@,
                    "--until"@,
                    cutoff.text(),
                ]);
                Step::Run(CutState::Finding, Effect::Git(self.git(args)))
            },
            CutState::Finding => match reply {
                Reply::Done(source) => match fork_name(source.as_str()) {
                    Some(name) => {
                        let reference = concat("refs/heads/", name.as_str());
                        let mut args: Vec<String> = Vec::new();
                        push_text(&mut args, "rev-parse");
                        push_text(&mut args, "--verify");
                        push_text(&mut args, reference.as_str());
                        assert(args.deep_view() =~= seq![
                            "rev-parse"@,
                            "--verify"@,
                            "refs/heads/"@ + name@,
                        ]);
                        Step::Run(CutState::Resolving { source }, Effect::Git(self.git(args)))
                    },
                    None => Step::Fail(
                        String::from_str("commit id is shorter than ten characters"),
                    ),
                },
                other => Step::Fail(other.failure()),
            },
            CutState::Resolving { source } => match reply {
                Reply::Done(head) => match fork_name(source.as_str()) {
                    Some(name) => Step::Done(Branch { name, head }),
                    None => Step::Fail(
                        String::from_str("commit id is shorter than ten characters"),
                    ),
                },
                Reply::Failed(_) | Reply::Fault(_) => {
                    let until = cutoff.to_string();
                    let treeish = concat(source.as_str(), "^{tree}");
                    let message = concat("Registry at ", until.as_str());
                    let mut args: Vec<String> = Vec::new();
                    push_text(&mut args, "commit-tree");
                    push_text(&mut args, treeish.as_str());
                    push_text(&mut args, "-m");
                    push_text(&mut args, message.as_str());
                    assert(args.deep_view() =~= seq![
                        "commit-tree"@,
                        source@ + "^{tree}"@,
                        "-m"@,
                        "Registry at "@ + cutoff.text(),
                    ]);
                    Step::Run(CutState::Committing { source }, Effect::Git(self.git(args)))
                },
                _ => Step::Fail(String::from_str("reply does not answer the effect")),
            },
            CutState::Committing { source } => match reply {
                Reply::Done(head) => match fork_name(source.as_str()) {
                    Some(name) => {
                        let mut args: Vec<String> = Vec::new();
                        push_text(&mut args, "branch");
                        push_text(&mut args, name.as_str());
                        push_text(&mut args, head.as_str());
                        assert(args.deep_view() =~= seq!["branch"@, name@, head@]);
                        Step::Run(
                            CutState::Branching { branch: Branch { name, head } },
                            Effect::Git(self.git(args)),
                        )
                    },
                    None => Step::Fail(
                        String::from_str("commit id is shorter than ten characters"),
                    ),
                },
                other => Step::Fail(other.failure()),
            },
            CutState::Branching { branch } => match reply {
                Reply::Done(_) => Step::Done(branch),
                Reply::Failed(_) | Reply::Fault(_) => {
                    let reference = concat("refs/heads/", branch.name.as_str());
                    let mut args: Vec<String> = Vec::new();
                    push_text(&mut args, "update-ref");
                    push_text(&mut args, reference.as_str());
                    push_text(&mut args, branch.head.as_str());
                    assert(args.deep_view() =~= seq![
                        "update-ref"@,
                        "refs/heads/"@ + branch.name@,
                        branch.head@,
                    ]);
                    Step::Run(CutState::Referring { branch }, Effect::Git(self.git(args)))
                },
                _ => Step::Fail(String::from_str("reply does not answer the effect")),
            },
            CutState::Referring { branch } => match reply {
                Reply::Done(_) => Step::Done(branch),
                other => Step::Fail(other.failure()),
            },
        }
    }

    /// The two links that let the clone at `url` use what Cargo has already
    /// downloaded and unpacked for the upstream index: first the one for the
    /// archives, then the one for the sources.
    pub fn make_cache_shared(&self, url: &str) -> (links: (Effect, Effect))
        ensures
            links.0@ == self@.cache_link(url@),
            links.1@ == self@.sources_link(url@),
    {
        let hash = short_hash(url);
        let fork_cache = concat("registry/cache/-", hash.as_str());
        let fork_src = concat("registry/src/-", hash.as_str());
        (
            Effect::Symlink {
                target: join_path(self.home.as_str(), CRATES_IO_CACHE_DIR),
                link: join_path(self.home.as_str(), fork_cache.as_str()),
            },
            Effect::Symlink {
                target: join_path(self.home.as_str(), CRATES_IO_SRC_DIR),
                link: join_path(self.home.as_str(), fork_src.as_str()),
            },
        )
    }

    /// Create a new local git checkout of the branch that shares its objects
    /// with this repository.
    ///
    /// Completes with the `file://` URL of the new repository.
    pub fn clone_to(
        &self,
        branch: &Branch,
        fork_destination_dir: &str,
        bare: bool,
        state: CheckoutState,
        reply: Reply,
    ) -> (step: Step<CheckoutState, String>)
        ensures
            step@ == self@.checkout_step(branch@, fork_destination_dir@, bare, state@, reply@),
    {
        let fork: String = if bare {
            String::from_str(fork_destination_dir)
        } else {
            join_path(fork_destination_dir, ".git")
        };
        match state {
            CheckoutState::Start => Step::Run(
                CheckoutState::Clearing,
                Effect::RemoveTree(String::from_str(fork_destination_dir)),
            ),
            CheckoutState::Clearing => {
                let mut args: Vec<String> = Vec::new();
                push_text(&mut args, "clone");
                push_text(&mut args, "--single-branch");
                push_text(&mut args, "--branch");
                push_text(&mut args, branch.name.as_str());
                if bare {
                    push_text(&mut args, "--bare");
                }
                push_text(&mut args, self.git_dir.as_str());
                push_text(&mut args, fork_destination_dir);
                assert(args.deep_view() =~= self@.clone_args(
                    branch@.name,
                    fork_destination_dir@,
                    bare,
                ));
                Step::Run(CheckoutState::Cloning, Effect::Git(git_anywhere(false, args)))
            },
            CheckoutState::Cloning => match reply {
                Reply::Done(_) => Step::Run(
                    CheckoutState::Dropping,
                    Effect::RemoveTree(join_path(fork.as_str(), "objects")),
                ),
                other => Step::Fail(other.failure()),
            },
            CheckoutState::Dropping => match reply {
                Reply::Done(_) => Step::Run(
                    CheckoutState::Linking,
                    Effect::Symlink {
                        target: join_path(self.git_dir.as_str(), "objects"),
                        link: join_path(fork.as_str(), "objects"),
                    },
                ),
                other => Step::Fail(other.failure()),
            },
            CheckoutState::Linking => match reply {
                Reply::Done(_) => {
                    let mut args: Vec<String> = Vec::new();
                    push_text(&mut args, "update-ref");
                    push_text(&mut args, "HEAD");
                    push_text(&mut args, branch.head.as_str());
                    assert(args.deep_view() =~= seq!["update-ref"@, "HEAD"@, branch@.head]);
                    Step::Run(CheckoutState::Pointing, Effect::Git(git(fork.as_str(), args)))
                },
                other => Step::Fail(other.failure()),
            },
            CheckoutState::Pointing => match reply {
                Reply::Done(_) => {
                    let mut args: Vec<String> = Vec::new();
                    if bare {
                        push_text(&mut args, "branch");
                    } else {
                        push_text(&mut args, "checkout");
                        push_text(&mut args, "-b");
                    }
                    push_text(&mut args, "master");
                    push_text(&mut args, branch.head.as_str());
                    assert(args.deep_view() =~= if bare {
                        seq!["branch"@, "master"@, branch@.head]
                    } else {
                        seq!["checkout"@, "-b"@, "master"@, branch@.head]
                    });
                    Step::Run(CheckoutState::Naming, Effect::Git(git(fork.as_str(), args)))
                },
                other => Step::Fail(other.failure()),
            },
            CheckoutState::Naming => match reply {
                Reply::Done(_) => Step::Run(CheckoutState::Resolving, Effect::Resolve(fork)),
                other => Step::Fail(other.failure()),
            },
            CheckoutState::Resolving => match reply {
                Reply::Done(absolute) => {
                    let url = concat("file://", absolute.as_str());
                    let (cache, _) = self.make_cache_shared(url.as_str());
                    Step::Run(CheckoutState::SharingCache { url }, cache)
                },
                other => Step::Fail(other.failure()),
            },
            CheckoutState::SharingCache { url } => {
                let (_, sources) = self.make_cache_shared(url.as_str());
                Step::Run(CheckoutState::SharingSources { url }, sources)
            },
            CheckoutState::SharingSources { url } => Step::Done(url),
        }
    }
}

/// Cutting is idempotent per source commit, and a snapshot, once made, is
/// left as it is. Whatever the cutoff dates, two cuts that resolve to the
/// commit `source` ask about the same branch. Where that branch is there, as
/// after an earlier cut, the cut completes with the branch as it stands and
/// asks for nothing more: no commit is written and no reference is set.
/// Where it is not, the cut writes the snapshot commit and makes the branch.
pub proof fn lemma_cut_is_idempotent(
    lts: LTSView,
    first: Date,
    second: Date,
    source: Seq<char>,
    head: Seq<char>,
    complaint: Seq<char>,
)
    requires
        source.len() >= 10,
    ensures
        ({
            let name = "lts-repo-at-"@ + source.subrange(0, 10);
            let asks = EffectView::Git(
                lts.git(seq!["rev-parse"@, "--verify"@, "refs/heads/"@ + name]),
            );
            let branch = BranchView { name, head };
            &&& lts.cut_step(first, CutStateView::Finding, ReplyView::Done(source)) == StepView::<
                CutStateView,
                BranchView,
            >::Run(CutStateView::Resolving { source }, asks)
            &&& lts.cut_step(second, CutStateView::Finding, ReplyView::Done(source)) == StepView::<
                CutStateView,
                BranchView,
            >::Run(CutStateView::Resolving { source }, asks)
            &&& lts.cut_step(second, CutStateView::Resolving { source }, ReplyView::Done(head))
                == StepView::<CutStateView, BranchView>::Done(branch)
            &&& lts.cut_step(first, CutStateView::Resolving { source }, ReplyView::Failed(complaint))
                matches StepView::Run(CutStateView::Committing { .. }, _)
            &&& lts.cut_step(first, CutStateView::Committing { source }, ReplyView::Done(head))
                == StepView::<CutStateView, BranchView>::Run(
                CutStateView::Branching { branch },
                EffectView::Git(lts.git(seq!["branch"@, name, head])),
            )
            &&& lts.cut_step(first, CutStateView::Branching { branch }, ReplyView::Done(complaint))
                == StepView::<CutStateView, BranchView>::Done(branch)
        }),
{
}

/// Only a cut that found no branch writes anything. Every effect of a cut
/// that can change the repository, be it a commit, a branch or a reference,
/// is asked for in a state that is reached only after the question whether
/// the branch is there was answered with no.
pub proof fn lemma_cut_writes_after_asking(
    lts: LTSView,
    cutoff: Date,
    state: CutStateView,
    reply: ReplyView,
)
    ensures
        lts.cut_step(cutoff, state, reply) matches StepView::Run(next, EffectView::Git(command))
            ==> {
            ||| command.args[0] == "log"@
            ||| command.args[0] == "rev-parse"@
            ||| (state is Resolving && !(reply is Done) && next is Committing)
            ||| state is Committing
            ||| state is Branching
        },
{
}

/// An upper bound on the effects that [`LTS::fetch`] can still ask for.
pub open spec fn fetch_steps_left(state: FetchState) -> nat {
    match state {
        FetchState::Start => 2,
        FetchState::Checking => 1,
        FetchState::Fetching => 0,
    }
}

/// An upper bound on the effects that [`LTS::cut_branch_at`] can still ask
/// for.
pub open spec fn cut_steps_left(state: CutStateView) -> nat {
    match state {
        CutStateView::Start => 5,
        CutStateView::Finding => 4,
        CutStateView::Resolving { .. } => 3,
        CutStateView::Committing { .. } => 2,
        CutStateView::Branching { .. } => 1,
        CutStateView::Referring { .. } => 0,
    }
}

/// An upper bound on the effects that [`LTS::clone_to`] can still ask for.
pub open spec fn checkout_steps_left(state: CheckoutStateView) -> nat {
    match state {
        CheckoutStateView::Start => 9,
        CheckoutStateView::Clearing => 8,
        CheckoutStateView::Cloning => 7,
        CheckoutStateView::Dropping => 6,
        CheckoutStateView::Linking => 5,
        CheckoutStateView::Pointing => 4,
        CheckoutStateView::Naming => 3,
        CheckoutStateView::Resolving => 2,
        CheckoutStateView::SharingCache { .. } => 1,
        CheckoutStateView::SharingSources { .. } => 0,
    }
}

/// The operations on snapshots only move forward. Every step that asks for
/// an effect leaves fewer effects to ask for, so each operation ends after a
/// bounded number of steps and asks for nothing twice: a fetch after at most
/// two effects, a cut after at most five, a clone after at most nine.
pub proof fn lemma_snapshot_steps_advance(
    lts: LTSView,
    date: Date,
    branch: BranchView,
    destination: Seq<char>,
    bare: bool,
    fetching: FetchState,
    cutting: CutStateView,
    cloning: CheckoutStateView,
    reply: ReplyView,
)
    ensures
        lts.fetch_step(date, fetching, reply) matches StepView::Run(next, _) ==> fetch_steps_left(
            next,
        ) < fetch_steps_left(fetching),
        lts.cut_step(date, cutting, reply) matches StepView::Run(next, _) ==> cut_steps_left(next)
            < cut_steps_left(cutting),
        lts.checkout_step(branch, destination, bare, cloning, reply) matches StepView::Run(next, _)
            ==> checkout_steps_left(next) < checkout_steps_left(cloning),
{
}

} // verus!
