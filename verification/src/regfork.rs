//! The project's own mirror of the index.
//!
//! The mirror is cloned into a temporary directory beside its final place and
//! renamed only when the clone is whole, so that an interrupted clone never
//! leaves a broken mirror. Its remote is removed: the mirror follows upstream
//! only when asked to.

use crate::cargo::{custom_clone, reliable_home, upstream_clone, usable_home, CargoConfig};
use crate::effect::{
    git_anywhere, git_in, Effect, EffectView, GitCommand, GitCommandView, Reply, ReplyView, Step,
    StepView, stray_reply,
};
use crate::shard::{crate_path, crate_path_of};
use crate::snapshot::CRATES_IO_INDEX_URL;
use crate::text::{join_path, joined, parent_of, parent_path, push_text};
use crate::record::CrateVersionView;
use crate::yank::{
    count_set, default_yanks, edited, fits, flipped, lemma_edit_keeps_records,
    lemma_flipped_are_the_marked, lemma_settled_flips_nothing, lines_of, marks_of,
    plan_edit, rewrite, rewritten_file, settled, spec_from, split_lines, valid_crate_name,
    SpecFault, YankSpec, YankSpecView,
};
use vstd::prelude::*;
use vstd::string::*;

verus! {

/// The name of the directory, beside the mirror, in which a clone is made.
pub const TEMPORARY_CLONE: &'static str = ".cargo-lts-making-local-fork";

/// A mirror of the index at a place of the project's choosing.
#[derive(Debug, Clone)]
pub struct ForkedRegistryIndex {
    git_checkout: String,
}

/// What a [`ForkedRegistryIndex`] holds: where the mirror is checked out.
pub struct ForkedRegistryIndexView {
    pub git_checkout: Seq<char>,
}

impl View for ForkedRegistryIndex {
    type V = ForkedRegistryIndexView;

    closed spec fn view(&self) -> ForkedRegistryIndexView {
        ForkedRegistryIndexView { git_checkout: self.git_checkout@ }
    }
}

/// How far the cloning of a mirror has come.
#[derive(Debug, Clone, PartialEq, Eq)]
pub enum ForkState {
    /// Nothing has been asked yet.
    Start,
    /// Asked to create the directory that will hold the mirror.
    MakingParent,
    /// Asked to clear what an earlier attempt may have left.
    ClearingTemp,
    /// Asked whether Cargo has a clone of the upstream index to start from.
    ProbingReference,
    /// Asked whether the temporary directory is gone.
    CheckingTemp { reuse: bool },
    /// Asked to clone into the temporary directory.
    Cloning { reuse: bool },
    /// Asked to delete the temporary directory after a failed clone.
    Discarding { message: String },
    /// Asked to remove the clone's remote.
    Detaching { reuse: bool },
    /// Asked to delete what lies at the mirror's place.
    Replacing { reuse: bool },
    /// Asked to rename the clone into the mirror's place.
    Moving { reuse: bool },
    /// Asked to fetch upstream into the mirror.
    Refreshing,
    /// Asked to reset the mirror to what was fetched.
    Resetting,
    /// Asked for the mirror's absolute path.
    Locating,
    /// Asked whether Cargo already has a clone of the mirror at `path`.
    ProbingSeed { path: String },
    /// Asked to make Cargo's clone of the mirror.
    Seeding,
}

/// What a [`ForkState`] holds.
pub enum ForkStateView {
    Start,
    MakingParent,
    ClearingTemp,
    ProbingReference,
    CheckingTemp { reuse: bool },
    Cloning { reuse: bool },
    Discarding { message: Seq<char> },
    Detaching { reuse: bool },
    Replacing { reuse: bool },
    Moving { reuse: bool },
    Refreshing,
    Resetting,
    Locating,
    ProbingSeed { path: Seq<char> },
    Seeding,
}

impl View for ForkState {
    type V = ForkStateView;

    open spec fn view(&self) -> ForkStateView {
        match self {
            ForkState::Start => ForkStateView::Start,
            ForkState::MakingParent => ForkStateView::MakingParent,
            ForkState::ClearingTemp => ForkStateView::ClearingTemp,
            ForkState::ProbingReference => ForkStateView::ProbingReference,
            ForkState::CheckingTemp { reuse } => ForkStateView::CheckingTemp { reuse: *reuse },
            ForkState::Cloning { reuse } => ForkStateView::Cloning { reuse: *reuse },
            ForkState::Discarding { message } => ForkStateView::Discarding { message: message@ },
            ForkState::Detaching { reuse } => ForkStateView::Detaching { reuse: *reuse },
            ForkState::Replacing { reuse } => ForkStateView::Replacing { reuse: *reuse },
            ForkState::Moving { reuse } => ForkStateView::Moving { reuse: *reuse },
            ForkState::Refreshing => ForkStateView::Refreshing,
            ForkState::Resetting => ForkStateView::Resetting,
            ForkState::Locating => ForkStateView::Locating,
            ForkState::ProbingSeed { path } => ForkStateView::ProbingSeed { path: path@ },
            ForkState::Seeding => ForkStateView::Seeding,
        }
    }
}

/// How far the update of a mirror has come.
#[derive(Clone, Copy, Debug, PartialEq, Eq)]
pub enum UpdateState {
    /// Nothing has been asked yet.
    Start,
    /// Asked to fetch upstream.
    Fetching,
    /// Asked to merge what was fetched.
    Merging,
}

impl View for UpdateState {
    type V = UpdateState;

    open spec fn view(&self) -> UpdateState {
        *self
    }
}

/// How far [`ForkedRegistryIndex::deinit`] has come.
#[derive(Clone, Copy, Debug, PartialEq, Eq)]
pub enum DeinitState {
    /// Nothing has been asked yet.
    Start,
    /// Asked whether the mirror exists.
    Probing,
    /// Asked to delete the mirror.
    Removing,
}

impl View for DeinitState {
    type V = DeinitState;

    open spec fn view(&self) -> DeinitState {
        *self
    }
}

/// How far [`ForkedRegistryIndex::init`] has come.
#[derive(Debug, Clone, PartialEq, Eq)]
pub enum InitState {
    /// Nothing has been asked yet.
    Start,
    /// Asked whether the mirror exists.
    Probing,
    /// There was no mirror: it is being cloned.
    Cloning(ForkState),
    /// The mirror was cloned: the versions known to be broken are being
    /// yanked in it.
    Yanking(EditState),
    /// There was a mirror: it is being updated.
    Updating(UpdateState),
}

/// What an [`InitState`] holds.
pub enum InitStateView {
    Start,
    Probing,
    Cloning(ForkStateView),
    Yanking(EditStateView),
    Updating(UpdateState),
}

impl View for InitState {
    type V = InitStateView;

    open spec fn view(&self) -> InitStateView {
        match self {
            InitState::Start => InitStateView::Start,
            InitState::Probing => InitStateView::Probing,
            InitState::Cloning(state) => InitStateView::Cloning(state@),
            InitState::Yanking(state) => InitStateView::Yanking(state@),
            InitState::Updating(state) => InitStateView::Updating(*state),
        }
    }
}

/// What [`ForkedRegistryIndex::init`] did to the mirror.
#[derive(Clone, Copy, Debug, PartialEq, Eq)]
pub enum MirrorChange {
    /// There was none; it was cloned, and the versions known to be broken
    /// were yanked in it.
    Created,
    /// It was brought up to date with upstream.
    Updated,
}

impl View for MirrorChange {
    type V = MirrorChange;

    open spec fn view(&self) -> MirrorChange {
        *self
    }
}

/// How far [`ForkedRegistryIndex::set_yanked_state`] has come.
#[derive(Debug, Clone, PartialEq, Eq)]
pub enum EditState {
    /// Nothing has been asked yet.
    Start,
    /// Asked for the metadata file of the spec at `at`. `staged` says whether
    /// an earlier spec changed a file.
    Reading { at: usize, staged: bool },
    /// Asked to decode the lines of `content`.
    Decoding { at: usize, staged: bool, content: Vec<u8> },
    /// Asked to encode the records that `marks` mark in `content`.
    Encoding { at: usize, content: Vec<u8>, marks: Vec<bool> },
    /// Asked to write the file anew.
    Writing { at: usize },
    /// Asked to stage the file.
    Adding { at: usize },
    /// Asked to commit what was staged.
    Committing,
}

/// What an [`EditState`] holds.
pub enum EditStateView {
    Start,
    Reading { at: usize, staged: bool },
    Decoding { at: usize, staged: bool, content: Seq<u8> },
    Encoding { at: usize, content: Seq<u8>, marks: Seq<bool> },
    Writing { at: usize },
    Adding { at: usize },
    Committing,
}

impl View for EditState {
    type V = EditStateView;

    open spec fn view(&self) -> EditStateView {
        match self {
            EditState::Start => EditStateView::Start,
            EditState::Reading { at, staged } => EditStateView::Reading { at: *at, staged: *staged },
            EditState::Decoding { at, staged, content } => EditStateView::Decoding {
                at: *at,
                staged: *staged,
                content: content@,
            },
            EditState::Encoding { at, content, marks } => EditStateView::Encoding {
                at: *at,
                content: content@,
                marks: marks@,
            },
            EditState::Writing { at } => EditStateView::Writing { at: *at },
            EditState::Adding { at } => EditStateView::Adding { at: *at },
            EditState::Committing => EditStateView::Committing,
        }
    }
}

/// Whether every spec of the batch names a crate.
pub open spec fn all_named(specs: Seq<YankSpecView>) -> bool {
    forall|i: int| 0 <= i < specs.len() ==> (#[trigger] specs[i]).wf()
}

impl ForkedRegistryIndexView {
    /// The directory in which a clone is made before it takes the mirror's
    /// place, given the directory that holds the mirror.
    pub open spec fn temporary(parent: Seq<char>) -> Seq<char> {
        joined(parent, TEMPORARY_CLONE@)
    }

    /// The run that fetches upstream into the mirror.
    pub open spec fn fetch_command(self) -> GitCommandView {
        GitCommandView::in_directory(
            self.git_checkout,
            false,
            true,
            seq!["fetch"@, CRATES_IO_INDEX_URL@],
        )
    }

    /// The run that removes the remote of the checkout at `path`.
    pub open spec fn detach_command(path: Seq<char>) -> GitCommandView {
        GitCommandView::in_directory(path, false, false, seq!["remote"@, "rm"@, "origin"@])
    }

    /// The run that stages the file at `path`.
    pub open spec fn add_command(self, path: Seq<char>) -> GitCommandView {
        GitCommandView::in_directory(self.git_checkout, false, false, seq!["add"@, "--"@, path])
    }

    /// The run that commits what is staged, under the library's identity.
    pub open spec fn commit_command(self) -> GitCommandView {
        GitCommandView::in_directory(
            self.git_checkout,
            true,
            false,
            seq!["commit"@, "--quiet"@, "-m"@, "cargo lts changes"@],
        )
    }

    /// The run that merges what was fetched, preferring upstream where both
    /// sides changed a file, under the library's identity.
    pub open spec fn merge_command(self) -> GitCommandView {
        GitCommandView::in_directory(
            self.git_checkout,
            true,
            false,
            seq![
                "merge"@,
                "-Xtheirs"@,
                "--allow-unrelated-histories"@,
                "-m"@,
                "cargo lts update"@,
                "FETCH_HEAD"@,
            ],
        )
    }

    /// The run that clones into `temporary`: from Cargo's own clone of the
    /// upstream index where that is reused, else one commit deep from
    /// upstream itself.
    pub open spec fn clone_command(
        cargo_home: Option<Seq<char>>,
        reuse: bool,
        temporary: Seq<char>,
    ) -> GitCommandView {
        GitCommandView::anywhere(
            true,
            match cargo_home {
                Some(home) if reuse => seq!["clone"@, upstream_clone(home), temporary],
                _ => seq!["clone"@, "--depth=1"@, CRATES_IO_INDEX_URL@, temporary],
            },
        )
    }

    /// What follows once the mirror is in place and up to date: Cargo's own
    /// clone of it is made, where Cargo's home is known.
    pub open spec fn seed(self, cargo_home: Option<Seq<char>>) -> StepView<ForkStateView, ()> {
        match cargo_home {
            Some(_) => StepView::Run(ForkStateView::Locating, EffectView::Resolve(self.git_checkout)),
            None => StepView::Done(()),
        }
    }

    /// One step of [`ForkedRegistryIndex::clone_crates_io_to_local_fork`].
    pub open spec fn fork_step(
        self,
        cargo_home: Option<Seq<char>>,
        state: ForkStateView,
        reply: ReplyView,
    ) -> StepView<ForkStateView, ()> {
        self.fork_step_beside(parent_of(self.git_checkout), cargo_home, state, reply)
    }

    /// One step of [`ForkedRegistryIndex::clone_beside`]: of cloning into the
    /// mirror's place, given the directory that holds the mirror.
    pub open spec fn fork_step_beside(
        self,
        parent: Option<Seq<char>>,
        cargo_home: Option<Seq<char>>,
        state: ForkStateView,
        reply: ReplyView,
    ) -> StepView<ForkStateView, ()> {
        let cargo_home = usable_home(cargo_home);
        match parent {
            None => StepView::Fail("the mirror's path has no parent directory"@),
            Some(parent) => {
                let temporary = Self::temporary(parent);
                match state {
                    ForkStateView::Start => StepView::Run(
                        ForkStateView::MakingParent,
                        EffectView::MakeDirs(parent),
                    ),
                    ForkStateView::MakingParent => StepView::Run(
                        ForkStateView::ClearingTemp,
                        EffectView::RemoveTree(temporary),
                    ),
                    ForkStateView::ClearingTemp => match cargo_home {
                        Some(home) => StepView::Run(
                            ForkStateView::ProbingReference,
                            EffectView::Probe(upstream_clone(home)),
                        ),
                        None => StepView::Run(
                            ForkStateView::CheckingTemp { reuse: false },
                            EffectView::Probe(temporary),
                        ),
                    },
                    ForkStateView::ProbingReference => match reply {
                        ReplyView::Found(reuse) => StepView::Run(
                            ForkStateView::CheckingTemp { reuse },
                            EffectView::Probe(temporary),
                        ),
                        _ => StepView::Fail(stray_reply()),
                    },
                    ForkStateView::CheckingTemp { reuse } => match reply {
                        ReplyView::Found(found) => if found {
                            StepView::Fail("the temporary clone could not be cleared"@)
                        } else {
                            StepView::Run(
                                ForkStateView::Cloning { reuse },
                                EffectView::Git(
                                    Self::clone_command(cargo_home, reuse, temporary),
                                ),
                            )
                        },
                        _ => StepView::Fail(stray_reply()),
                    },
                    ForkStateView::Cloning { reuse } => match reply {
                        ReplyView::Done(_) => StepView::Run(
                            ForkStateView::Detaching { reuse },
                            EffectView::Git(Self::detach_command(temporary)),
                        ),
                        _ => StepView::Run(
                            ForkStateView::Discarding {
                                message: reply.failure_or("Clone of crates.io index failed"@),
                            },
                            EffectView::RemoveTree(temporary),
                        ),
                    },
                    ForkStateView::Discarding { message } => StepView::Fail(message),
                    ForkStateView::Detaching { reuse } => match reply {
                        ReplyView::Done(_) => StepView::Run(
                            ForkStateView::Replacing { reuse },
                            EffectView::RemoveTree(self.git_checkout),
                        ),
                        _ => StepView::Fail(
                            reply.failure_or("failed to remove origin from git checkout"@),
                        ),
                    },
                    ForkStateView::Replacing { reuse } => StepView::Run(
                        ForkStateView::Moving { reuse },
                        EffectView::Rename { from: temporary, to: self.git_checkout },
                    ),
                    ForkStateView::Moving { reuse } => match reply {
                        ReplyView::Done(_) => if reuse {
                            StepView::Run(
                                ForkStateView::Refreshing,
                                EffectView::Git(self.fetch_command()),
                            )
                        } else {
                            self.seed(cargo_home)
                        },
                        _ => StepView::Fail(reply.failure()),
                    },
                    ForkStateView::Refreshing => match reply {
                        ReplyView::Done(_) => StepView::Run(
                            ForkStateView::Resetting,
                            EffectView::Git(
                                GitCommandView::in_directory(
                                    self.git_checkout,
                                    false,
                                    false,
                                    seq!["reset"@, "--hard"@, "FETCH_HEAD"@],
                                ),
                            ),
                        ),
                        _ => StepView::Fail(
                            reply.failure_or("Update of crates.io index failed"@),
                        ),
                    },
                    ForkStateView::Resetting => match reply {
                        ReplyView::Done(_) => self.seed(cargo_home),
                        _ => StepView::Fail(
                            reply.failure_or(
                                "Failed to update forked index to latest crates.io version"@,
                            ),
                        ),
                    },
                    ForkStateView::Locating => match reply {
                        ReplyView::Done(absolute) => match cargo_home {
                            Some(home) => StepView::Run(
                                ForkStateView::ProbingSeed {
                                    path: custom_clone(home, absolute),
                                },
                                EffectView::Probe(custom_clone(home, absolute)),
                            ),
                            None => StepView::Done(()),
                        },
                        ReplyView::Failed(_) | ReplyView::Fault(_) => StepView::Done(()),
                        _ => StepView::Fail(stray_reply()),
                    },
                    ForkStateView::ProbingSeed { path } => match reply {
                        ReplyView::Found(found) => if found {
                            StepView::Done(())
                        } else {
                            StepView::Run(
                                ForkStateView::Seeding,
                                EffectView::Git(
                                    GitCommandView::anywhere(
                                        false,
                                        seq!["clone"@, "--bare"@, self.git_checkout, path],
                                    ),
                                ),
                            )
                        },
                        _ => StepView::Fail(stray_reply()),
                    },
                    ForkStateView::Seeding => match reply {
                        ReplyView::Done(_) | ReplyView::Failed(_) => StepView::Done(()),
                        _ => StepView::Fail(reply.failure()),
                    },
                }
            },
        }
    }

    /// One step of [`ForkedRegistryIndex::update_cloned_repo_fork`].
    pub open spec fn update_step(self, state: UpdateState, reply: ReplyView) -> StepView<
        UpdateState,
        (),
    > {
        match state {
            UpdateState::Start => StepView::Run(
                UpdateState::Fetching,
                EffectView::Git(self.fetch_command()),
            ),
            UpdateState::Fetching => match reply {
                ReplyView::Done(_) => StepView::Run(
                    UpdateState::Merging,
                    EffectView::Git(self.merge_command()),
                ),
                _ => StepView::Fail(reply.failure_or("Update of crates.io index failed"@)),
            },
            UpdateState::Merging => match reply {
                ReplyView::Done(_) => StepView::Done(()),
                _ => StepView::Fail(reply.failure_or("Merge of crates.io index failed"@)),
            },
        }
    }

    /// One step of [`ForkedRegistryIndex::deinit`]: a mirror that is not
    /// there is no error; one that is there is deleted, and a deletion that
    /// fails ends the call with what it reported.
    pub open spec fn deinit_step(self, state: DeinitState, reply: ReplyView) -> StepView<
        DeinitState,
        (),
    > {
        match state {
            DeinitState::Start => StepView::Run(
                DeinitState::Probing,
                EffectView::Probe(self.git_checkout),
            ),
            DeinitState::Probing => match reply {
                ReplyView::Found(found) => if found {
                    StepView::Run(DeinitState::Removing, EffectView::RemoveTree(self.git_checkout))
                } else {
                    StepView::Done(())
                },
                _ => StepView::Fail(stray_reply()),
            },
            DeinitState::Removing => match reply {
                ReplyView::Done(_) => StepView::Done(()),
                _ => StepView::Fail(reply.failure()),
            },
        }
    }

    /// A step of yanking the versions known to be broken, seen as a step of
    /// [`ForkedRegistryIndex::init`].
    pub open spec fn while_yanking(step: StepView<EditStateView, ()>) -> StepView<
        InitStateView,
        MirrorChange,
    > {
        match step {
            StepView::Run(state, effect) => StepView::Run(InitStateView::Yanking(state), effect),
            StepView::Done(_) => StepView::Done(MirrorChange::Created),
            StepView::Fail(text) => StepView::Fail(text),
        }
    }

    /// A step of cloning, seen as a step of [`ForkedRegistryIndex::init`]:
    /// once the clone is complete, the versions known to be broken are
    /// yanked in it.
    pub open spec fn while_cloning(
        self,
        defaults: Seq<YankSpecView>,
        step: StepView<ForkStateView, ()>,
    ) -> StepView<InitStateView, MirrorChange> {
        match step {
            StepView::Run(state, effect) => StepView::Run(InitStateView::Cloning(state), effect),
            StepView::Done(_) => Self::while_yanking(
                self.edit_step(defaults, EditStateView::Start, ReplyView::Done(Seq::empty())),
            ),
            StepView::Fail(text) => StepView::Fail(text),
        }
    }

    /// A step of updating, seen as a step of [`ForkedRegistryIndex::init`].
    pub open spec fn while_updating(step: StepView<UpdateState, ()>) -> StepView<
        InitStateView,
        MirrorChange,
    > {
        match step {
            StepView::Run(state, effect) => StepView::Run(InitStateView::Updating(state), effect),
            StepView::Done(_) => StepView::Done(MirrorChange::Updated),
            StepView::Fail(text) => StepView::Fail(text),
        }
    }

    /// One step of [`ForkedRegistryIndex::init`].
    pub open spec fn init_step(
        self,
        cargo_home: Option<Seq<char>>,
        defaults: Seq<YankSpecView>,
        state: InitStateView,
        reply: ReplyView,
    ) -> StepView<InitStateView, MirrorChange> {
        match state {
            InitStateView::Start => StepView::Run(
                InitStateView::Probing,
                EffectView::Probe(self.git_checkout),
            ),
            InitStateView::Probing => match reply {
                ReplyView::Found(found) => if found {
                    Self::while_updating(self.update_step(UpdateState::Start, reply))
                } else {
                    self.while_cloning(
                        defaults,
                        self.fork_step(cargo_home, ForkStateView::Start, reply),
                    )
                },
                _ => StepView::Fail(stray_reply()),
            },
            InitStateView::Cloning(state) => self.while_cloning(
                defaults,
                self.fork_step(cargo_home, state, reply),
            ),
            InitStateView::Yanking(state) => Self::while_yanking(
                self.edit_step(defaults, state, reply),
            ),
            InitStateView::Updating(state) => Self::while_updating(self.update_step(state, reply)),
        }
    }

    /// Where the metadata file of the spec at `at` lies.
    pub open spec fn file_of(self, specs: Seq<YankSpecView>, at: int) -> Seq<char> {
        crate_path_of(self.git_checkout, specs[at].crate_name)
    }

    /// What follows once the specs before `at` are dealt with: the file of the
    /// next spec is read; after the last, what was staged is committed.
    pub open spec fn proceed(self, specs: Seq<YankSpecView>, at: int, staged: bool) -> StepView<
        EditStateView,
        (),
    > {
        if 0 <= at < specs.len() {
            StepView::Run(
                EditStateView::Reading { at: at as usize, staged },
                EffectView::Read(self.file_of(specs, at)),
            )
        } else if staged {
            StepView::Run(EditStateView::Committing, EffectView::Git(self.commit_command()))
        } else {
            StepView::Done(())
        }
    }

    /// One step of [`ForkedRegistryIndex::set_yanked_state`].
    pub open spec fn edit_step(
        self,
        specs: Seq<YankSpecView>,
        state: EditStateView,
        reply: ReplyView,
    ) -> StepView<EditStateView, ()> {
        if !all_named(specs) {
            StepView::Fail("a spec names no crate"@)
        } else {
            match state {
                EditStateView::Start => self.proceed(specs, 0, false),
                EditStateView::Reading { at, staged } => match reply {
                    ReplyView::Bytes(content) => if at < specs.len() {
                        StepView::Run(
                            EditStateView::Decoding { at, staged, content },
                            EffectView::Decode(lines_of(content)),
                        )
                    } else {
                        StepView::Fail(stray_reply())
                    },
                    _ => StepView::Fail(reply.failure()),
                },
                EditStateView::Decoding { at, staged, content } => match reply {
                    ReplyView::Records(records) => if at < specs.len() && records.len()
                        == lines_of(content).len() {
                        if flipped(specs[at as int], records).len() == 0 {
                            self.proceed(specs, at + 1, staged)
                        } else {
                            StepView::Run(
                                EditStateView::Encoding {
                                    at,
                                    content,
                                    marks: marks_of(specs[at as int], records),
                                },
                                EffectView::Encode(flipped(specs[at as int], records)),
                            )
                        }
                    } else {
                        StepView::Fail(stray_reply())
                    },
                    _ => StepView::Fail(reply.failure()),
                },
                EditStateView::Encoding { at, content, marks } => match reply {
                    ReplyView::Lines(encoded) => if at < specs.len() && fits(
                        content,
                        marks,
                        encoded,
                    ) {
                        StepView::Run(
                            EditStateView::Writing { at },
                            EffectView::Write {
                                path: self.file_of(specs, at as int),
                                content: rewritten_file(content, marks, encoded),
                            },
                        )
                    } else {
                        StepView::Fail(stray_reply())
                    },
                    _ => StepView::Fail(reply.failure()),
                },
                EditStateView::Writing { at } => match reply {
                    ReplyView::Done(_) => if at < specs.len() {
                        StepView::Run(
                            EditStateView::Adding { at },
                            EffectView::Git(self.add_command(self.file_of(specs, at as int))),
                        )
                    } else {
                        StepView::Fail(stray_reply())
                    },
                    _ => StepView::Fail(reply.failure()),
                },
                EditStateView::Adding { at } => match reply {
                    ReplyView::Done(_) => if at < specs.len() {
                        self.proceed(specs, at + 1, true)
                    } else {
                        StepView::Fail(stray_reply())
                    },
                    _ => StepView::Fail(reply.failure_or("Failed to run git add"@)),
                },
                EditStateView::Committing => match reply {
                    ReplyView::Done(_) => StepView::Done(()),
                    _ => StepView::Fail(reply.failure_or("Failed to commit changes"@)),
                },
            }
        }
    }
}

/// Whether every spec of the batch names a crate.
pub fn validate_specs(specs: &Vec<YankSpec>) -> (valid: bool)
    ensures
        valid == all_named(specs.deep_view()),
{
    let mut at: usize = 0;
    while at < specs.len()
        invariant
            at <= specs@.len(),
            forall|i: int| 0 <= i < at ==> (#[trigger] specs.deep_view()[i]).wf(),
        decreases specs@.len() - at,
    {
        if !valid_crate_name(specs[at].crate_name.as_str()) {
            assert(!specs.deep_view()[at as int].wf());
            return false;
        }
        at = at + 1;
    }
    true
}

impl ForkedRegistryIndex {
    /// The mirror that is, or will be, checked out at `local_repo_copy_dir`.
    pub fn new(local_repo_copy_dir: String) -> (index: ForkedRegistryIndex)
        ensures
            index@.git_checkout == local_repo_copy_dir@,
    {
        ForkedRegistryIndex { git_checkout: local_repo_copy_dir }
    }

    /// Where the mirror is checked out.
    pub fn git_checkout(&self) -> (dir: &str)
        ensures
            dir@ == self@.git_checkout,
    {
        self.git_checkout.as_str()
    }

    /// The mirror's git directory: `.git` in the checkout where there is one,
    /// else the checkout itself.
    pub fn git_dir(&self, has_dot_git: bool) -> (dir: String)
        ensures
            dir@ == if has_dot_git {
                joined(self@.git_checkout, ".git"@)
            } else {
                self@.git_checkout
            },
    {
        if has_dot_git {
            join_path(self.git_checkout.as_str(), ".git")
        } else {
            String::from_str(self.git_checkout.as_str())
        }
    }

    /// Deletes the mirror. That there is no mirror is no error; that the
    /// mirror is there and cannot be deleted is one.
    pub fn deinit(&self, state: DeinitState, reply: Reply) -> (step: Step<DeinitState, ()>)
        ensures
            step@ == self@.deinit_step(state, reply@),
    {
        match state {
            DeinitState::Start => Step::Run(
                DeinitState::Probing,
                Effect::Probe(String::from_str(self.git_checkout.as_str())),
            ),
            DeinitState::Probing => match reply {
                Reply::Found(found) => {
                    if found {
                        Step::Run(
                            DeinitState::Removing,
                            Effect::RemoveTree(String::from_str(self.git_checkout.as_str())),
                        )
                    } else {
                        Step::Done(())
                    }
                },
                _ => Step::Fail(String::from_str("reply does not answer the effect")),
            },
            DeinitState::Removing => match reply {
                Reply::Done(_) => Step::Done(()),
                other => Step::Fail(other.failure()),
            },
        }
    }

    /// The path of the metadata file of `crate_name` in the mirror.
    pub fn crate_path(&self, crate_name: &str) -> (path: String)
        ensures
            path@ == crate_path_of(self@.git_checkout, crate_name@),
    {
        crate_path(self.git_checkout.as_str(), crate_name)
    }

    /// The run that stages the file at `file_path`.
    pub fn git_add(&self, file_path: &str) -> (command: GitCommand)
        ensures
            command@ == self@.add_command(file_path@),
    {
        let mut args: Vec<String> = Vec::new();
        push_text(&mut args, "add");
        push_text(&mut args, "--");
        push_text(&mut args, file_path);
        assert(args.deep_view() =~= seq!["add"@, "--"@, file_path@]);
        git_in(self.git_checkout.as_str(), false, false, args)
    }

    /// The run that commits what is staged.
    pub fn git_commit(&self) -> (command: GitCommand)
        ensures
            command@ == self@.commit_command(),
    {
        let mut args: Vec<String> = Vec::new();
        push_text(&mut args, "commit");
        push_text(&mut args, "--quiet");
        push_text(&mut args, "-m");
        push_text(&mut args, "cargo lts changes");
        assert(args.deep_view() =~= seq!["commit"@, "--quiet"@, "-m"@, "cargo lts changes"@]);
        git_in(self.git_checkout.as_str(), true, false, args)
    }

    /// The run that fetches upstream into the mirror.
    pub fn fetch_crates_io_into_repo(&self) -> (command: GitCommand)
        ensures
            command@ == self@.fetch_command(),
    {
        let mut args: Vec<String> = Vec::new();
        push_text(&mut args, "fetch");
        push_text(&mut args, CRATES_IO_INDEX_URL);
        assert(args.deep_view() =~= seq!["fetch"@, CRATES_IO_INDEX_URL@]);
        git_in(self.git_checkout.as_str(), false, true, args)
    }

    /// The run that removes the remote of the checkout at `git_repo_path`.
    pub fn remove_git_origin(git_repo_path: &str) -> (command: GitCommand)
        ensures
            command@ == ForkedRegistryIndexView::detach_command(git_repo_path@),
    {
        let mut args: Vec<String> = Vec::new();
        push_text(&mut args, "remote");
        push_text(&mut args, "rm");
        push_text(&mut args, "origin");
        assert(args.deep_view() =~= seq!["remote"@, "rm"@, "origin"@]);
        git_in(git_repo_path, false, false, args)
    }

    /// The batch to apply to a mirror that was just created: it yanks the
    /// versions known to be broken, which `known` lists as pairs of a crate's
    /// name and a range.
    pub fn set_default_yanks(known: &Vec<(String, String)>) -> (made: Result<
        Vec<YankSpec>,
        (usize, SpecFault),
    >)
        ensures
            match made {
                Ok(specs) => {
                    &&& specs@.len() == known@.len()
                    &&& all_named(specs.deep_view())
                    &&& forall|i: int|
                        0 <= i < known@.len() ==> spec_from(
                            known@[i].0@,
                            known@[i].1@,
                            true,
                        ) == Some((#[trigger] specs@[i])@)
                },
                Err((index, fault)) => {
                    &&& index < known@.len()
                    &&& spec_from(known@[index as int].0@, known@[index as int].1@, true).is_none()
                    &&& fault.explains_pair(known@[index as int].0@, known@[index as int].1@)
                },
            },
    {
        let made = default_yanks(known);
        made
    }

    /// What follows once the mirror is in place and up to date.
    fn seed(&self, cargo_home: Option<&str>) -> (step: Step<ForkState, ()>)
        ensures
            step@ == self@.seed(cargo_home.deep_view()),
    {
        match cargo_home {
            Some(_) => Step::Run(
                ForkState::Locating,
                Effect::Resolve(String::from_str(self.git_checkout.as_str())),
            ),
            None => Step::Done(()),
        }
    }

    /// Clones the index into the mirror's place.
    ///
    /// The clone is made in a temporary directory beside the mirror and
    /// renamed once it is whole. Where Cargo has a clone of the upstream index
    /// below `cargo_home`, that is the source, and upstream is fetched once
    /// more afterwards; else upstream itself is cloned, one commit deep.
    pub fn clone_crates_io_to_local_fork(
        &self,
        cargo_home: Option<&str>,
        state: ForkState,
        reply: Reply,
    ) -> (step: Step<ForkState, ()>)
        ensures
            step@ == self@.fork_step(cargo_home.deep_view(), state@, reply@),
    {
        let parent = parent_path(self.git_checkout.as_str());
        match &parent {
            Some(parent) => self.clone_beside(Some(parent.as_str()), cargo_home, state, reply),
            None => self.clone_beside(None, cargo_home, state, reply),
        }
    }

    /// Clones the index into the mirror's place, given the directory that
    /// holds the mirror, or `None` where there is no such directory.
    pub fn clone_beside(
        &self,
        parent: Option<&str>,
        cargo_home: Option<&str>,
        state: ForkState,
        reply: Reply,
    ) -> (step: Step<ForkState, ()>)
        ensures
            step@ == self@.fork_step_beside(
                parent.deep_view(),
                cargo_home.deep_view(),
                state@,
                reply@,
            ),
    {
        let cargo_home = reliable_home(cargo_home);
        let parent: String = match parent {
            Some(parent) => String::from_str(parent),
            None => {
                return Step::Fail(String::from_str("the mirror's path has no parent directory"));
            },
        };
        let temporary = join_path(parent.as_str(), TEMPORARY_CLONE);
        match state {
            ForkState::Start => Step::Run(ForkState::MakingParent, Effect::MakeDirs(parent)),
            ForkState::MakingParent => Step::Run(
                ForkState::ClearingTemp,
                Effect::RemoveTree(temporary),
            ),
            ForkState::ClearingTemp => match CargoConfig::cargo_private_crates_io_git_repo_path(
                cargo_home,
            ) {
                Some(reference) => Step::Run(ForkState::ProbingReference, Effect::Probe(reference)),
                None => Step::Run(ForkState::CheckingTemp { reuse: false }, Effect::Probe(temporary)),
            },
            ForkState::ProbingReference => match reply {
                Reply::Found(reuse) => Step::Run(
                    ForkState::CheckingTemp { reuse },
                    Effect::Probe(temporary),
                ),
                _ => Step::Fail(String::from_str("reply does not answer the effect")),
            },
            ForkState::CheckingTemp { reuse } => match reply {
                Reply::Found(found) => {
                    if found {
                        Step::Fail(String::from_str("the temporary clone could not be cleared"))
                    } else {
                        let mut args: Vec<String> = Vec::new();
                        push_text(&mut args, "clone");
                        match CargoConfig::cargo_private_crates_io_git_repo_path(cargo_home) {
                            Some(reference) if reuse => {
                                push_text(&mut args, reference.as_str());
                            },
                            _ => {
                                push_text(&mut args, "--depth=1");
                                push_text(&mut args, CRATES_IO_INDEX_URL);
                            },
                        }
                        push_text(&mut args, temporary.as_str());
                        assert(args.deep_view() =~= ForkedRegistryIndexView::clone_command(
                            cargo_home.deep_view(),
                            reuse,
                            temporary@,
                        ).args);
                        Step::Run(ForkState::Cloning { reuse }, Effect::Git(git_anywhere(true, args)))
                    }
                },
                _ => Step::Fail(String::from_str("reply does not answer the effect")),
            },
            ForkState::Cloning { reuse } => match reply {
                Reply::Done(_) => Step::Run(
                    ForkState::Detaching { reuse },
                    Effect::Git(Self::remove_git_origin(temporary.as_str())),
                ),
                other => Step::Run(
                    ForkState::Discarding {
                        message: other.failure_or("Clone of crates.io index failed"),
                    },
                    Effect::RemoveTree(temporary),
                ),
            },
            ForkState::Discarding { message } => Step::Fail(message),
            ForkState::Detaching { reuse } => match reply {
                Reply::Done(_) => Step::Run(
                    ForkState::Replacing { reuse },
                    Effect::RemoveTree(String::from_str(self.git_checkout.as_str())),
                ),
                other => Step::Fail(other.failure_or("failed to remove origin from git checkout")),
            },
            ForkState::Replacing { reuse } => Step::Run(
                ForkState::Moving { reuse },
                Effect::Rename {
                    from: temporary,
                    to: String::from_str(self.git_checkout.as_str()),
                },
            ),
            ForkState::Moving { reuse } => match reply {
                Reply::Done(_) => {
                    if reuse {
                        Step::Run(
                            ForkState::Refreshing,
                            Effect::Git(self.fetch_crates_io_into_repo()),
                        )
                    } else {
                        self.seed(cargo_home)
                    }
                },
                other => Step::Fail(other.failure()),
            },
            ForkState::Refreshing => match reply {
                Reply::Done(_) => {
                    let mut args: Vec<String> = Vec::new();
                    push_text(&mut args, "reset");
                    push_text(&mut args, "--hard");
                    push_text(&mut args, "FETCH_HEAD");
                    assert(args.deep_view() =~= seq!["reset"@, "--hard"@, "FETCH_HEAD"@]);
                    Step::Run(
                        ForkState::Resetting,
                        Effect::Git(git_in(self.git_checkout.as_str(), false, false, args)),
                    )
                },
                other => Step::Fail(other.failure_or("Update of crates.io index failed")),
            },
            ForkState::Resetting => match reply {
                Reply::Done(_) => self.seed(cargo_home),
                other => Step::Fail(
                    other.failure_or("Failed to update forked index to latest crates.io version"),
                ),
            },
            ForkState::Locating => match reply {
                Reply::Done(resolved) => {
                    match CargoConfig::cargo_private_custom_git_repo_path(
                        cargo_home,
                        Some(resolved.as_str()),
                    ) {
                        Some(path) => {
                            let probed = String::from_str(path.as_str());
                            Step::Run(ForkState::ProbingSeed { path }, Effect::Probe(probed))
                        },
                        None => Step::Done(()),
                    }
                },
                Reply::Failed(_) | Reply::Fault(_) => Step::Done(()),
                _ => Step::Fail(String::from_str("reply does not answer the effect")),
            },
            ForkState::ProbingSeed { path } => match reply {
                Reply::Found(found) => {
                    if found {
                        Step::Done(())
                    } else {
                        let mut args: Vec<String> = Vec::new();
                        push_text(&mut args, "clone");
                        push_text(&mut args, "--bare");
                        push_text(&mut args, self.git_checkout.as_str());
                        push_text(&mut args, path.as_str());
                        assert(args.deep_view() =~= seq![
                            "clone"@,
                            "--bare"@,
                            self@.git_checkout,
                            path@,
                        ]);
                        Step::Run(ForkState::Seeding, Effect::Git(git_anywhere(false, args)))
                    }
                },
                _ => Step::Fail(String::from_str("reply does not answer the effect")),
            },
            ForkState::Seeding => match reply {
                Reply::Done(_) | Reply::Failed(_) => Step::Done(()),
                other => Step::Fail(other.failure()),
            },
        }
    }

    /// Brings the mirror up to date with upstream.
    ///
    /// Upstream is fetched and merged. Where upstream and the mirror both
    /// changed a file, upstream's content wins: a yank made here can be undone
    /// by an update.
    pub fn update_cloned_repo_fork(&self, state: UpdateState, reply: Reply) -> (step: Step<
        UpdateState,
        (),
    >)
        ensures
            step@ == self@.update_step(state, reply@),
    {
        match state {
            UpdateState::Start => Step::Run(
                UpdateState::Fetching,
                Effect::Git(self.fetch_crates_io_into_repo()),
            ),
            UpdateState::Fetching => match reply {
                Reply::Done(_) => {
                    let mut args: Vec<String> = Vec::new();
                    push_text(&mut args, "merge");
                    push_text(&mut args, "-Xtheirs");
                    push_text(&mut args, "--allow-unrelated-histories");
                    push_text(&mut args, "-m");
                    push_text(&mut args, "cargo lts update");
                    push_text(&mut args, "FETCH_HEAD");
                    assert(args.deep_view() =~= self@.merge_command().args);
                    Step::Run(
                        UpdateState::Merging,
                        Effect::Git(git_in(self.git_checkout.as_str(), true, false, args)),
                    )
                },
                other => Step::Fail(other.failure_or("Update of crates.io index failed")),
            },
            UpdateState::Merging => match reply {
                Reply::Done(_) => Step::Done(()),
                other => Step::Fail(other.failure_or("Merge of crates.io index failed")),
            },
        }
    }

    /// Makes sure that the mirror exists and is up to date: clones it where
    /// there is none, updates it where there is one. A mirror that was just
    /// cloned has the versions yanked that `defaults` select, the batch of
    /// those known to be broken.
    pub fn init(
        &self,
        cargo_home: Option<&str>,
        defaults: &Vec<YankSpec>,
        state: InitState,
        reply: Reply,
    ) -> (step: Step<InitState, MirrorChange>)
        ensures
            step@ == self@.init_step(
                cargo_home.deep_view(),
                defaults.deep_view(),
                state@,
                reply@,
            ),
    {
        match state {
            InitState::Start => Step::Run(
                InitState::Probing,
                Effect::Probe(String::from_str(self.git_checkout.as_str())),
            ),
            InitState::Probing => match reply {
                Reply::Found(found) => {
                    if found {
                        Self::while_updating(
                            self.update_cloned_repo_fork(UpdateState::Start, Reply::Found(found)),
                        )
                    } else {
                        self.while_cloning(
                            defaults,
                            self.clone_crates_io_to_local_fork(
                                cargo_home,
                                ForkState::Start,
                                Reply::Found(found),
                            ),
                        )
                    }
                },
                _ => Step::Fail(String::from_str("reply does not answer the effect")),
            },
            InitState::Cloning(state) => self.while_cloning(
                defaults,
                self.clone_crates_io_to_local_fork(cargo_home, state, reply),
            ),
            InitState::Yanking(state) => Self::while_yanking(
                self.set_yanked_state(defaults, state, reply),
            ),
            InitState::Updating(state) => Self::while_updating(
                self.update_cloned_repo_fork(state, reply),
            ),
        }
    }

    fn while_cloning(&self, defaults: &Vec<YankSpec>, step: Step<ForkState, ()>) -> (seen: Step<
        InitState,
        MirrorChange,
    >)
        ensures
            seen@ == self@.while_cloning(defaults.deep_view(), step@),
    {
        match step {
            Step::Run(state, effect) => Step::Run(InitState::Cloning(state), effect),
            Step::Done(_) => Self::while_yanking(
                self.set_yanked_state(defaults, EditState::Start, Reply::Done(String::new())),
            ),
            Step::Fail(text) => Step::Fail(text),
        }
    }

    fn while_yanking(step: Step<EditState, ()>) -> (seen: Step<InitState, MirrorChange>)
        ensures
            seen@ == ForkedRegistryIndexView::while_yanking(step@),
    {
        match step {
            Step::Run(state, effect) => Step::Run(InitState::Yanking(state), effect),
            Step::Done(_) => Step::Done(MirrorChange::Created),
            Step::Fail(text) => Step::Fail(text),
        }
    }

    fn while_updating(step: Step<UpdateState, ()>) -> (seen: Step<InitState, MirrorChange>)
        ensures
            seen@ == ForkedRegistryIndexView::while_updating(step@),
    {
        match step {
            Step::Run(state, effect) => Step::Run(InitState::Updating(state), effect),
            Step::Done(_) => Step::Done(MirrorChange::Updated),
            Step::Fail(text) => Step::Fail(text),
        }
    }

    /// Where the metadata file of the spec at `at` lies.
    fn file_of(&self, specs: &Vec<YankSpec>, at: usize) -> (path: String)
        requires
            at < specs@.len(),
        ensures
            path@ == self@.file_of(specs.deep_view(), at as int),
    {
        self.crate_path(specs[at].crate_name.as_str())
    }

    /// What follows once the specs before `at` are dealt with.
    fn proceed(&self, specs: &Vec<YankSpec>, at: usize, staged: bool) -> (step: Step<
        EditState,
        (),
    >)
        ensures
            step@ == self@.proceed(specs.deep_view(), at as int, staged),
    {
        if at < specs.len() {
            Step::Run(EditState::Reading { at, staged }, Effect::Read(self.file_of(specs, at)))
        } else if staged {
            Step::Run(EditState::Committing, Effect::Git(self.git_commit()))
        } else {
            Step::Done(())
        }
    }

    /// Sets the yanked flag of every version that the specs select, file by
    /// file in the order of the specs, and commits once at the end if any
    /// file changed.
    ///
    /// No file is touched unless every spec names a crate. A file is written
    /// only where a record in it changes; its lines keep their number and
    /// order, and a line that is no record, or that no spec selects, is kept
    /// byte for byte.
    pub fn set_yanked_state(&self, specs: &Vec<YankSpec>, state: EditState, reply: Reply) -> (step:
        Step<EditState, ()>)
        ensures
            step@ == self@.edit_step(specs.deep_view(), state@, reply@),
    {
        if !validate_specs(specs) {
            return Step::Fail(String::from_str("a spec names no crate"));
        }
        match state {
            EditState::Start => self.proceed(specs, 0, false),
            EditState::Reading { at, staged } => match reply {
                Reply::Bytes(content) => {
                    if at < specs.len() {
                        let lines = split_lines(content.as_slice());
                        Step::Run(EditState::Decoding { at, staged, content }, Effect::Decode(lines))
                    } else {
                        Step::Fail(String::from_str("reply does not answer the effect"))
                    }
                },
                other => Step::Fail(other.failure()),
            },
            EditState::Decoding { at, staged, content } => match reply {
                Reply::Records(records) => {
                    let lines = split_lines(content.as_slice());
                    if at < specs.len() && records.len() == lines.len() {
                        let (marks, changed) = plan_edit(&specs[at], records);
                        if changed.len() == 0 {
                            self.proceed(specs, at + 1, staged)
                        } else {
                            Step::Run(
                                EditState::Encoding { at, content, marks },
                                Effect::Encode(changed),
                            )
                        }
                    } else {
                        Step::Fail(String::from_str("reply does not answer the effect"))
                    }
                },
                other => Step::Fail(other.failure()),
            },
            EditState::Encoding { at, content, marks } => match reply {
                Reply::Lines(encoded) => {
                    if at < specs.len() {
                        match rewrite(content.as_slice(), &marks, &encoded) {
                            Some(file) => Step::Run(
                                EditState::Writing { at },
                                Effect::Write { path: self.file_of(specs, at), content: file },
                            ),
                            None => Step::Fail(
                                String::from_str("reply does not answer the effect"),
                            ),
                        }
                    } else {
                        Step::Fail(String::from_str("reply does not answer the effect"))
                    }
                },
                other => Step::Fail(other.failure()),
            },
            EditState::Writing { at } => match reply {
                Reply::Done(_) => {
                    if at < specs.len() {
                        let path = self.file_of(specs, at);
                        Step::Run(EditState::Adding { at }, Effect::Git(self.git_add(path.as_str())))
                    } else {
                        Step::Fail(String::from_str("reply does not answer the effect"))
                    }
                },
                other => Step::Fail(other.failure()),
            },
            EditState::Adding { at } => match reply {
                Reply::Done(_) => {
                    if at < specs.len() {
                        self.proceed(specs, at + 1, true)
                    } else {
                        Step::Fail(String::from_str("reply does not answer the effect"))
                    }
                },
                other => Step::Fail(other.failure_or("Failed to run git add")),
            },
            EditState::Committing => match reply {
                Reply::Done(_) => Step::Done(()),
                other => Step::Fail(other.failure_or("Failed to commit changes")),
            },
        }
    }
}

/// The path that an effect creates, changes or deletes, if it does any of
/// that.
pub open spec fn target(effect: EffectView) -> Option<Seq<char>> {
    match effect {
        EffectView::Git(command) => match (command.dir, command.git_dir) {
            (Some(dir), _) => Some(dir),
            (None, Some(git_dir)) => Some(git_dir),
            (None, None) => if command.args.len() > 0 {
                Some(command.args.last())
            } else {
                None
            },
        },
        EffectView::MakeDirs(path) => Some(path),
        EffectView::RemoveTree(path) => Some(path),
        EffectView::Rename { from, to } => Some(to),
        EffectView::Symlink { target, link } => Some(link),
        EffectView::Write { path, content } => Some(path),
        _ => None,
    }
}

/// Whether cloning, in this state, has not yet put the clone in the mirror's
/// place.
pub open spec fn staging(state: ForkStateView) -> bool {
    match state {
        ForkStateView::Start
        | ForkStateView::MakingParent
        | ForkStateView::ClearingTemp
        | ForkStateView::ProbingReference
        | ForkStateView::CheckingTemp { .. }
        | ForkStateView::Cloning { .. }
        | ForkStateView::Discarding { .. }
        | ForkStateView::Detaching { .. }
        | ForkStateView::Replacing { .. } => true,
        _ => false,
    }
}

/// The mirror's place is never left half filled. Until the clone is renamed
/// into it, no effect creates or changes anything there: the mirror's path is
/// named only to delete what lies there and as the rename's destination, and
/// the rename takes the temporary clone. A clone that fails is deleted, and
/// the operation then fails with what the clone reported. This holds where
/// the temporary directory and the directory that holds the mirror are not
/// the mirror itself.
pub proof fn lemma_clone_is_staged(
    index: ForkedRegistryIndexView,
    parent: Seq<char>,
    cargo_home: Option<Seq<char>>,
    state: ForkStateView,
    reply: ReplyView,
)
    requires
        staging(state),
        parent != index.git_checkout,
        ForkedRegistryIndexView::temporary(parent) != index.git_checkout,
    ensures
        (index.fork_step_beside(Some(parent), cargo_home, state, reply) matches StepView::Run(
            next,
            effect,
        ) ==> {
            ||| target(effect) != Some(index.git_checkout)
            ||| effect == EffectView::RemoveTree(index.git_checkout)
            ||| effect == EffectView::Rename {
                from: ForkedRegistryIndexView::temporary(parent),
                to: index.git_checkout,
            }
        }),
        (index.fork_step_beside(Some(parent), cargo_home, state, reply) matches StepView::Run(
            next,
            effect,
        ) ==> (staging(next) || effect is Rename)),
        state is Cloning && !(reply is Done) ==> {
            &&& index.fork_step_beside(Some(parent), cargo_home, state, reply) matches StepView::Run(
                next,
                effect,
            )
            &&& next == ForkStateView::Discarding {
                message: reply.failure_or("Clone of crates.io index failed"@),
            }
            &&& effect == EffectView::RemoveTree(ForkedRegistryIndexView::temporary(parent))
            &&& index.fork_step_beside(Some(parent), cargo_home, next, reply) == StepView::<
                ForkStateView,
                (),
            >::Fail(reply.failure_or("Clone of crates.io index failed"@))
        },
{
}

/// Where no mirror exists and Cargo has no clone of the upstream index to
/// start from, be it that Cargo's home is unknown or that no clone lies
/// there, the mirror is cloned from upstream itself, one commit deep, into
/// the temporary directory.
pub proof fn lemma_fresh_clone_is_shallow(
    index: ForkedRegistryIndexView,
    parent: Seq<char>,
    cargo_home: Option<Seq<char>>,
    reply: ReplyView,
)
    ensures
        index.fork_step_beside(
            Some(parent),
            cargo_home,
            ForkStateView::CheckingTemp { reuse: false },
            ReplyView::Found(false),
        ) == StepView::<ForkStateView, ()>::Run(
            ForkStateView::Cloning { reuse: false },
            EffectView::Git(
                GitCommandView::anywhere(
                    true,
                    seq![
                        "clone"@,
                        "--depth=1"@,
                        CRATES_IO_INDEX_URL@,
                        ForkedRegistryIndexView::temporary(parent),
                    ],
                ),
            ),
        ),
        usable_home(cargo_home) is None ==> index.fork_step_beside(
            Some(parent),
            cargo_home,
            ForkStateView::ClearingTemp,
            reply,
        ) == StepView::<ForkStateView, ()>::Run(
            ForkStateView::CheckingTemp { reuse: false },
            EffectView::Probe(ForkedRegistryIndexView::temporary(parent)),
        ),
        index.fork_step_beside(
            Some(parent),
            cargo_home,
            ForkStateView::ProbingReference,
            ReplyView::Found(false),
        ) == StepView::<ForkStateView, ()>::Run(
            ForkStateView::CheckingTemp { reuse: false },
            EffectView::Probe(ForkedRegistryIndexView::temporary(parent)),
        ),
{
}

/// Deleting the mirror and then making sure of it makes it anew, whatever
/// was there before. A deletion asks whether the mirror is there; one that is
/// not there is no error, one that is there is deleted, and a deletion that
/// fails ends the call with what it reported. Once the mirror is found
/// absent, `init` takes the first step of cloning, every later step of `init`
/// is the step of cloning, and when the clone completes the versions known to
/// be broken are yanked before `init` reports the mirror created.
pub proof fn lemma_init_after_deinit_clones(
    index: ForkedRegistryIndexView,
    cargo_home: Option<Seq<char>>,
    defaults: Seq<YankSpecView>,
    state: ForkStateView,
    reply: ReplyView,
    output: Seq<char>,
)
    ensures
        index.deinit_step(DeinitState::Start, reply) == StepView::<DeinitState, ()>::Run(
            DeinitState::Probing,
            EffectView::Probe(index.git_checkout),
        ),
        index.deinit_step(DeinitState::Probing, ReplyView::Found(false)) == StepView::<
            DeinitState,
            (),
        >::Done(()),
        index.deinit_step(DeinitState::Probing, ReplyView::Found(true)) == StepView::<
            DeinitState,
            (),
        >::Run(DeinitState::Removing, EffectView::RemoveTree(index.git_checkout)),
        index.deinit_step(DeinitState::Removing, ReplyView::Done(output)) == StepView::<
            DeinitState,
            (),
        >::Done(()),
        !(reply is Done) ==> index.deinit_step(DeinitState::Removing, reply) == StepView::<
            DeinitState,
            (),
        >::Fail(reply.failure()),
        index.init_step(cargo_home, defaults, InitStateView::Start, reply) == StepView::<
            InitStateView,
            MirrorChange,
        >::Run(InitStateView::Probing, EffectView::Probe(index.git_checkout)),
        index.init_step(cargo_home, defaults, InitStateView::Probing, ReplyView::Found(false))
            == index.while_cloning(
            defaults,
            index.fork_step(cargo_home, ForkStateView::Start, ReplyView::Found(false)),
        ),
        index.init_step(cargo_home, defaults, InitStateView::Cloning(state), reply)
            == index.while_cloning(defaults, index.fork_step(cargo_home, state, reply)),
        index.fork_step(cargo_home, state, reply) is Done ==> index.init_step(
            cargo_home,
            defaults,
            InitStateView::Cloning(state),
            reply,
        ) == ForkedRegistryIndexView::while_yanking(
            index.edit_step(defaults, EditStateView::Start, ReplyView::Done(Seq::empty())),
        ),
        index.fork_step(cargo_home, state, reply) is Done && defaults.len() == 0 ==> index.init_step(
            cargo_home,
            defaults,
            InitStateView::Cloning(state),
            reply,
        ) == StepView::<InitStateView, MirrorChange>::Done(MirrorChange::Created),
{
}

/// Applying a spec again changes nothing. Where the records of a file are
/// what the spec left of them, or what any settled spec finds, the step that
/// takes the decoded records asks for no record to be encoded and no file to
/// be written or staged: it goes on to the next spec. And where no file was
/// staged, the batch ends without a commit.
pub proof fn lemma_reapplying_changes_nothing(
    index: ForkedRegistryIndexView,
    specs: Seq<YankSpecView>,
    at: usize,
    staged: bool,
    content: Seq<u8>,
    records: Seq<Option<CrateVersionView>>,
)
    requires
        all_named(specs),
        at < specs.len(),
        records.len() == lines_of(content).len(),
    ensures
        index.edit_step(
            specs,
            EditStateView::Decoding { at, staged, content },
            ReplyView::Records(edited(specs[at as int], records)),
        ) == index.proceed(specs, at + 1, staged),
        forall|found: Seq<Option<CrateVersionView>>|
            #![trigger settled(specs[at as int], found)]
            settled(specs[at as int], found) && found.len() == lines_of(content).len()
                ==> index.edit_step(
                specs,
                EditStateView::Decoding { at, staged, content },
                ReplyView::Records(found),
            ) == index.proceed(specs, at + 1, staged),
        index.proceed(specs, specs.len() as int, false) == StepView::<EditStateView, ()>::Done(()),
        !(index.proceed(specs, at + 1, false) matches StepView::Run(_, effect) && effect is Git),
{
    lemma_settled_flips_nothing(specs[at as int], edited(specs[at as int], records));
    assert forall|found: Seq<Option<CrateVersionView>>|
        #![trigger settled(specs[at as int], found)]
        settled(specs[at as int], found) && found.len() == lines_of(content).len()
            implies index.edit_step(
        specs,
        EditStateView::Decoding { at, staged, content },
        ReplyView::Records(found),
    ) == index.proceed(specs, at + 1, staged) by {
        lemma_settled_flips_nothing(specs[at as int], found);
    }
}

/// An edit neither adds nor drops nor reorders records, whatever the caller
/// replies. A file is written only in answer to encoded lines; the file that
/// is written is the file of the spec at hand and has as many lines as the
/// file that was read; each of its lines is the line that was read, byte for
/// byte, or, where the line was marked, the encoded line handed in for it.
/// And the records handed out for encoding are those of the marked lines, in
/// order, each changed in its flag alone.
pub proof fn lemma_written_files_keep_records(
    index: ForkedRegistryIndexView,
    specs: Seq<YankSpecView>,
    state: EditStateView,
    reply: ReplyView,
)
    ensures
        match (index.edit_step(specs, state, reply), state, reply) {
            (
                StepView::Run(_, EffectView::Write { path, content: written }),
                EditStateView::Encoding { at, content, marks },
                ReplyView::Lines(encoded),
            ) => {
                &&& path == index.file_of(specs, at as int)
                &&& lines_of(written).len() == lines_of(content).len()
                &&& forall|i: int|
                    0 <= i < lines_of(content).len() ==> #[trigger] lines_of(written)[i]
                        == if marks[i] {
                        encoded[count_set(marks.take(i)) as int]
                    } else {
                        lines_of(content)[i]
                    }
            },
            (StepView::Run(_, EffectView::Write { .. }), _, _) => false,
            (
                StepView::Run(EditStateView::Encoding { at, content, marks }, effect),
                EditStateView::Decoding { at: same, content: read, .. },
                ReplyView::Records(records),
            ) => {
                &&& at == same && content == read
                &&& marks == marks_of(specs[at as int], records)
                &&& marks.len() == lines_of(content).len()
                &&& effect == EffectView::Encode(flipped(specs[at as int], records))
                &&& flipped(specs[at as int], records).len() == count_set(marks)
                &&& forall|i: int|
                    0 <= i < records.len() && #[trigger] marks[i] ==> records[i] is Some && flipped(
                        specs[at as int],
                        records,
                    )[count_set(marks.take(i)) as int] == records[i]->0.with_yanked(
                        specs[at as int].yank,
                    )
            },
            (StepView::Run(EditStateView::Encoding { .. }, _), _, _) => false,
            (StepView::Run(_, EffectView::Encode(_)), _, _) => false,
            _ => true,
        },
{
    match (state, reply) {
        (EditStateView::Encoding { at, content, marks }, ReplyView::Lines(encoded)) => {
            if fits(content, marks, encoded) {
                lemma_edit_keeps_records(content, marks, encoded);
            }
        },
        (EditStateView::Decoding { at, .. }, ReplyView::Records(records)) => {
            if at < specs.len() {
                lemma_flipped_are_the_marked(specs[at as int], records);
            }
        },
        _ => {},
    }
}

/// A batch with a spec that names no crate touches nothing: whatever the
/// state and the reply, the step fails and asks for no effect.
pub proof fn lemma_invalid_batch_is_rejected(
    index: ForkedRegistryIndexView,
    specs: Seq<YankSpecView>,
    state: EditStateView,
    reply: ReplyView,
)
    requires
        !all_named(specs),
    ensures
        index.edit_step(specs, state, reply) is Fail,
{
}

/// An upper bound on the effects that cloning can still ask for.
pub open spec fn fork_steps_left(state: ForkStateView) -> nat {
    match state {
        ForkStateView::Start => 14,
        ForkStateView::MakingParent => 13,
        ForkStateView::ClearingTemp => 12,
        ForkStateView::ProbingReference => 11,
        ForkStateView::CheckingTemp { .. } => 10,
        ForkStateView::Cloning { .. } => 9,
        ForkStateView::Detaching { .. } => 8,
        ForkStateView::Replacing { .. } => 7,
        ForkStateView::Moving { .. } => 6,
        ForkStateView::Refreshing => 5,
        ForkStateView::Resetting => 4,
        ForkStateView::Locating => 3,
        ForkStateView::ProbingSeed { .. } => 2,
        ForkStateView::Seeding => 1,
        ForkStateView::Discarding { .. } => 0,
    }
}

/// An upper bound on the effects that an update can still ask for.
pub open spec fn update_steps_left(state: UpdateState) -> nat {
    match state {
        UpdateState::Start => 2,
        UpdateState::Fetching => 1,
        UpdateState::Merging => 0,
    }
}

/// An upper bound on the effects that [`ForkedRegistryIndex::deinit`] can
/// still ask for.
pub open spec fn deinit_steps_left(state: DeinitState) -> nat {
    match state {
        DeinitState::Start => 2,
        DeinitState::Probing => 1,
        DeinitState::Removing => 0,
    }
}

/// An upper bound on the effects that [`ForkedRegistryIndex::init`] can still
/// ask for, where `defaults` specs are to be applied to a new mirror.
pub open spec fn init_steps_left(state: InitStateView, defaults: int) -> int {
    match state {
        InitStateView::Start => 5 * defaults + 19,
        InitStateView::Probing => 5 * defaults + 18,
        InitStateView::Cloning(state) => 5 * defaults + 3 + fork_steps_left(state),
        InitStateView::Yanking(state) => edit_steps_left(state, defaults),
        InitStateView::Updating(state) => update_steps_left(state) as int,
    }
}

/// An upper bound on the effects that
/// [`ForkedRegistryIndex::set_yanked_state`] can still ask for, in a batch of
/// `specs` specs: five for each spec not yet dealt with, and the commit.
pub open spec fn edit_steps_left(state: EditStateView, specs: int) -> int {
    match state {
        EditStateView::Start => 5 * specs + 2,
        EditStateView::Reading { at, .. } => 5 * (specs - at),
        EditStateView::Decoding { at, .. } => 5 * (specs - at) - 1,
        EditStateView::Encoding { at, .. } => 5 * (specs - at) - 2,
        EditStateView::Writing { at } => 5 * (specs - at) - 3,
        EditStateView::Adding { at } => 5 * (specs - at) - 4,
        EditStateView::Committing => 0,
    }
}

/// The operations on the mirror only move forward. Every step that asks for
/// an effect leaves fewer effects to ask for, so each operation ends after a
/// bounded number of steps, and no effect is tried again after it failed.
pub proof fn lemma_mirror_steps_advance(
    index: ForkedRegistryIndexView,
    cargo_home: Option<Seq<char>>,
    specs: Seq<YankSpecView>,
    forking: ForkStateView,
    updating: UpdateState,
    starting: InitStateView,
    editing: EditStateView,
    deleting: DeinitState,
    reply: ReplyView,
)
    requires
        specs.len() <= usize::MAX,
    ensures
        index.fork_step(cargo_home, forking, reply) matches StepView::Run(next, _)
            ==> fork_steps_left(next) < fork_steps_left(forking),
        index.update_step(updating, reply) matches StepView::Run(next, _) ==> update_steps_left(
            next,
        ) < update_steps_left(updating),
        index.deinit_step(deleting, reply) matches StepView::Run(next, _) ==> deinit_steps_left(
            next,
        ) < deinit_steps_left(deleting),
        index.init_step(cargo_home, specs, starting, reply) matches StepView::Run(next, _) ==> 0
            <= init_steps_left(next, specs.len() as int) < init_steps_left(
            starting,
            specs.len() as int,
        ),
        index.edit_step(specs, editing, reply) matches StepView::Run(next, _) ==> 0
            <= edit_steps_left(next, specs.len() as int) < edit_steps_left(editing, specs.len() as int),
{
}

} // verus!
