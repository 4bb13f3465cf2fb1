use lts::effect::{Effect, GitCommand, Reply, Step};
use lts::regfork::{
    DeinitState, EditState, ForkState, ForkedRegistryIndex, InitState, MirrorChange, UpdateState,
};
use lts::yank::YankSpec;
use lts::cargo_repository_hash::short_hash;
use std::collections::BTreeSet;

const URL: &str = "https://github.com/rust-lang/crates.io-index";
const CHECKOUT: &str = "/work/.cargo/cargo-lts-local-registry-fork";
const TEMPORARY: &str = "/work/.cargo/.cargo-lts-making-local-fork";
const HOME: &str = "/home/me/.cargo";
const REFERENCE: &str = "/home/me/.cargo/registry/index/github.com-1ecc6299db9ec823";

fn texts(args: &[&str]) -> Vec<String> {
    args.iter().map(|arg| arg.to_string()).collect()
}

fn mirror() -> ForkedRegistryIndex {
    ForkedRegistryIndex::new(String::from(CHECKOUT))
}

fn in_directory(dir: &str, identity: bool, askpass: bool, args: &[&str]) -> Effect {
    Effect::Git(GitCommand {
        dir: Some(dir.to_string()),
        git_dir: None,
        identity,
        askpass,
        args: texts(args),
    })
}

fn anywhere(askpass: bool, args: &[&str]) -> Effect {
    Effect::Git(GitCommand { dir: None, git_dir: None, identity: false, askpass, args: texts(args) })
}

fn done() -> Reply {
    Reply::Done(String::new())
}

fn failed(text: &str) -> Reply {
    Reply::Failed(text.to_string())
}

/// Runs `init` to its end. `exists` answers the probes; every other effect is
/// answered by `answer`, or with `Done` where that gives `None`.
fn run_init(
    cargo_home: Option<&str>,
    exists: &dyn Fn(&str) -> bool,
    answer: &dyn Fn(&Effect) -> Option<Reply>,
) -> (Vec<Effect>, Step<InitState, MirrorChange>) {
    let index = mirror();
    let defaults = Vec::new();
    let mut asked = Vec::new();
    let mut step = index.init(cargo_home, &defaults, InitState::Start, done());
    loop {
        match step {
            Step::Run(state, effect) => {
                let reply = match answer(&effect) {
                    Some(reply) => reply,
                    None => match &effect {
                        Effect::Probe(path) => Reply::Found(exists(path)),
                        Effect::Resolve(path) => Reply::Done(path.clone()),
                        _ => done(),
                    },
                };
                asked.push(effect);
                step = index.init(cargo_home, &defaults, state, reply);
            }
            end => return (asked, end),
        }
    }
}

#[test]
fn the_mirror_knows_its_place() {
    assert_eq!(mirror().git_checkout(), CHECKOUT);
    assert_eq!(mirror().git_dir(true), "/work/.cargo/cargo-lts-local-registry-fork/.git");
    assert_eq!(mirror().git_dir(false), CHECKOUT);
    assert_eq!(
        mirror().crate_path("serde"),
        "/work/.cargo/cargo-lts-local-registry-fork/se/rd/serde"
    );
}

#[test]
fn deinit_deletes_a_mirror_that_is_there() {
    let index = mirror();
    assert_eq!(
        index.deinit(DeinitState::Start, done()),
        Step::Run(DeinitState::Probing, Effect::Probe(String::from(CHECKOUT)))
    );
    assert_eq!(
        index.deinit(DeinitState::Probing, Reply::Found(true)),
        Step::Run(DeinitState::Removing, Effect::RemoveTree(String::from(CHECKOUT)))
    );
    assert_eq!(index.deinit(DeinitState::Removing, done()), Step::Done(()));
}

#[test]
fn deinit_of_an_absent_mirror_is_no_error() {
    assert_eq!(mirror().deinit(DeinitState::Probing, Reply::Found(false)), Step::Done(()));
}

#[test]
fn deinit_fails_where_the_mirror_cannot_be_deleted() {
    let index = mirror();
    assert_eq!(
        index.deinit(DeinitState::Removing, Reply::Fault(String::from("Permission denied"))),
        Step::Fail(String::from("Permission denied"))
    );
    assert_eq!(
        index.deinit(DeinitState::Removing, failed("busy")),
        Step::Fail(String::from("busy"))
    );
    assert_eq!(
        index.deinit(DeinitState::Probing, done()),
        Step::Fail(String::from("reply does not answer the effect"))
    );
}

#[test]
fn a_new_mirror_gets_the_known_broken_versions_yanked() {
    let index = mirror();
    let defaults = vec![
        YankSpec::new("libc", "^0.1", true).unwrap(),
        YankSpec::new("log", "<0.3.6", true).unwrap(),
    ];
    let mut asked = Vec::new();
    let mut step = index.init(None, &defaults, InitState::Start, done());
    let end = loop {
        match step {
            Step::Run(state, effect) => {
                let reply = match &effect {
                    Effect::Probe(_) => Reply::Found(false),
                    Effect::Read(_) => Reply::Bytes(b"not a record\n".to_vec()),
                    Effect::Decode(lines) => Reply::Records(lines.iter().map(|_| None).collect()),
                    _ => done(),
                };
                asked.push(effect);
                step = index.init(None, &defaults, state, reply);
            }
            end => break end,
        }
    };
    assert_eq!(end, Step::Done(MirrorChange::Created));
    let rename = asked.iter().position(|effect| matches!(effect, Effect::Rename { .. })).unwrap();
    assert_eq!(
        asked[rename + 1..],
        [
            Effect::Read(format!("{}/li/bc/libc", CHECKOUT)),
            Effect::Decode(vec![b"not a record".to_vec()]),
            Effect::Read(format!("{}/3/l/log", CHECKOUT)),
            Effect::Decode(vec![b"not a record".to_vec()]),
        ]
    );
}

#[test]
fn a_mirror_that_is_updated_gets_nothing_yanked() {
    let index = mirror();
    let defaults = vec![YankSpec::new("libc", "^0.1", true).unwrap()];
    let step = index.init(None, &defaults, InitState::Updating(UpdateState::Merging), done());
    assert_eq!(step, Step::Done(MirrorChange::Updated));
    let step = index.init(
        None,
        &defaults,
        InitState::Yanking(EditState::Committing),
        failed(""),
    );
    assert_eq!(step, Step::Fail(String::from("Failed to commit changes")));
}

#[test]
fn the_commands_of_the_mirror() {
    let index = mirror();
    assert_eq!(
        Effect::Git(index.git_add("/work/x")),
        in_directory(CHECKOUT, false, false, &["add", "--", "/work/x"])
    );
    assert_eq!(
        Effect::Git(index.git_commit()),
        in_directory(CHECKOUT, true, false, &["commit", "--quiet", "-m", "cargo lts changes"])
    );
    assert_eq!(
        Effect::Git(index.fetch_crates_io_into_repo()),
        in_directory(CHECKOUT, false, true, &["fetch", URL])
    );
    assert_eq!(
        Effect::Git(ForkedRegistryIndex::remove_git_origin("/tmp/x")),
        in_directory("/tmp/x", false, false, &["remote", "rm", "origin"])
    );
}

#[test]
fn a_fresh_mirror_is_cloned_shallow_from_upstream() {
    let (asked, end) = run_init(None, &|_| false, &|_| None);
    assert_eq!(end, Step::Done(MirrorChange::Created));
    let expected = vec![
        Effect::Probe(String::from(CHECKOUT)),
        Effect::MakeDirs(String::from("/work/.cargo")),
        Effect::RemoveTree(String::from(TEMPORARY)),
        Effect::Probe(String::from(TEMPORARY)),
        anywhere(true, &["clone", "--depth=1", URL, TEMPORARY]),
        in_directory(TEMPORARY, false, false, &["remote", "rm", "origin"]),
        Effect::RemoveTree(String::from(CHECKOUT)),
        Effect::Rename { from: String::from(TEMPORARY), to: String::from(CHECKOUT) },
    ];
    assert_eq!(asked, expected);
}

#[test]
fn a_fresh_mirror_is_cloned_shallow_where_cargo_has_no_clone() {
    let (asked, end) = run_init(Some(HOME), &|_| false, &|_| None);
    assert_eq!(end, Step::Done(MirrorChange::Created));
    assert_eq!(asked[3], Effect::Probe(String::from(REFERENCE)));
    assert_eq!(asked[4], Effect::Probe(String::from(TEMPORARY)));
    assert_eq!(asked[5], anywhere(true, &["clone", "--depth=1", URL, TEMPORARY]));
    assert!(!asked.contains(&in_directory(CHECKOUT, false, true, &["fetch", URL])));
}

#[test]
fn a_fresh_mirror_starts_from_the_clone_that_cargo_has() {
    let (asked, end) = run_init(Some(HOME), &|path| path == REFERENCE, &|_| None);
    assert_eq!(end, Step::Done(MirrorChange::Created));
    let seed = format!(
        "/home/me/.cargo/registry/index/-{}",
        short_hash("file:///work/.cargo/cargo-lts-local-registry-fork")
    );
    let expected = vec![
        Effect::Probe(String::from(CHECKOUT)),
        Effect::MakeDirs(String::from("/work/.cargo")),
        Effect::RemoveTree(String::from(TEMPORARY)),
        Effect::Probe(String::from(REFERENCE)),
        Effect::Probe(String::from(TEMPORARY)),
        anywhere(true, &["clone", REFERENCE, TEMPORARY]),
        in_directory(TEMPORARY, false, false, &["remote", "rm", "origin"]),
        Effect::RemoveTree(String::from(CHECKOUT)),
        Effect::Rename { from: String::from(TEMPORARY), to: String::from(CHECKOUT) },
        in_directory(CHECKOUT, false, true, &["fetch", URL]),
        in_directory(CHECKOUT, false, false, &["reset", "--hard", "FETCH_HEAD"]),
        Effect::Resolve(String::from(CHECKOUT)),
        Effect::Probe(seed.clone()),
        anywhere(false, &["clone", "--bare", CHECKOUT, &seed]),
    ];
    assert_eq!(asked, expected);
}

#[test]
fn a_failed_clone_is_cleared_away() {
    let (asked, end) = run_init(None, &|_| false, &|effect| match effect {
        Effect::Git(command) if command.args[0] == "clone" => Some(failed("fatal: no network")),
        _ => None,
    });
    assert_eq!(end, Step::Fail(String::from("Clone of crates.io index failed")));
    assert_eq!(asked.last(), Some(&Effect::RemoveTree(String::from(TEMPORARY))));
    assert!(!asked.contains(&Effect::RemoveTree(String::from(CHECKOUT))));
    assert!(!asked.iter().any(|effect| matches!(effect, Effect::Rename { .. })));
}

#[test]
fn a_clone_that_could_not_run_is_cleared_away_too() {
    let (asked, end) = run_init(None, &|_| false, &|effect| match effect {
        Effect::Git(command) if command.args[0] == "clone" => {
            Some(Reply::Fault(String::from("git: not found")))
        }
        _ => None,
    });
    assert_eq!(end, Step::Fail(String::from("git: not found")));
    assert_eq!(asked.last(), Some(&Effect::RemoveTree(String::from(TEMPORARY))));
}

#[test]
fn nothing_reaches_the_mirror_before_the_rename() {
    let (asked, _) = run_init(Some(HOME), &|path| path == REFERENCE, &|_| None);
    let rename = asked.iter().position(|effect| matches!(effect, Effect::Rename { .. })).unwrap();
    for effect in &asked[..rename] {
        match effect {
            Effect::Git(command) => {
                assert_ne!(command.dir.as_deref(), Some(CHECKOUT));
                assert_ne!(command.args.last().map(|arg| arg.as_str()), Some(CHECKOUT));
            }
            Effect::MakeDirs(path) => assert_ne!(path, CHECKOUT),
            Effect::Write { path, .. } => assert_ne!(path, CHECKOUT),
            _ => {}
        }
    }
}

#[test]
fn cloning_gives_up_where_the_temporary_directory_stays() {
    let (asked, end) = run_init(None, &|path| path == TEMPORARY, &|_| None);
    assert_eq!(end, Step::Fail(String::from("the temporary clone could not be cleared")));
    assert!(!asked.iter().any(|effect| matches!(effect, Effect::Git(_))));
}

#[test]
fn cloning_fails_where_the_remote_stays() {
    let (_, end) = run_init(None, &|_| false, &|effect| match effect {
        Effect::Git(command) if command.args[0] == "remote" => Some(failed("")),
        _ => None,
    });
    assert_eq!(end, Step::Fail(String::from("failed to remove origin from git checkout")));
}

#[test]
fn cloning_fails_where_the_refresh_fails() {
    let (_, end) = run_init(Some(HOME), &|path| path == REFERENCE, &|effect| match effect {
        Effect::Git(command) if command.args[0] == "fetch" => Some(failed("")),
        _ => None,
    });
    assert_eq!(end, Step::Fail(String::from("Update of crates.io index failed")));
    let (_, end) = run_init(Some(HOME), &|path| path == REFERENCE, &|effect| match effect {
        Effect::Git(command) if command.args[0] == "reset" => Some(failed("")),
        _ => None,
    });
    assert_eq!(
        end,
        Step::Fail(String::from("Failed to update forked index to latest crates.io version"))
    );
}

#[test]
fn cloning_fails_where_the_rename_fails() {
    let (_, end) = run_init(None, &|_| false, &|effect| match effect {
        Effect::Rename { .. } => Some(Reply::Fault(String::from("Permission denied"))),
        _ => None,
    });
    assert_eq!(end, Step::Fail(String::from("Permission denied")));
}

#[test]
fn the_seed_is_optional() {
    let (_, end) = run_init(Some(HOME), &|_| false, &|effect| match effect {
        Effect::Resolve(_) => Some(Reply::Fault(String::from("No such file"))),
        _ => None,
    });
    assert_eq!(end, Step::Done(MirrorChange::Created));
    let (asked, end) = run_init(Some(HOME), &|path| path.contains("/registry/index/-"), &|_| None);
    assert_eq!(end, Step::Done(MirrorChange::Created));
    assert!(matches!(asked.last(), Some(Effect::Probe(_))));
    let (_, end) = run_init(Some(HOME), &|_| false, &|effect| match effect {
        Effect::Git(command) if command.args[1] == "--bare" => Some(failed("exists")),
        _ => None,
    });
    assert_eq!(end, Step::Done(MirrorChange::Created));
}

#[test]
fn a_home_that_is_not_absolute_counts_as_unknown() {
    let (relative, end) = run_init(Some("relative/.cargo"), &|_| false, &|_| None);
    assert_eq!(end, Step::Done(MirrorChange::Created));
    let (unknown, _) = run_init(None, &|_| false, &|_| None);
    assert_eq!(relative, unknown);
    assert!(relative.contains(&anywhere(true, &["clone", "--depth=1", URL, TEMPORARY])));
}

#[test]
fn a_mirror_without_a_parent_is_refused() {
    let index = ForkedRegistryIndex::new(String::from("/"));
    let step = index.clone_crates_io_to_local_fork(None, ForkState::Start, done());
    assert_eq!(step, Step::Fail(String::from("the mirror's path has no parent directory")));
}

#[test]
fn an_existing_mirror_is_updated() {
    let (asked, end) = run_init(Some(HOME), &|path| path == CHECKOUT, &|_| None);
    assert_eq!(end, Step::Done(MirrorChange::Updated));
    let expected = vec![
        Effect::Probe(String::from(CHECKOUT)),
        in_directory(CHECKOUT, false, true, &["fetch", URL]),
        in_directory(
            CHECKOUT,
            true,
            false,
            &["merge", "-Xtheirs", "--allow-unrelated-histories", "-m", "cargo lts update", "FETCH_HEAD"],
        ),
    ];
    assert_eq!(asked, expected);
}

#[test]
fn an_update_fails_where_fetch_or_merge_fails() {
    let index = mirror();
    assert_eq!(
        index.update_cloned_repo_fork(UpdateState::Fetching, failed("")),
        Step::Fail(String::from("Update of crates.io index failed"))
    );
    assert_eq!(
        index.update_cloned_repo_fork(UpdateState::Merging, failed("")),
        Step::Fail(String::from("Merge of crates.io index failed"))
    );
    assert_eq!(
        index.update_cloned_repo_fork(UpdateState::Merging, Reply::Fault(String::from("git: not found"))),
        Step::Fail(String::from("git: not found"))
    );
    assert_eq!(index.update_cloned_repo_fork(UpdateState::Merging, done()), Step::Done(()));
}

/// Performs an effect on a model of the disk: the set of directories that
/// exist. Every run of `git` succeeds, and a clone makes its destination.
fn perform(disk: &mut BTreeSet<String>, effect: &Effect) -> Reply {
    match effect {
        Effect::Probe(path) => return Reply::Found(disk.contains(path)),
        Effect::Resolve(path) => return Reply::Done(path.clone()),
        Effect::MakeDirs(path) => {
            disk.insert(path.clone());
        }
        Effect::RemoveTree(path) => {
            if !disk.remove(path) {
                return Reply::Fault(String::from("No such file or directory"));
            }
        }
        Effect::Rename { from, to } => {
            if !disk.remove(from) || disk.contains(to) {
                return Reply::Fault(String::from("cannot rename"));
            }
            disk.insert(to.clone());
        }
        Effect::Git(command) if command.args[0] == "clone" => {
            disk.insert(command.args.last().unwrap().clone());
        }
        _ => {}
    }
    done()
}

/// Runs a deletion of the mirror on the model disk.
fn run_deinit(disk: &mut BTreeSet<String>) -> (Vec<Effect>, Step<DeinitState, ()>) {
    let index = mirror();
    let mut asked = Vec::new();
    let mut step = index.deinit(DeinitState::Start, done());
    loop {
        match step {
            Step::Run(state, effect) => {
                let reply = perform(disk, &effect);
                asked.push(effect);
                step = index.deinit(state, reply);
            }
            end => return (asked, end),
        }
    }
}

#[test]
fn init_after_deinit_clones_whatever_was_there() {
    for was_there in [false, true] {
        let index = mirror();
        let defaults = Vec::new();
        let mut disk = BTreeSet::new();
        disk.insert(String::from("/work"));
        if was_there {
            disk.insert(String::from("/work/.cargo"));
            disk.insert(String::from(CHECKOUT));
        }
        let (asked, end) = run_deinit(&mut disk);
        assert_eq!(end, Step::Done(()));
        assert_eq!(asked.len(), if was_there { 2 } else { 1 });
        assert!(!disk.contains(CHECKOUT));

        let mut step = index.init(None, &defaults, InitState::Start, done());
        let mut clones: usize = 0;
        let end = loop {
            match step {
                Step::Run(state, effect) => {
                    if matches!(&effect, Effect::Git(command) if command.args[0] == "clone") {
                        clones += 1;
                    }
                    let reply = perform(&mut disk, &effect);
                    step = index.init(None, &defaults, state, reply);
                }
                end => break end,
            }
        };
        assert_eq!(end, Step::Done(MirrorChange::Created));
        assert_eq!(clones, 1);
        assert!(disk.contains(CHECKOUT));
        assert!(!disk.contains(TEMPORARY));

        let mut step = index.init(None, &defaults, InitState::Start, done());
        let end = loop {
            match step {
                Step::Run(state, effect) => {
                    let reply = perform(&mut disk, &effect);
                    step = index.init(None, &defaults, state, reply);
                }
                end => break end,
            }
        };
        assert_eq!(end, Step::Done(MirrorChange::Updated));
    }
}

#[test]
fn deinit_twice_is_no_error() {
    let mut disk = BTreeSet::new();
    disk.insert(String::from(CHECKOUT));
    assert_eq!(run_deinit(&mut disk).1, Step::Done(()));
    let (asked, end) = run_deinit(&mut disk);
    assert_eq!(end, Step::Done(()));
    assert_eq!(asked, vec![Effect::Probe(String::from(CHECKOUT))]);
    assert!(disk.is_empty());
}

#[test]
fn init_wants_an_answer_to_its_probe() {
    let step = mirror().init(None, &Vec::new(), InitState::Probing, done());
    assert_eq!(step, Step::Fail(String::from("reply does not answer the effect")));
}

#[test]
fn cloning_beside_a_given_directory() {
    let index = mirror();
    assert_eq!(
        index.clone_beside(Some("/elsewhere"), None, ForkState::Start, done()),
        Step::Run(ForkState::MakingParent, Effect::MakeDirs(String::from("/elsewhere")))
    );
    assert_eq!(
        index.clone_beside(Some("/elsewhere"), None, ForkState::MakingParent, done()),
        Step::Run(
            ForkState::ClearingTemp,
            Effect::RemoveTree(String::from("/elsewhere/.cargo-lts-making-local-fork"))
        )
    );
    assert_eq!(
        index.clone_beside(None, None, ForkState::Start, done()),
        Step::Fail(String::from("the mirror's path has no parent directory"))
    );
    assert_eq!(
        index.clone_beside(Some("/work/.cargo"), None, ForkState::Start, done()),
        index.clone_crates_io_to_local_fork(None, ForkState::Start, done())
    );
}
