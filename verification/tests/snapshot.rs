use lts::cargo_repository_hash::short_hash;
use lts::effect::{Effect, GitCommand, Reply, Step};
use lts::minidate::Date;
use std::collections::HashMap;
use lts::snapshot::{
    fork_name, needed_snapshot, snapshot_branch, snapshot_dates, Branch, CheckoutState, CutState,
    FetchState, LTS,
};

const URL: &str = "https://github.com/rust-lang/crates.io-index";

fn date(y: u16, m: u8, d: u8) -> Date {
    Date { y, m, d }
}

fn texts(args: &[&str]) -> Vec<String> {
    args.iter().map(|arg| arg.to_string()).collect()
}

fn on_repository(git_dir: &str, args: &[&str]) -> Effect {
    Effect::Git(GitCommand {
        dir: None,
        git_dir: Some(git_dir.to_string()),
        identity: true,
        askpass: true,
        args: texts(args),
    })
}

fn done(text: &str) -> Reply {
    Reply::Done(text.to_string())
}

fn failed(text: &str) -> Reply {
    Reply::Failed(text.to_string())
}

fn handle() -> LTS {
    LTS::new(Some(String::from("/mirror/.git")), String::from("/home/me/.cargo"))
}

#[test]
fn the_handle_defaults_to_the_index_that_cargo_keeps() {
    let lts = LTS::new(None, String::from("/home/me/.cargo"));
    assert_eq!(lts.git_dir(), "/home/me/.cargo/registry/index/github.com-1ecc6299db9ec823/.git");
    assert_eq!(handle().git_dir(), "/mirror/.git");
}

#[test]
fn git_runs_on_the_repository_under_the_fixed_identity() {
    let command = handle().git(texts(&["rev-parse", "HEAD"]));
    assert_eq!(command.git_dir.as_deref(), Some("/mirror/.git"));
    assert_eq!(command.dir, None);
    assert!(command.identity);
    assert!(command.askpass);
    assert_eq!(command.args, texts(&["rev-parse", "HEAD"]));
    assert_eq!(lts::effect::IDENTITY_NAME, "LTS");
    assert_eq!(lts::effect::IDENTITY_EMAIL, "lts@lib.rs");
}

#[test]
fn the_checkpoints_are_in_ascending_order() {
    let dates = snapshot_dates();
    assert_eq!(dates.len(), 21);
    assert_eq!(dates[0], date(2018, 9, 26));
    assert_eq!(dates[20], date(2024, 11, 27));
    for pair in dates.windows(2) {
        assert!(pair[0] < pair[1]);
    }
}

#[test]
fn the_checkpoint_names_are_those_of_upstream() {
    assert_eq!(snapshot_branch(date(2018, 9, 26)), "snapshot-2018-09-26");
    assert_eq!(snapshot_branch(date(2020, 8, 4)), "snapshot-2020-08-04");
    assert_eq!(snapshot_branch(date(2024, 11, 27)), "snapshot-2024-11-27");
}

#[test]
fn the_earliest_checkpoint_at_or_after_the_cutoff_is_needed() {
    let dates = snapshot_dates();
    assert_eq!(needed_snapshot(&dates, date(2018, 9, 26)), Some(0));
    assert_eq!(needed_snapshot(&dates, date(2018, 9, 27)), Some(1));
    assert_eq!(needed_snapshot(&dates, date(2019, 10, 17)), Some(1));
    assert_eq!(needed_snapshot(&dates, date(2020, 1, 1)), Some(2));
    assert_eq!(needed_snapshot(&dates, date(2024, 11, 26)), Some(20));
    assert_eq!(needed_snapshot(&dates, date(2024, 11, 27)), Some(20));
}

#[test]
fn no_checkpoint_is_needed_outside_the_list() {
    let dates = snapshot_dates();
    assert_eq!(needed_snapshot(&dates, date(2018, 9, 25)), None);
    assert_eq!(needed_snapshot(&dates, date(2000, 1, 1)), None);
    assert_eq!(needed_snapshot(&dates, date(2024, 11, 28)), None);
    assert_eq!(needed_snapshot(&dates, date(2199, 1, 1)), None);
    assert_eq!(needed_snapshot(&vec![], date(2020, 1, 1)), None);
}

#[test]
fn the_first_qualifying_checkpoint_is_picked_in_list_order() {
    let dates = vec![date(2020, 1, 1), date(2022, 1, 1), date(2021, 1, 1)];
    assert_eq!(needed_snapshot(&dates, date(2020, 6, 1)), Some(1));
    assert_eq!(needed_snapshot(&dates, date(2021, 6, 1)), Some(1));
    assert_eq!(needed_snapshot(&dates, date(2022, 6, 1)), None);
}

#[test]
fn fetch_asks_whether_the_checkpoint_is_here() {
    let step = handle().fetch(date(2020, 1, 1), FetchState::Start, done(""));
    assert_eq!(
        step,
        Step::Run(
            FetchState::Checking,
            on_repository("/mirror/.git", &["rev-parse", "snapshot-2020-03-25", "--"])
        )
    );
}

#[test]
fn fetch_is_done_where_the_checkpoint_is_here() {
    let step = handle().fetch(date(2020, 1, 1), FetchState::Checking, done("abc"));
    assert_eq!(step, Step::Done(()));
}

#[test]
fn fetch_fetches_the_one_checkpoint_where_it_is_missing() {
    let step = handle().fetch(date(2020, 1, 1), FetchState::Checking, failed("unknown revision"));
    assert_eq!(
        step,
        Step::Run(
            FetchState::Fetching,
            on_repository(
                "/mirror/.git",
                &["fetch", URL, "snapshot-2020-03-25:snapshot-2020-03-25"]
            )
        )
    );
    let step = handle().fetch(date(2020, 1, 1), FetchState::Checking, Reply::Fault("no git".into()));
    assert!(matches!(step, Step::Run(FetchState::Fetching, _)));
    assert_eq!(handle().fetch(date(2020, 1, 1), FetchState::Fetching, done("")), Step::Done(()));
}

#[test]
fn fetch_fails_with_what_the_fetch_reported() {
    let step = handle().fetch(date(2020, 1, 1), FetchState::Fetching, failed("no network"));
    assert_eq!(step, Step::Fail(String::from("no network")));
    let step = handle().fetch(date(2020, 1, 1), FetchState::Fetching, Reply::Found(true));
    assert_eq!(step, Step::Fail(String::from("reply does not answer the effect")));
}

#[test]
fn fetch_does_nothing_outside_the_checkpoints() {
    assert_eq!(handle().fetch(date(2018, 1, 1), FetchState::Start, done("")), Step::Done(()));
    assert_eq!(handle().fetch(date(2025, 1, 1), FetchState::Start, done("")), Step::Done(()));
    assert_eq!(handle().fetch(date(2025, 1, 1), FetchState::Checking, failed("")), Step::Done(()));
}

#[test]
fn branches_are_named_by_ten_characters_of_the_source() {
    assert_eq!(
        fork_name("0123456789abcdef0123456789abcdef01234567"),
        Some(String::from("lts-repo-at-0123456789"))
    );
    assert_eq!(fork_name("0123456789"), Some(String::from("lts-repo-at-0123456789")));
    assert_eq!(fork_name("012345678"), None);
    assert_eq!(fork_name(""), None);
}

const SOURCE: &str = "a1b2c3d4e5f60718293a4b5c6d7e8f9012345678";
const HEAD: &str = "ffeeddccbbaa99887766554433221100ffeeddcc";

fn frozen() -> Branch {
    Branch { name: String::from("lts-repo-at-a1b2c3d4e5"), head: String::from(HEAD) }
}

fn asks_for_the_branch() -> Effect {
    on_repository("/mirror/.git", &["rev-parse", "--verify", "refs/heads/lts-repo-at-a1b2c3d4e5"])
}

#[test]
fn cut_walks_from_the_log_to_the_branch() {
    let lts = handle();
    let cutoff = date(2021, 3, 4);
    let step = lts.cut_branch_at(cutoff, CutState::Start, done(""));
    assert_eq!(
        step,
        Step::Run(
            CutState::Finding,
            on_repository(
                "/mirror/.git",
                &["log", "--all", "-1", "--format=%H", "--until", "2021-03-04"]
            )
        )
    );
    let step = lts.cut_branch_at(cutoff, CutState::Finding, done(SOURCE));
    assert_eq!(
        step,
        Step::Run(CutState::Resolving { source: String::from(SOURCE) }, asks_for_the_branch())
    );
    let step = lts.cut_branch_at(
        cutoff,
        CutState::Resolving { source: SOURCE.into() },
        failed("fatal: Needed a single revision"),
    );
    assert_eq!(
        step,
        Step::Run(
            CutState::Committing { source: String::from(SOURCE) },
            on_repository(
                "/mirror/.git",
                &[
                    "commit-tree",
                    "a1b2c3d4e5f60718293a4b5c6d7e8f9012345678^{tree}",
                    "-m",
                    "Registry at 2021-03-04"
                ]
            )
        )
    );
    let step = lts.cut_branch_at(cutoff, CutState::Committing { source: SOURCE.into() }, done(HEAD));
    assert_eq!(
        step,
        Step::Run(
            CutState::Branching { branch: frozen() },
            on_repository("/mirror/.git", &["branch", "lts-repo-at-a1b2c3d4e5", HEAD])
        )
    );
    let step = lts.cut_branch_at(cutoff, CutState::Branching { branch: frozen() }, done(""));
    assert_eq!(step, Step::Done(frozen()));
}

#[test]
fn cut_sets_the_reference_where_branches_cannot_be_made() {
    let lts = handle();
    let cutoff = date(2021, 3, 4);
    let step = lts.cut_branch_at(
        cutoff,
        CutState::Branching { branch: frozen() },
        failed("fatal: not a valid object name"),
    );
    assert_eq!(
        step,
        Step::Run(
            CutState::Referring { branch: frozen() },
            on_repository(
                "/mirror/.git",
                &["update-ref", "refs/heads/lts-repo-at-a1b2c3d4e5", HEAD]
            )
        )
    );
    let step = lts.cut_branch_at(cutoff, CutState::Referring { branch: frozen() }, done(""));
    assert_eq!(step, Step::Done(frozen()));
}

/// A repository that knows its branches: runs a cut to its end and gives the
/// effects asked for and the result. A new commit gets `fresh` as its id.
fn cut_in(
    branches: &mut HashMap<String, String>,
    cutoff: Date,
    fresh: &str,
) -> (Vec<Effect>, Step<CutState, Branch>) {
    let lts = handle();
    let mut asked = Vec::new();
    let mut step = lts.cut_branch_at(cutoff, CutState::Start, done(""));
    loop {
        match step {
            Step::Run(state, effect) => {
                let reply = match &effect {
                    Effect::Git(command) => match command.args[0].as_str() {
                        "log" => done(SOURCE),
                        "rev-parse" => {
                            let name = command.args[2].trim_start_matches("refs/heads/");
                            match branches.get(name) {
                                Some(head) => done(head),
                                None => failed("fatal: Needed a single revision"),
                            }
                        }
                        "commit-tree" => done(fresh),
                        "branch" => {
                            if branches.contains_key(&command.args[1]) {
                                failed("fatal: a branch of that name already exists")
                            } else {
                                branches.insert(command.args[1].clone(), command.args[2].clone());
                                done("")
                            }
                        }
                        "update-ref" => {
                            let name = command.args[1].trim_start_matches("refs/heads/");
                            branches.insert(name.to_string(), command.args[2].clone());
                            done("")
                        }
                        other => panic!("unexpected git {}", other),
                    },
                    other => panic!("unexpected effect {:?}", other),
                };
                asked.push(effect);
                step = lts.cut_branch_at(cutoff, state, reply);
            }
            end => return (asked, end),
        }
    }
}

#[test]
fn cut_leaves_a_snapshot_that_is_there_as_it_is() {
    let mut branches = HashMap::new();
    let (first, end) = cut_in(&mut branches, date(2021, 3, 4), HEAD);
    assert_eq!(end, Step::Done(frozen()));
    assert_eq!(first.len(), 4);
    assert_eq!(branches["lts-repo-at-a1b2c3d4e5"], HEAD);

    let (second, end) = cut_in(&mut branches, date(2021, 3, 5), "0000000000000000000000000000000000000001");
    assert_eq!(end, Step::Done(frozen()));
    assert_eq!(second.len(), 2);
    assert_eq!(second[1], asks_for_the_branch());
    assert_eq!(branches["lts-repo-at-a1b2c3d4e5"], HEAD);
    assert_eq!(branches.len(), 1);
}

#[test]
fn cut_completes_with_the_branch_that_is_there() {
    let lts = handle();
    let step = lts.cut_branch_at(
        date(2021, 3, 5),
        CutState::Resolving { source: SOURCE.into() },
        done(HEAD),
    );
    assert_eq!(step, Step::Done(frozen()));
}

#[test]
fn cut_names_the_same_branch_for_the_same_source() {
    let lts = handle();
    let first = lts.cut_branch_at(date(2021, 3, 4), CutState::Finding, done(SOURCE));
    let second = lts.cut_branch_at(date(2021, 3, 5), CutState::Finding, done(SOURCE));
    assert_eq!(first, second);
    let other = lts.cut_branch_at(date(2021, 3, 5), CutState::Finding, done("0123456789abcdef"));
    assert_ne!(first, other);
}

#[test]
fn cut_fails_with_what_git_reported() {
    let lts = handle();
    let cutoff = date(2021, 3, 4);
    assert_eq!(
        lts.cut_branch_at(cutoff, CutState::Finding, failed("not a git repository")),
        Step::Fail(String::from("not a git repository"))
    );
    assert_eq!(
        lts.cut_branch_at(cutoff, CutState::Committing { source: SOURCE.into() }, failed("bad tree")),
        Step::Fail(String::from("bad tree"))
    );
    assert_eq!(
        lts.cut_branch_at(cutoff, CutState::Referring { branch: frozen() }, failed("locked")),
        Step::Fail(String::from("locked"))
    );
    assert_eq!(
        lts.cut_branch_at(cutoff, CutState::Finding, done("abc")),
        Step::Fail(String::from("commit id is shorter than ten characters"))
    );
    assert_eq!(
        lts.cut_branch_at(cutoff, CutState::Finding, done("")),
        Step::Fail(String::from("commit id is shorter than ten characters"))
    );
    assert_eq!(
        lts.cut_branch_at(cutoff, CutState::Resolving { source: SOURCE.into() }, Reply::Found(true)),
        Step::Fail(String::from("reply does not answer the effect"))
    );
}

#[test]
fn the_cache_of_a_clone_points_at_the_cache_of_upstream() {
    let url = "file:///work/snapshot/.git";
    let (cache, sources) = handle().make_cache_shared(url);
    assert_eq!(
        cache,
        Effect::Symlink {
            target: String::from("/home/me/.cargo/registry/cache/github.com-1ecc6299db9ec823"),
            link: format!("/home/me/.cargo/registry/cache/-{}", short_hash(url)),
        }
    );
    assert_eq!(
        sources,
        Effect::Symlink {
            target: String::from("/home/me/.cargo/registry/src/github.com-1ecc6299db9ec823"),
            link: format!("/home/me/.cargo/registry/src/-{}", short_hash(url)),
        }
    );
}

/// Runs `clone_to` to its end, answering every effect with `Done`, and
/// collects what was asked for.
fn run_clone(bare: bool) -> (Vec<Effect>, Step<CheckoutState, String>) {
    let lts = handle();
    let branch = frozen();
    let mut asked = Vec::new();
    let mut step = lts.clone_to(&branch, "/work/snapshot", bare, CheckoutState::Start, done(""));
    loop {
        match step {
            Step::Run(state, effect) => {
                let reply = match &effect {
                    Effect::Resolve(path) => Reply::Done(format!("/real{}", path)),
                    _ => done(""),
                };
                asked.push(effect);
                step = lts.clone_to(&branch, "/work/snapshot", bare, state, reply);
            }
            end => return (asked, end),
        }
    }
}

#[test]
fn clone_to_makes_a_checkout_that_shares_the_objects() {
    let (asked, end) = run_clone(false);
    let url = "file:///real/work/snapshot/.git";
    assert_eq!(end, Step::Done(String::from(url)));
    let (cache, sources) = handle().make_cache_shared(url);
    let expected = vec![
        Effect::RemoveTree(String::from("/work/snapshot")),
        Effect::Git(GitCommand {
            dir: None,
            git_dir: None,
            identity: false,
            askpass: false,
            args: texts(&[
                "clone",
                "--single-branch",
                "--branch",
                "lts-repo-at-a1b2c3d4e5",
                "/mirror/.git",
                "/work/snapshot",
            ]),
        }),
        Effect::RemoveTree(String::from("/work/snapshot/.git/objects")),
        Effect::Symlink {
            target: String::from("/mirror/.git/objects"),
            link: String::from("/work/snapshot/.git/objects"),
        },
        on_repository("/work/snapshot/.git", &["update-ref", "HEAD", HEAD]),
        on_repository("/work/snapshot/.git", &["checkout", "-b", "master", HEAD]),
        Effect::Resolve(String::from("/work/snapshot/.git")),
        cache,
        sources,
    ];
    assert_eq!(asked, expected);
}

#[test]
fn clone_to_makes_a_bare_clone() {
    let (asked, end) = run_clone(true);
    assert_eq!(end, Step::Done(String::from("file:///real/work/snapshot")));
    assert_eq!(
        asked[1],
        Effect::Git(GitCommand {
            dir: None,
            git_dir: None,
            identity: false,
            askpass: false,
            args: texts(&[
                "clone",
                "--single-branch",
                "--branch",
                "lts-repo-at-a1b2c3d4e5",
                "--bare",
                "/mirror/.git",
                "/work/snapshot",
            ]),
        })
    );
    assert_eq!(asked[2], Effect::RemoveTree(String::from("/work/snapshot/objects")));
    assert_eq!(asked[4], on_repository("/work/snapshot", &["update-ref", "HEAD", HEAD]));
    assert_eq!(asked[5], on_repository("/work/snapshot", &["branch", "master", HEAD]));
    assert_eq!(asked[6], Effect::Resolve(String::from("/work/snapshot")));
    assert_eq!(asked.len(), 9);
}

#[test]
fn clone_to_clears_the_destination_whatever_comes_of_it() {
    let lts = handle();
    let step = lts.clone_to(&frozen(), "/work/snapshot", false, CheckoutState::Clearing, failed("absent"));
    assert!(matches!(step, Step::Run(CheckoutState::Cloning, Effect::Git(_))));
}

#[test]
fn clone_to_fails_at_the_first_failure() {
    let lts = handle();
    let states = [
        CheckoutState::Cloning,
        CheckoutState::Dropping,
        CheckoutState::Linking,
        CheckoutState::Pointing,
        CheckoutState::Naming,
        CheckoutState::Resolving,
    ];
    for state in states {
        let step = lts.clone_to(&frozen(), "/work/snapshot", false, state, failed("broken"));
        assert_eq!(step, Step::Fail(String::from("broken")));
    }
}

#[test]
fn clone_to_completes_whatever_comes_of_the_links() {
    let lts = handle();
    let url = String::from("file:///real/work/snapshot/.git");
    let step = lts.clone_to(
        &frozen(),
        "/work/snapshot",
        false,
        CheckoutState::SharingCache { url: url.clone() },
        failed("File exists"),
    );
    assert!(matches!(step, Step::Run(CheckoutState::SharingSources { .. }, Effect::Symlink { .. })));
    let step = lts.clone_to(
        &frozen(),
        "/work/snapshot",
        false,
        CheckoutState::SharingSources { url: url.clone() },
        Reply::Fault(String::from("not supported")),
    );
    assert_eq!(step, Step::Done(url));
}
