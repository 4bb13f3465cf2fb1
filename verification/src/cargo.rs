//! Where a project and Cargo keep what the mirror needs.

use crate::cargo_repository_hash::{hex_le, registry_hash, short_hash};
use crate::snapshot::CRATES_IO_INDEX_DIR;
use crate::text::{absolute, concat, is_absolute, join_path, joined, push_text};
use vstd::prelude::*;
use vstd::string::*;

verus! {

/// The directories of the project that the mirror belongs to.
#[derive(Debug, Clone)]
pub struct CargoConfig {
    manifest_dir: String,
    dot_cargo_dir: String,
}

/// What a [`CargoConfig`] holds.
pub struct CargoConfigView {
    pub manifest_dir: Seq<char>,
    pub dot_cargo_dir: Seq<char>,
}

impl View for CargoConfig {
    type V = CargoConfigView;

    closed spec fn view(&self) -> CargoConfigView {
        CargoConfigView { manifest_dir: self.manifest_dir@, dot_cargo_dir: self.dot_cargo_dir@ }
    }
}

/// `path` with every space written as `%20`.
pub open spec fn escaped(path: Seq<char>) -> Seq<char>
    decreases path.len(),
{
    if path.len() == 0 {
        seq![]
    } else if path.last() == ' ' {
        escaped(path.drop_last()) + "%20"@
    } else {
        escaped(path.drop_last()).push(path.last())
    }
}

/// The `file://` URL of the repository at the absolute path `path`.
pub open spec fn file_url(path: Seq<char>) -> Seq<char> {
    "file://"@ + escaped(path)
}

/// Cargo's home as far as it can be relied on: one that is not an absolute
/// path says nothing of where Cargo keeps its files.
pub open spec fn usable_home(cargo_home: Option<Seq<char>>) -> Option<Seq<char>> {
    match cargo_home {
        Some(home) if is_absolute(home) => cargo_home,
        _ => None,
    }
}

/// Where Cargo keeps its own clone of the upstream index, given its home.
pub open spec fn upstream_clone(cargo_home: Seq<char>) -> Seq<char> {
    joined(cargo_home, CRATES_IO_INDEX_DIR@)
}

/// Where Cargo keeps its clone of the registry at the absolute path
/// `repo_path`, given its home.
pub open spec fn custom_clone(cargo_home: Seq<char>, repo_path: Seq<char>) -> Seq<char> {
    joined(
        joined(joined(cargo_home, "registry"@), "index"@),
        "-"@ + hex_le(registry_hash(file_url(repo_path))),
    )
}

/// Cargo's home as far as it can be relied on.
pub fn reliable_home<'a>(cargo_home: Option<&'a str>) -> (home: Option<&'a str>)
    ensures
        home.deep_view() == usable_home(cargo_home.deep_view()),
{
    match cargo_home {
        Some(home) => {
            if absolute(home) {
                cargo_home
            } else {
                None
            }
        },
        None => None,
    }
}

impl CargoConfig {
    /// The configuration of the project whose manifest lies in
    /// `manifest_dir`.
    pub fn new(manifest_dir: String) -> (config: CargoConfig)
        ensures
            config@.manifest_dir == manifest_dir@,
            config@.dot_cargo_dir == joined(manifest_dir@, ".cargo"@),
    {
        CargoConfig { dot_cargo_dir: join_path(manifest_dir.as_str(), ".cargo"), manifest_dir }
    }

    /// The directory that holds the project's manifest.
    pub fn manifest_dir(&self) -> (dir: &str)
        ensures
            dir@ == self@.manifest_dir,
    {
        self.manifest_dir.as_str()
    }

    /// The project's own Cargo directory.
    pub fn dot_cargo_dir(&self) -> (dir: &str)
        ensures
            dir@ == self@.dot_cargo_dir,
    {
        self.dot_cargo_dir.as_str()
    }

    /// Where the project's mirror of the index lies.
    pub fn default_forked_index_repository_path(&self) -> (path: String)
        ensures
            path@ == joined(self@.dot_cargo_dir, "cargo-lts-local-registry-fork"@),
    {
        join_path(self.dot_cargo_dir.as_str(), "cargo-lts-local-registry-fork")
    }

    /// The `file://` URL of the repository at `repo_path`, which is absolute
    /// and free of links.
    pub fn repo_path_as_url(repo_path: &str) -> (url: String)
        ensures
            url@ == file_url(repo_path@),
    {
        let len: usize = repo_path.unicode_len();
        let mut url = String::from_str("file://");
        let mut at: usize = 0;
        while at < len
            invariant
                len == repo_path@.len(),
                at <= len,
                url@ == "file://"@ + escaped(repo_path@.take(at as int)),
            decreases len - at,
        {
            let ghost seen = repo_path@.take(at as int);
            let ghost next = repo_path@.take(at as int + 1);
            assert(next.drop_last() =~= seen);
            if repo_path.get_char(at) == ' ' {
                url.append("%20");
            } else {
                let one = repo_path.substring_char(at, at + 1);
                url.append(one);
            }
            at = at + 1;
        }
        assert(repo_path@.take(len as int) =~= repo_path@);
        url
    }

    /// Where Cargo keeps its own clone of the upstream index, if Cargo's home
    /// is known and absolute. Whether a clone lies there is for the caller to
    /// find out.
    pub fn cargo_private_crates_io_git_repo_path(cargo_home: Option<&str>) -> (path: Option<
        String,
    >)
        ensures
            path.deep_view() == match usable_home(cargo_home.deep_view()) {
                Some(home) => Some(upstream_clone(home)),
                None => None,
            },
    {
        match cargo_home {
            Some(home) => {
                if absolute(home) {
                    Some(join_path(home, CRATES_IO_INDEX_DIR))
                } else {
                    None
                }
            },
            None => None,
        }
    }

    /// Where Cargo would keep its clone of the registry at `repo_path`, if
    /// Cargo's home is known and absolute and `repo_path` could be made
    /// absolute.
    pub fn cargo_private_custom_git_repo_path(
        cargo_home: Option<&str>,
        repo_path: Option<&str>,
    ) -> (path: Option<String>)
        ensures
            path.deep_view() == match (usable_home(cargo_home.deep_view()), repo_path) {
                (Some(home), Some(repo)) => Some(custom_clone(home, repo@)),
                _ => None,
            },
    {
        match (cargo_home, repo_path) {
            (Some(home), Some(repo)) => {
                if absolute(home) {
                    let url = Self::repo_path_as_url(repo);
                    let hash = short_hash(url.as_str());
                    let leaf = concat("-", hash.as_str());
                    let registry = join_path(home, "registry");
                    let index = join_path(registry.as_str(), "index");
                    Some(join_path(index.as_str(), leaf.as_str()))
                } else {
                    None
                }
            },
            _ => None,
        }
    }
}

/// The comment that opens the section which this library writes into a
/// project's Cargo configuration.
pub const OVERRIDE_COMMENT: &'static str = "# delete this to restore to the default registry";

/// Whether Unicode counts `c` as white space: the characters that have the
/// property `White_Space`.
pub open spec fn is_whitespace(c: char) -> bool {
    let code = c as u32;
    ||| 0x09 <= code <= 0x0d
    ||| code == 0x20
    ||| code == 0x85
    ||| code == 0xa0
    ||| code == 0x1680
    ||| 0x2000 <= code <= 0x200a
    ||| code == 0x2028
    ||| code == 0x2029
    ||| code == 0x202f
    ||| code == 0x205f
    ||| code == 0x3000
}

/// Whether Unicode counts `c` as white space.
pub fn whitespace(c: char) -> (yes: bool)
    ensures
        yes == is_whitespace(c),
{
    let code: u32 = c as u32;
    (0x09 <= code && code <= 0x0d) || code == 0x20 || code == 0x85 || code == 0xa0 || code
        == 0x1680 || (0x2000 <= code && code <= 0x200a) || code == 0x2028 || code == 0x2029
        || code == 0x202f || code == 0x205f || code == 0x3000
}

/// Whether `text` begins with `prefix`.
pub fn starts_with(text: &str, prefix: &str) -> (yes: bool)
    ensures
        yes == prefix@.is_prefix_of(text@),
{
    let len: usize = prefix.unicode_len();
    if text.unicode_len() < len {
        return false;
    }
    let mut at: usize = 0;
    while at < len
        invariant
            len == prefix@.len(),
            len <= text@.len(),
            at <= len,
            forall|i: int| 0 <= i < at ==> text@[i] == prefix@[i],
        decreases len - at,
    {
        if text.get_char(at) != prefix.get_char(at) {
            return false;
        }
        at = at + 1;
    }
    true
}

/// Whether a line of the configuration opens a section, or is the comment
/// that opens this library's own.
pub open spec fn opens_section(line: Seq<char>) -> bool {
    "["@.is_prefix_of(line) || OVERRIDE_COMMENT@.is_prefix_of(line)
}

/// Whether a line that opens a section opens one that this library writes:
/// its comment, the replacement of the upstream source, or a source of its
/// own.
pub open spec fn opens_own_section(line: Seq<char>) -> bool {
    ||| OVERRIDE_COMMENT@.is_prefix_of(line)
    ||| "[source.crates-io]"@.is_prefix_of(line)
    ||| "[source.lts-repo-"@.is_prefix_of(line)
}

/// Whether, after `lines`, the configuration is inside a section that this
/// library wrote.
pub open spec fn inside_own_section(lines: Seq<Seq<char>>) -> bool
    decreases lines.len(),
{
    if lines.len() == 0 {
        false
    } else if opens_section(lines.last()) {
        opens_own_section(lines.last())
    } else {
        inside_own_section(lines.drop_last())
    }
}

/// The configuration without the sections that this library wrote: every
/// other line, in order, each ended by a line feed.
pub open spec fn filtered(lines: Seq<Seq<char>>) -> Seq<char>
    decreases lines.len(),
{
    if lines.len() == 0 {
        seq![]
    } else if inside_own_section(lines) {
        filtered(lines.drop_last())
    } else {
        filtered(lines.drop_last()) + lines.last() + seq!['\n']
    }
}

/// The section that points Cargo at the registry at `repo_url`.
pub open spec fn override_section(repo_url: Seq<char>) -> Seq<char> {
    OVERRIDE_COMMENT@
        + "\n[source.crates-io]\nreplace-with = 'lts-repo-local-fork'\n\n[source.lts-repo-local-fork] # `cargo lts` modified copy of the crates.io registry\nregistry = '"@
        + repo_url + "'\n"@
}

/// Whether `text` holds nothing but white space.
pub open spec fn is_blank(text: Seq<char>) -> bool {
    forall|i: int| 0 <= i < text.len() ==> is_whitespace(#[trigger] text[i])
}

/// Which directory counts as the project's: the configured one where there
/// is one; else the outermost of `ancestors` that holds a manifest; else
/// `cwd`. `ancestors` are the directories above `cwd`, nearest first, and
/// `holds_manifest` says of each whether a manifest lies in it; where the two
/// lists differ in length, neither is used.
pub open spec fn manifest_dir_of(
    configured: Option<Seq<char>>,
    cwd: Seq<char>,
    ancestors: Seq<Seq<char>>,
    holds_manifest: Seq<bool>,
) -> Seq<char>
    decreases ancestors.len(),
{
    match configured {
        Some(dir) => dir,
        None => if ancestors.len() == 0 || holds_manifest.len() != ancestors.len() {
            cwd
        } else if holds_manifest.last() {
            ancestors.last()
        } else {
            manifest_dir_of(configured, cwd, ancestors.drop_last(), holds_manifest.drop_last())
        },
    }
}

/// Picks the project's directory.
pub fn get_cargo_manifest_dir(
    configured: Option<String>,
    cwd: String,
    ancestors: &Vec<String>,
    holds_manifest: &Vec<bool>,
) -> (dir: String)
    ensures
        dir@ == manifest_dir_of(
            configured.deep_view(),
            cwd@,
            ancestors.deep_view(),
            holds_manifest@,
        ),
{
    if let Some(dir) = configured {
        return dir;
    }
    if holds_manifest.len() != ancestors.len() {
        return cwd;
    }
    let mut dir = cwd;
    let mut at: usize = 0;
    while at < ancestors.len()
        invariant
            at <= ancestors@.len(),
            holds_manifest@.len() == ancestors@.len(),
            dir@ == manifest_dir_of(
                None,
                cwd@,
                ancestors.deep_view().take(at as int),
                holds_manifest@.take(at as int),
            ),
        decreases ancestors@.len() - at,
    {
        assert(ancestors.deep_view().take(at as int + 1).drop_last() =~= ancestors.deep_view().take(
            at as int,
        ));
        assert(holds_manifest@.take(at as int + 1).drop_last() =~= holds_manifest@.take(at as int));
        if holds_manifest[at] {
            dir = String::from_str(ancestors[at].as_str());
        }
        at = at + 1;
    }
    assert(ancestors.deep_view().take(at as int) =~= ancestors.deep_view());
    assert(holds_manifest@.take(at as int) =~= holds_manifest@);
    dir
}

impl CargoConfig {
    /// Where the project's Cargo configuration lies.
    pub fn config_path(&self) -> (path: String)
        ensures
            path@ == joined(self@.dot_cargo_dir, "config"@),
    {
        join_path(self.dot_cargo_dir.as_str(), "config")
    }

    /// The configuration, given line by line, without the sections that this
    /// library wrote.
    pub fn filtered_config_toml(lines: &Vec<String>) -> (config_toml: String)
        ensures
            config_toml@ == filtered(lines.deep_view()),
    {
        let mut config_toml = String::new();
        let mut skipping: bool = false;
        let mut at: usize = 0;
        while at < lines.len()
            invariant
                at <= lines@.len(),
                skipping == inside_own_section(lines.deep_view().take(at as int)),
                config_toml@ == filtered(lines.deep_view().take(at as int)),
            decreases lines@.len() - at,
        {
            let ghost seen = lines.deep_view().take(at as int);
            let ghost next = lines.deep_view().take(at as int + 1);
            assert(next.drop_last() =~= seen);
            let line = lines[at].as_str();
            let has_our_comment = starts_with(line, OVERRIDE_COMMENT);
            if starts_with(line, "[") || has_our_comment {
                skipping = has_our_comment || starts_with(line, "[source.crates-io]")
                    || starts_with(line, "[source.lts-repo-");
            }
            if !skipping {
                proof {
                    reveal_strlit("\n");
                }
                config_toml.append(line);
                config_toml.append("\n");
            }
            at = at + 1;
        }
        assert(lines.deep_view().take(at as int) =~= lines.deep_view());
        config_toml
    }

    /// The configuration that points Cargo at the registry at `repo_url`:
    /// what the project has configured besides, then the section for the
    /// registry. `lines` is the present configuration, line by line, or
    /// `None` where there is none.
    pub fn set_index_source_override(lines: Option<&Vec<String>>, repo_url: &str) -> (config_toml:
        String)
        ensures
            config_toml@ == match lines {
                Some(lines) => filtered(lines.deep_view()),
                None => Seq::<char>::empty(),
            } + override_section(repo_url@),
    {
        let mut config_toml = match lines {
            Some(lines) => Self::filtered_config_toml(lines),
            None => String::new(),
        };
        config_toml.append(OVERRIDE_COMMENT);
        config_toml.append(
            "\n[source.crates-io]\nreplace-with = 'lts-repo-local-fork'\n\n[source.lts-repo-local-fork] # `cargo lts` modified copy of the crates.io registry\nregistry = '",
        );
        config_toml.append(repo_url);
        config_toml.append("'\n");
        config_toml
    }

    /// The configuration without what this library wrote, given the present
    /// one line by line, or `None` where nothing but white space is left and
    /// the file is to go.
    pub fn unset_index_source_override(lines: &Vec<String>) -> (config_toml: Option<String>)
        ensures
            config_toml.deep_view() == if is_blank(filtered(lines.deep_view())) {
                None
            } else {
                Some(filtered(lines.deep_view()))
            },
    {
        let config_toml = Self::filtered_config_toml(lines);
        let len: usize = config_toml.as_str().unicode_len();
        let mut at: usize = 0;
        while at < len
            invariant
                len == config_toml@.len(),
                at <= len,
                config_toml@ == filtered(lines.deep_view()),
                forall|i: int| 0 <= i < at ==> is_whitespace(#[trigger] config_toml@[i]),
            decreases len - at,
        {
            if !whitespace(config_toml.as_str().get_char(at)) {
                return Some(config_toml);
            }
            at = at + 1;
        }
        None
    }

    /// The run of Cargo that takes up what the index now holds: `update`, in
    /// the project's directory.
    pub fn cargo_update_from_current_index(&self) -> (run: (String, Vec<String>))
        ensures
            run.0@ == self@.manifest_dir,
            run.1.deep_view() == seq!["update"@],
    {
        let mut args: Vec<String> = Vec::new();
        push_text(&mut args, "update");
        (String::from_str(self.manifest_dir.as_str()), args)
    }
}

} // verus!
