//! Which versions to yank, and the rewriting of a metadata file.
//!
//! A metadata file holds one record per line. Editing it never adds, drops
//! or reorders lines: a line is either carried over byte for byte or
//! replaced by the same record with its yanked flag flipped.

use crate::range::{parsed_requirement, parsed_version, requirement_admits};
use crate::record::{CrateVersion, CrateVersionView};
use semver::{Version, VersionReq};
use vstd::prelude::*;
use vstd::slice::*;
use vstd::string::*;

verus! {

/// A request to yank, or to restore, the versions of one crate that lie in a
/// range.
#[derive(Debug, PartialEq, Eq)]
pub struct YankSpec {
    pub crate_name: String,
    pub range: VersionReq,
    pub yank: bool,
}

/// What a [`YankSpec`] holds.
pub struct YankSpecView {
    pub crate_name: Seq<char>,
    pub range: VersionReq,
    pub yank: bool,
}

impl View for YankSpec {
    type V = YankSpecView;

    open spec fn view(&self) -> YankSpecView {
        YankSpecView { crate_name: self.crate_name@, range: self.range, yank: self.yank }
    }
}

impl DeepView for YankSpec {
    type V = YankSpecView;

    open spec fn deep_view(&self) -> YankSpecView {
        self@
    }
}

/// Why a text is no yank spec.
#[derive(Debug)]
pub enum SpecFault {
    /// Nothing follows the crate's name.
    NoRange,
    /// The text begins with the range.
    NoName,
    /// What follows the name is no version range.
    BadRange(semver::Error),
}

impl SpecFault {
    /// Whether the fault is the one that keeps `text` from being a spec: no
    /// range where a name fills the text, no name where the text begins with
    /// what no name can hold, a bad range where what follows the name is
    /// none.
    pub open spec fn explains(self, text: Seq<char>) -> bool {
        let end = name_end(text, 0);
        match self {
            SpecFault::NoRange => end == text.len(),
            SpecFault::NoName => end == 0 && text.len() > 0,
            SpecFault::BadRange(_) => 0 < end < text.len() && parsed_requirement(
                text.subrange(end, text.len() as int),
            ).is_none(),
        }
    }

    /// Whether the fault is the one that keeps a name and a range from making
    /// a spec: no name where the name is none, else a bad range.
    pub open spec fn explains_pair(self, name: Seq<char>, range: Seq<char>) -> bool {
        match self {
            SpecFault::NoRange => false,
            SpecFault::NoName => !is_crate_name(name),
            SpecFault::BadRange(_) => is_crate_name(name) && parsed_requirement(range).is_none(),
        }
    }
}

/// Whether `c` may stand in a crate's name: an ASCII letter or digit, `_` or
/// `-`.
pub open spec fn is_name_char(c: char) -> bool {
    let code = c as u32;
    ||| 48 <= code <= 57
    ||| 65 <= code <= 90
    ||| 97 <= code <= 122
    ||| code == 95
    ||| code == 45
}

/// How many characters at the start of `text`, from `from` on, may stand in
/// a crate's name.
pub open spec fn name_end(text: Seq<char>, from: int) -> int
    decreases text.len() - from,
{
    if from < 0 || from >= text.len() {
        text.len() as int
    } else if !is_name_char(text[from]) {
        from
    } else {
        name_end(text, from + 1)
    }
}

/// Whether `name` can be the name of a crate: not empty, and made of name
/// characters only.
pub open spec fn is_crate_name(name: Seq<char>) -> bool {
    name.len() > 0 && forall|i: int| 0 <= i < name.len() ==> is_name_char(#[trigger] name[i])
}

/// Whether `c` may stand in a crate's name.
pub fn name_char(c: char) -> (yes: bool)
    ensures
        yes == is_name_char(c),
{
    let code: u32 = c as u32;
    (48 <= code && code <= 57) || (65 <= code && code <= 90) || (97 <= code && code <= 122)
        || code == 95 || code == 45
}

/// Whether `name` can be the name of a crate.
pub fn valid_crate_name(name: &str) -> (yes: bool)
    ensures
        yes == is_crate_name(name@),
{
    let len: usize = name.unicode_len();
    if len == 0 {
        return false;
    }
    let mut at: usize = 0;
    while at < len
        invariant
            len == name@.len(),
            at <= len,
            forall|i: int| 0 <= i < at ==> is_name_char(#[trigger] name@[i]),
        decreases len - at,
    {
        if !name_char(name.get_char(at)) {
            return false;
        }
        at = at + 1;
    }
    true
}

impl YankSpecView {
    /// Whether the spec names a crate.
    pub open spec fn wf(self) -> bool {
        is_crate_name(self.crate_name)
    }

    /// Whether the spec asks for the yanked flag of `record` to change: the
    /// flag differs from what the spec wants, the record's version is a
    /// semantic version, and the spec's range admits it.
    pub open spec fn flips(self, record: CrateVersionView) -> bool {
        wants_change(
            record.yanked,
            self.yank,
            match parsed_version(record.vers) {
                Some(version) => Some(requirement_admits(self.range, version)),
                None => None,
            },
        )
    }
}

/// Whether a record's flag is to change: it is not yet `target`, and the
/// record's version was read and found in range. `admitted` is `None` where
/// the version could not be read.
pub open spec fn wants_change(yanked: bool, target: bool, admitted: Option<bool>) -> bool {
    yanked != target && admitted == Some(true)
}

/// Decides whether a record's flag is to change, given whether its version
/// was read and found in range.
pub fn flip_wanted(yanked: bool, target: bool, admitted: Option<bool>) -> (wanted: bool)
    ensures
        wanted == wants_change(yanked, target, admitted),
{
    if yanked == target {
        false
    } else {
        match admitted {
            Some(inside) => inside,
            None => false,
        }
    }
}

/// Splits a spec into the crate's name and what follows it. The name ends
/// where the first character stands that a name cannot hold; neither part
/// may be empty.
pub fn split_name(text: &str) -> (parts: Result<(&str, &str), SpecFault>)
    ensures
        match parts {
            Ok((name, rest)) => {
                &&& 0 < name_end(text@, 0) < text@.len()
                &&& name@ == text@.subrange(0, name_end(text@, 0))
                &&& rest@ == text@.subrange(name_end(text@, 0), text@.len() as int)
                &&& is_crate_name(name@)
            },
            Err(SpecFault::NoRange) => name_end(text@, 0) == text@.len(),
            Err(SpecFault::NoName) => name_end(text@, 0) == 0 && text@.len() > 0,
            Err(SpecFault::BadRange(_)) => false,
        },
{
    let len: usize = text.unicode_len();
    let mut at: usize = 0;
    while at < len && name_char(text.get_char(at))
        invariant
            len == text@.len(),
            at <= len,
            name_end(text@, at as int) == name_end(text@, 0),
            forall|i: int| 0 <= i < at ==> is_name_char(#[trigger] text@[i]),
        decreases len - at,
    {
        at = at + 1;
    }
    if at == len {
        return Err(SpecFault::NoRange);
    }
    if at == 0 {
        return Err(SpecFault::NoName);
    }
    Ok((text.substring_char(0, at), text.substring_char(at, len)))
}

impl YankSpec {
    /// Reads a spec such as `pkg-config<=0.3.6`: the crate's name, then a
    /// version range, with nothing between. The name ends where the first
    /// character stands that a name cannot hold.
    pub fn parse(text: &str, yank: bool) -> (parsed: Result<YankSpec, SpecFault>)
        ensures
            match parsed {
                Ok(spec) => {
                    &&& 0 < name_end(text@, 0) < text@.len()
                    &&& spec@.crate_name == text@.subrange(0, name_end(text@, 0))
                    &&& spec@.wf()
                    &&& parsed_requirement(
                        text@.subrange(name_end(text@, 0), text@.len() as int),
                    ) == Some(spec@.range)
                    &&& spec@.yank == yank
                },
                Err(SpecFault::NoRange) => name_end(text@, 0) == text@.len(),
                Err(SpecFault::NoName) => name_end(text@, 0) == 0 && text@.len() > 0,
                Err(SpecFault::BadRange(_)) => {
                    &&& 0 < name_end(text@, 0) < text@.len()
                    &&& parsed_requirement(
                        text@.subrange(name_end(text@, 0), text@.len() as int),
                    ).is_none()
                },
            },
    {
        let (name, range) = match split_name(text) {
            Ok(parts) => parts,
            Err(fault) => return Err(fault),
        };
        match VersionReq::parse(range) {
            Ok(range) => Ok(YankSpec { crate_name: String::from_str(name), range, yank }),
            Err(error) => Err(SpecFault::BadRange(error)),
        }
    }

    /// Makes a spec of a crate's name and a range written apart.
    pub fn new(crate_name: &str, range: &str, yank: bool) -> (made: Result<YankSpec, SpecFault>)
        ensures
            match made {
                Ok(spec) => {
                    &&& spec@.crate_name == crate_name@
                    &&& spec@.wf()
                    &&& parsed_requirement(range@) == Some(spec@.range)
                    &&& spec@.yank == yank
                },
                Err(SpecFault::NoName) => !is_crate_name(crate_name@),
                Err(SpecFault::BadRange(_)) => is_crate_name(crate_name@) && parsed_requirement(
                    range@,
                ).is_none(),
                Err(SpecFault::NoRange) => false,
            },
    {
        if !valid_crate_name(crate_name) {
            return Err(SpecFault::NoName);
        }
        match VersionReq::parse(range) {
            Ok(range) => Ok(YankSpec { crate_name: String::from_str(crate_name), range, yank }),
            Err(error) => Err(SpecFault::BadRange(error)),
        }
    }

    /// Whether the spec asks for the yanked flag of `record` to change.
    pub fn flips(&self, record: &CrateVersion) -> (wanted: bool)
        ensures
            wanted == self@.flips(record@),
    {
        let admitted = match Version::parse(record.vers.as_str()) {
            Ok(version) => Some(self.range.matches(&version)),
            Err(_) => None,
        };
        flip_wanted(record.yanked, self.yank, admitted)
    }
}

/// Reads a batch of specs that all yank, or all restore. The batch is taken
/// whole or not at all: the first text that is no spec fails it, and the
/// error says which text that was.
pub fn parse_yankspecs(args: &Vec<String>, yank: bool) -> (parsed: Result<
    Vec<YankSpec>,
    (usize, SpecFault),
>)
    ensures
        match parsed {
            Ok(specs) => {
                &&& specs@.len() == args@.len()
                &&& forall|i: int|
                    0 <= i < args@.len() ==> spec_of(args@[i]@, yank) == Some(
                        (#[trigger] specs@[i])@,
                    )
            },
            Err((index, fault)) => {
                &&& index < args@.len()
                &&& spec_of(args@[index as int]@, yank).is_none()
                &&& fault.explains(args@[index as int]@)
                &&& forall|i: int|
                    0 <= i < index ==> (#[trigger] spec_of(args@[i]@, yank)).is_some()
            },
        },
{
    let mut specs: Vec<YankSpec> = Vec::new();
    let mut at: usize = 0;
    while at < args.len()
        invariant
            at <= args@.len(),
            specs@.len() == at,
            forall|i: int|
                0 <= i < at ==> spec_of(args@[i]@, yank) == Some((#[trigger] specs@[i])@),
            forall|i: int| 0 <= i < at ==> (#[trigger] spec_of(args@[i]@, yank)).is_some(),
        decreases args@.len() - at,
    {
        match YankSpec::parse(args[at].as_str(), yank) {
            Ok(spec) => {
                specs.push(spec);
            },
            Err(fault) => {
                return Err((at, fault));
            },
        }
        at = at + 1;
    }
    Ok(specs)
}

/// The spec that a name and a range make, if they make one.
pub open spec fn spec_from(name: Seq<char>, range: Seq<char>, yank: bool) -> Option<YankSpecView> {
    if is_crate_name(name) {
        match parsed_requirement(range) {
            Some(range) => Some(YankSpecView { crate_name: name, range, yank }),
            None => None,
        }
    } else {
        None
    }
}

/// Makes the batch that yanks the versions known to be broken. `known` lists
/// them as pairs of a crate's name and a range. The batch is taken whole or
/// not at all: the first pair that makes no spec fails it, and the error
/// says which pair that was.
pub fn default_yanks(known: &Vec<(String, String)>) -> (made: Result<
    Vec<YankSpec>,
    (usize, SpecFault),
>)
    ensures
        match made {
            Ok(specs) => {
                &&& specs@.len() == known@.len()
                &&& forall|i: int|
                    0 <= i < known@.len() ==> spec_from(known@[i].0@, known@[i].1@, true) == Some(
                        (#[trigger] specs@[i])@,
                    )
            },
            Err((index, fault)) => {
                &&& index < known@.len()
                &&& spec_from(known@[index as int].0@, known@[index as int].1@, true).is_none()
                &&& fault.explains_pair(known@[index as int].0@, known@[index as int].1@)
                &&& forall|i: int|
                    0 <= i < index ==> (#[trigger] spec_from(
                        known@[i].0@,
                        known@[i].1@,
                        true,
                    )).is_some()
            },
        },
{
    let mut specs: Vec<YankSpec> = Vec::new();
    let mut at: usize = 0;
    while at < known.len()
        invariant
            at <= known@.len(),
            specs@.len() == at,
            forall|i: int|
                0 <= i < at ==> spec_from(known@[i].0@, known@[i].1@, true) == Some(
                    (#[trigger] specs@[i])@,
                ),
            forall|i: int|
                0 <= i < at ==> (#[trigger] spec_from(known@[i].0@, known@[i].1@, true)).is_some(),
        decreases known@.len() - at,
    {
        match YankSpec::new(known[at].0.as_str(), known[at].1.as_str(), true) {
            Ok(spec) => {
                specs.push(spec);
            },
            Err(fault) => {
                return Err((at, fault));
            },
        }
        at = at + 1;
    }
    Ok(specs)
}

/// The spec that `text` writes, if it writes one.
pub open spec fn spec_of(text: Seq<char>, yank: bool) -> Option<YankSpecView> {
    let end = name_end(text, 0);
    if 0 < end < text.len() {
        match parsed_requirement(text.subrange(end, text.len() as int)) {
            Some(range) => Some(YankSpecView { crate_name: text.subrange(0, end), range, yank }),
            None => None,
        }
    } else {
        None
    }
}

/// Where the line of `buf` that begins at `from` ends: at the next line feed,
/// or at the end of `buf`.
pub open spec fn line_end(buf: Seq<u8>, from: int) -> int
    decreases buf.len() - from,
{
    if from < 0 || from >= buf.len() {
        buf.len() as int
    } else if buf[from] == 10u8 {
        from
    } else {
        line_end(buf, from + 1)
    }
}

/// A line ends at or after the place where it begins, within the buffer, and
/// holds no line feed.
pub proof fn lemma_line_end(buf: Seq<u8>, from: int)
    requires
        0 <= from <= buf.len(),
    ensures
        from <= line_end(buf, from) <= buf.len(),
        line_end(buf, from) < buf.len() ==> buf[line_end(buf, from)] == 10u8,
        forall|i: int| from <= i < line_end(buf, from) ==> #[trigger] buf[i] != 10u8,
    decreases buf.len() - from,
{
    if from < buf.len() && buf[from] != 10u8 {
        lemma_line_end(buf, from + 1);
    }
}

/// The lines of `buf` from `from` on, in order. Line feeds separate lines;
/// a line of no bytes does not count.
pub open spec fn lines_from(buf: Seq<u8>, from: int) -> Seq<Seq<u8>>
    decreases buf.len() - from,
{
    if from < 0 || from >= buf.len() {
        seq![]
    } else {
        let end = line_end(buf, from);
        if end == from {
            lines_from(buf, from + 1)
        } else if from < end < buf.len() {
            seq![buf.subrange(from, end)] + lines_from(buf, end + 1)
        } else {
            seq![buf.subrange(from, buf.len() as int)]
        }
    }
}

/// The lines of a metadata file.
pub open spec fn lines_of(buf: Seq<u8>) -> Seq<Seq<u8>> {
    lines_from(buf, 0)
}

/// Whether `line` can stand as one line of a file: not empty, and free of
/// line feeds.
pub open spec fn is_line(line: Seq<u8>) -> bool {
    line.len() > 0 && forall|i: int| 0 <= i < line.len() ==> #[trigger] line[i] != 10u8
}

/// The file that holds `lines`, each ended by a line feed.
pub open spec fn joined_lines(lines: Seq<Seq<u8>>) -> Seq<u8>
    decreases lines.len(),
{
    if lines.len() == 0 {
        seq![]
    } else {
        joined_lines(lines.drop_last()) + lines.last() + seq![10u8]
    }
}

/// Which records a spec flips, by position; a line that is no record is
/// never flipped.
pub open spec fn marks_of(spec: YankSpecView, records: Seq<Option<CrateVersionView>>) -> Seq<bool> {
    Seq::new(
        records.len(),
        |i: int|
            match records[i] {
                Some(record) => spec.flips(record),
                None => false,
            },
    )
}

/// The records that a spec flips, in order, each with its flag as the spec
/// wants it.
pub open spec fn flipped(spec: YankSpecView, records: Seq<Option<CrateVersionView>>) -> Seq<
    CrateVersionView,
>
    decreases records.len(),
{
    if records.len() == 0 {
        seq![]
    } else {
        let before = flipped(spec, records.drop_last());
        match records.last() {
            Some(record) => if spec.flips(record) {
                before.push(record.with_yanked(spec.yank))
            } else {
                before
            },
            None => before,
        }
    }
}

/// How many of `marks` are set.
pub open spec fn count_set(marks: Seq<bool>) -> nat
    decreases marks.len(),
{
    if marks.len() == 0 {
        0
    } else {
        count_set(marks.drop_last()) + if marks.last() {
            1nat
        } else {
            0nat
        }
    }
}

/// `lines` with each marked line replaced by the next of `encoded`, and every
/// other line as it was.
pub open spec fn rewritten(lines: Seq<Seq<u8>>, marks: Seq<bool>, encoded: Seq<Seq<u8>>) -> Seq<
    Seq<u8>,
>
    decreases lines.len(),
{
    if lines.len() == 0 || marks.len() != lines.len() {
        seq![]
    } else if marks.last() {
        rewritten(lines.drop_last(), marks.drop_last(), encoded.drop_last()).push(encoded.last())
    } else {
        rewritten(lines.drop_last(), marks.drop_last(), encoded).push(lines.last())
    }
}

/// Splits a metadata file into its lines.
pub fn split_lines(buf: &[u8]) -> (lines: Vec<Vec<u8>>)
    ensures
        lines.deep_view() == lines_of(buf@),
        forall|i: int| 0 <= i < lines@.len() ==> is_line(#[trigger] lines.deep_view()[i]),
{
    proof {
        lemma_lines_are_lines(buf@, 0);
    }
    let mut lines: Vec<Vec<u8>> = Vec::new();
    let mut at: usize = 0;
    while at < buf.len()
        invariant
            at <= buf@.len(),
            lines.deep_view() + lines_from(buf@, at as int) == lines_of(buf@),
        decreases buf@.len() - at,
    {
        let mut end: usize = at;
        while end < buf.len() && buf[end] != 10
            invariant
                at <= end <= buf@.len(),
                line_end(buf@, end as int) == line_end(buf@, at as int),
            decreases buf@.len() - end,
        {
            end = end + 1;
        }
        if end > at {
            let line = slice_to_vec(slice_subrange(buf, at, end));
            assert(line.deep_view() =~= buf@.subrange(at as int, end as int));
            lines.push(line);
        }
        if end < buf.len() {
            at = end + 1;
        } else {
            at = end;
        }
    }
    lines
}

/// Picks the records that `spec` flips. Gives, for each record, whether it is
/// flipped, and the flipped records in order, their flags already set.
pub fn plan_edit(spec: &YankSpec, records: Vec<Option<CrateVersion>>) -> (plan: (
    Vec<bool>,
    Vec<CrateVersion>,
))
    ensures
        plan.0@ == marks_of(spec@, records.deep_view()),
        plan.1.deep_view() == flipped(spec@, records.deep_view()),
{
    let ghost all = records.deep_view();
    let mut marks: Vec<bool> = Vec::new();
    let mut changed: Vec<CrateVersion> = Vec::new();
    for record in it: records
        invariant
            all == records.deep_view(),
            it.seq() == records@,
            marks@ == marks_of(spec@, all.take(it.index() as int)),
            changed.deep_view() == flipped(spec@, all.take(it.index() as int)),
    {
        let ghost seen = all.take(it.index() as int);
        let ghost next = all.take(it.index() as int + 1);
        assert(next.drop_last() =~= seen);
        match record {
            Some(record) => {
                if spec.flips(&record) {
                    marks.push(true);
                    changed.push(record.with_yanked(spec.yank));
                } else {
                    marks.push(false);
                }
            },
            None => {
                marks.push(false);
            },
        }
    }
    assert(all.take(all.len() as int) =~= all);
    (marks, changed)
}

/// Whether marks and encoded lines fit a file: there is one mark for each line
/// of the file and one encoded line for each mark that is set, and each
/// encoded line is a line, so that it takes the place of one line and of no
/// more.
pub open spec fn fits(content: Seq<u8>, marks: Seq<bool>, encoded: Seq<Seq<u8>>) -> bool {
    &&& marks.len() == lines_of(content).len()
    &&& encoded.len() == count_set(marks)
    &&& forall|k: int| 0 <= k < encoded.len() ==> is_line(#[trigger] encoded[k])
}

/// Whether `line` can stand as one line of a file.
pub fn line_ok(line: &Vec<u8>) -> (yes: bool)
    ensures
        yes == is_line(line@),
{
    if line.len() == 0 {
        return false;
    }
    let mut at: usize = 0;
    while at < line.len()
        invariant
            at <= line@.len(),
            forall|i: int| 0 <= i < at ==> #[trigger] line@[i] != 10u8,
        decreases line@.len() - at,
    {
        if line[at] == 10 {
            return false;
        }
        at = at + 1;
    }
    true
}

/// Whether every one of `lines` can stand as one line of a file.
pub fn lines_ok(lines: &Vec<Vec<u8>>) -> (yes: bool)
    ensures
        yes == forall|k: int| 0 <= k < lines@.len() ==> is_line(#[trigger] lines.deep_view()[k]),
{
    let mut at: usize = 0;
    while at < lines.len()
        invariant
            at <= lines@.len(),
            forall|k: int| 0 <= k < at ==> is_line(#[trigger] lines.deep_view()[k]),
        decreases lines@.len() - at,
    {
        assert(lines.deep_view()[at as int] =~= lines@[at as int]@);
        if !line_ok(&lines[at]) {
            return false;
        }
        at = at + 1;
    }
    true
}

/// The file written anew: every line of `content` in its place and ended by a
/// line feed, with each marked line replaced by the next of `encoded`.
pub open spec fn rewritten_file(content: Seq<u8>, marks: Seq<bool>, encoded: Seq<Seq<u8>>) -> Seq<
    u8,
> {
    joined_lines(rewritten(lines_of(content), marks, encoded))
}

/// Counts the marks that are set.
pub fn count_marks(marks: &Vec<bool>) -> (count: usize)
    ensures
        count == count_set(marks@),
{
    let mut count: usize = 0;
    let mut at: usize = 0;
    while at < marks.len()
        invariant
            at <= marks@.len(),
            count <= at,
            count == count_set(marks@.take(at as int)),
        decreases marks@.len() - at,
    {
        assert(marks@.take(at as int + 1).drop_last() =~= marks@.take(at as int));
        if marks[at] {
            count = count + 1;
        }
        at = at + 1;
    }
    assert(marks@.take(marks@.len() as int) =~= marks@);
    count
}

/// Writes the file anew: every line of `content` in its place and ended by a
/// line feed, with each marked line replaced by the next of `encoded`. Gives
/// `None` where marks and encoded lines do not fit the file: where their
/// numbers are not those of the file's lines and of the set marks, or where
/// an encoded line is empty or holds a line feed.
pub fn rewrite(content: &[u8], marks: &Vec<bool>, encoded: &Vec<Vec<u8>>) -> (file: Option<
    Vec<u8>,
>)
    ensures
        match file {
            Some(bytes) => fits(content@, marks@, encoded.deep_view()) && bytes@ == rewritten_file(
                content@,
                marks@,
                encoded.deep_view(),
            ),
            None => !fits(content@, marks@, encoded.deep_view()),
        },
{
    let lines = split_lines(content);
    if marks.len() == lines.len() && encoded.len() == count_marks(marks) && lines_ok(encoded) {
        Some(rewrite_lines(&lines, marks, encoded))
    } else {
        None
    }
}

/// Writes `lines` to a file, each marked line replaced by the next of
/// `encoded`.
fn rewrite_lines(lines: &Vec<Vec<u8>>, marks: &Vec<bool>, encoded: &Vec<Vec<u8>>) -> (file: Vec<u8>)
    requires
        marks@.len() == lines@.len(),
        encoded@.len() == count_set(marks@),
    ensures
        file@ == joined_lines(rewritten(lines.deep_view(), marks@, encoded.deep_view())),
{
    let ghost all = lines.deep_view();
    let mut file: Vec<u8> = Vec::new();
    let mut used: usize = 0;
    let mut at: usize = 0;
    let total: usize = encoded.len();
    while at < lines.len()
        invariant
            total == encoded@.len(),
            all == lines.deep_view(),
            marks@.len() == all.len(),
            encoded@.len() == count_set(marks@),
            at <= lines@.len(),
            used == count_set(marks@.take(at as int)),
            used <= encoded@.len(),
            file@ == joined_lines(
                rewritten(all.take(at as int), marks@.take(at as int), encoded.deep_view().take(
                    used as int,
                )),
            ),
        decreases lines@.len() - at,
    {
        let ghost seen = all.take(at as int);
        let ghost next = all.take(at as int + 1);
        let ghost next_marks = marks@.take(at as int + 1);
        assert(next.drop_last() =~= seen);
        assert(next_marks.drop_last() =~= marks@.take(at as int));
        proof {
            lemma_count_set_grows(marks@, at as int + 1);
        }
        if marks[at] {
            let ghost next_encoded = encoded.deep_view().take(used as int + 1);
            assert(next_encoded.drop_last() =~= encoded.deep_view().take(used as int));
            file.extend_from_slice(encoded[used].as_slice());
            used = used + 1;
            file.push(10);
            assert(rewritten(next, next_marks, next_encoded).drop_last() =~= rewritten(
                seen,
                marks@.take(at as int),
                encoded.deep_view().take(used as int - 1),
            ));
        } else {
            file.extend_from_slice(lines[at].as_slice());
            file.push(10);
            assert(rewritten(next, next_marks, encoded.deep_view().take(used as int)).drop_last()
                =~= rewritten(
                seen,
                marks@.take(at as int),
                encoded.deep_view().take(used as int),
            ));
        }
        at = at + 1;
    }
    assert(all.take(all.len() as int) =~= all);
    assert(marks@.take(marks@.len() as int) =~= marks@);
    assert(encoded.deep_view().take(used as int) =~= encoded.deep_view());
    file
}

/// The count of set marks never shrinks as more marks are counted.
pub proof fn lemma_count_set_grows(marks: Seq<bool>, upto: int)
    requires
        0 <= upto <= marks.len(),
    ensures
        count_set(marks.take(upto)) <= count_set(marks),
    decreases marks.len() - upto,
{
    if upto < marks.len() {
        assert(marks.take(upto + 1).drop_last() =~= marks.take(upto));
        lemma_count_set_grows(marks, upto + 1);
    } else {
        assert(marks.take(upto) =~= marks);
    }
}

/// The records handed out to be encoded are those of the marked lines, in
/// order, and each differs from the record that was read in its flag alone.
pub proof fn lemma_flipped_are_the_marked(
    spec: YankSpecView,
    records: Seq<Option<CrateVersionView>>,
)
    ensures
        flipped(spec, records).len() == count_set(marks_of(spec, records)),
        forall|i: int|
            0 <= i < records.len() && #[trigger] marks_of(spec, records)[i] ==> {
                &&& records[i] is Some
                &&& flipped(spec, records)[count_set(marks_of(spec, records).take(i)) as int]
                    == records[i]->0.with_yanked(spec.yank)
            },
    decreases records.len(),
{
    if records.len() > 0 {
        let n = records.len() - 1;
        let before = records.drop_last();
        let marks = marks_of(spec, records);
        lemma_flipped_are_the_marked(spec, before);
        assert(marks.drop_last() =~= marks_of(spec, before));
        assert(marks.take(n) =~= marks.drop_last());
        assert forall|i: int| 0 <= i < records.len() && #[trigger] marks[i] implies {
            &&& records[i] is Some
            &&& flipped(spec, records)[count_set(marks.take(i)) as int] == records[i]->0.with_yanked(
                spec.yank,
            )
        } by {
            if i < n {
                assert(marks_of(spec, before)[i]);
                assert(marks_of(spec, before).take(i) =~= marks.take(i));
                lemma_count_set_grows(marks_of(spec, before), i + 1);
                assert(marks_of(spec, before).take(i + 1).drop_last() =~= marks_of(
                    spec,
                    before,
                ).take(i));
            }
        }
    }
}

/// The records of a file after `spec` was applied to it, given that a record
/// is decoded again as it was encoded: the records that the spec flips carry
/// its flag, all else is as before.
pub open spec fn edited(spec: YankSpecView, records: Seq<Option<CrateVersionView>>) -> Seq<
    Option<CrateVersionView>,
> {
    Seq::new(
        records.len(),
        |i: int|
            match records[i] {
                Some(record) => if spec.flips(record) {
                    Some(record.with_yanked(spec.yank))
                } else {
                    Some(record)
                },
                None => None,
            },
    )
}

/// Whether `spec` finds nothing to change in `records`.
pub open spec fn settled(spec: YankSpecView, records: Seq<Option<CrateVersionView>>) -> bool {
    forall|i: int|
        0 <= i < records.len() ==> match #[trigger] records[i] {
            Some(record) => !spec.flips(record),
            None => true,
        }
}

/// Where a spec finds nothing to change, it marks no line and hands no
/// record out to be encoded.
pub proof fn lemma_settled_flips_nothing(
    spec: YankSpecView,
    records: Seq<Option<CrateVersionView>>,
)
    requires
        settled(spec, records),
    ensures
        flipped(spec, records).len() == 0,
        count_set(marks_of(spec, records)) == 0,
    decreases records.len(),
{
    if records.len() > 0 {
        let before = records.drop_last();
        assert forall|i: int| 0 <= i < before.len() implies match #[trigger] before[i] {
            Some(record) => !spec.flips(record),
            None => true,
        } by {}
        lemma_settled_flips_nothing(spec, before);
        assert(marks_of(spec, records).drop_last() =~= marks_of(spec, before));
    }
}

/// Applying a spec settles it: applied again to what it left, it finds
/// nothing to change.
pub proof fn lemma_edit_settles(spec: YankSpecView, records: Seq<Option<CrateVersionView>>)
    ensures
        settled(spec, edited(spec, records)),
        edited(spec, records).len() == records.len(),
{
}

/// A settled spec stays settled when another spec with the same target is
/// applied after it.
pub proof fn lemma_settled_survives(
    spec: YankSpecView,
    other: YankSpecView,
    records: Seq<Option<CrateVersionView>>,
)
    requires
        settled(spec, records),
        other.yank == spec.yank,
    ensures
        settled(spec, edited(other, records)),
{
    assert forall|i: int| 0 <= i < records.len() implies match #[trigger] edited(
        other,
        records,
    )[i] {
        Some(record) => !spec.flips(record),
        None => true,
    } by {}
}

/// Every line that a file is split into is a line: not empty, and free of
/// line feeds.
pub proof fn lemma_lines_are_lines(buf: Seq<u8>, from: int)
    requires
        0 <= from,
    ensures
        forall|i: int|
            0 <= i < lines_from(buf, from).len() ==> is_line(#[trigger] lines_from(buf, from)[i]),
    decreases buf.len() - from,
{
    if from < buf.len() {
        let end = line_end(buf, from);
        lemma_line_end(buf, from);
        if end == from {
            lemma_lines_are_lines(buf, from + 1);
        } else if end < buf.len() {
            lemma_lines_are_lines(buf, end + 1);
            assert forall|i: int| 0 <= i < lines_from(buf, from).len() implies is_line(
                #[trigger] lines_from(buf, from)[i],
            ) by {
                if i > 0 {
                    assert(lines_from(buf, from)[i] == lines_from(buf, end + 1)[i - 1]);
                }
            }
        }
    }
}

/// A line ends in a longer buffer where it ends in the shorter one, if it
/// ends there before the shorter one does.
proof fn lemma_line_end_extends(buf: Seq<u8>, more: Seq<u8>, from: int)
    requires
        0 <= from <= buf.len(),
        line_end(buf, from) < buf.len(),
    ensures
        line_end(buf + more, from) == line_end(buf, from),
    decreases buf.len() - from,
{
    if from < buf.len() {
        if buf[from] != 10u8 {
            lemma_line_end_extends(buf, more, from + 1);
        }
    }
}

/// A line that is followed by a line feed ends at that line feed.
proof fn lemma_line_end_of_line(buf: Seq<u8>, line: Seq<u8>, at: int)
    requires
        is_line(line),
        0 <= at <= line.len(),
    ensures
        line_end(buf + line + seq![10u8], buf.len() + at) == buf.len() + line.len(),
    decreases line.len() - at,
{
    if at < line.len() {
        lemma_line_end_of_line(buf, line, at + 1);
    }
}

/// Adding one line, with its line feed, to a file that is empty or ends in a
/// line feed adds that line to its lines.
proof fn lemma_lines_grow(buf: Seq<u8>, line: Seq<u8>, from: int)
    requires
        is_line(line),
        buf.len() == 0 || buf.last() == 10u8,
        0 <= from <= buf.len(),
    ensures
        lines_from(buf + line + seq![10u8], from) == lines_from(buf, from).push(line),
    decreases buf.len() - from,
{
    let full = buf + line + seq![10u8];
    if from == buf.len() {
        lemma_line_end_of_line(buf, line, 0);
        assert(full.subrange(from, from + line.len()) =~= line);
        assert(lines_from(full, from + line.len() + 1) =~= Seq::<Seq<u8>>::empty());
    } else {
        lemma_line_end(buf, from);
        let end = line_end(buf, from);
        assert(buf + line + seq![10u8] =~= buf + (line + seq![10u8]));
        lemma_line_end_extends(buf, line + seq![10u8], from);
        lemma_lines_grow(buf, line, end + 1);
        if end != from {
            assert(full.subrange(from, end) =~= buf.subrange(from, end));
        }
    }
}

/// Writing lines to a file and splitting the file gives the lines back.
pub proof fn lemma_lines_of_joined(lines: Seq<Seq<u8>>)
    requires
        forall|i: int| 0 <= i < lines.len() ==> is_line(#[trigger] lines[i]),
    ensures
        lines_of(joined_lines(lines)) == lines,
        joined_lines(lines).len() == 0 || joined_lines(lines).last() == 10u8,
    decreases lines.len(),
{
    if lines.len() > 0 {
        let before = lines.drop_last();
        lemma_lines_of_joined(before);
        lemma_lines_grow(joined_lines(before), lines.last(), 0);
    }
}

/// What rewriting does to the lines: their number stays, an unmarked line
/// stays as it is, and the marked lines take the encoded ones in order.
pub proof fn lemma_rewritten(lines: Seq<Seq<u8>>, marks: Seq<bool>, encoded: Seq<Seq<u8>>)
    requires
        marks.len() == lines.len(),
        encoded.len() == count_set(marks),
    ensures
        rewritten(lines, marks, encoded).len() == lines.len(),
        forall|i: int|
            0 <= i < lines.len() ==> #[trigger] rewritten(lines, marks, encoded)[i] == if marks[i] {
                encoded[count_set(marks.take(i)) as int]
            } else {
                lines[i]
            },
        forall|i: int| 0 <= i < lines.len() ==> count_set(#[trigger] marks.take(i)) + if marks[i] {
            1nat
        } else {
            0nat
        } <= encoded.len(),
    decreases lines.len(),
{
    if lines.len() > 0 {
        let n = lines.len() - 1;
        let fewer = if marks.last() {
            encoded.drop_last()
        } else {
            encoded
        };
        lemma_rewritten(lines.drop_last(), marks.drop_last(), fewer);
        assert forall|i: int| 0 <= i < lines.len() implies #[trigger] rewritten(
            lines,
            marks,
            encoded,
        )[i] == if marks[i] {
            encoded[count_set(marks.take(i)) as int]
        } else {
            lines[i]
        } by {
            if i < n {
                assert(marks.drop_last().take(i) =~= marks.take(i));
            }
        }
        assert forall|i: int| 0 <= i < lines.len() implies count_set(#[trigger] marks.take(i))
            + if marks[i] {
            1nat
        } else {
            0nat
        } <= encoded.len() by {
            if i < n {
                assert(marks.drop_last().take(i) =~= marks.take(i));
            }
        }
    }
}

/// An edit neither adds nor drops nor reorders records: the file that is
/// written has as many lines as the file that was read; a line that was not
/// flipped is the line it was, byte for byte, and a line that was flipped is
/// the encoded line that was handed in for it.
pub proof fn lemma_edit_keeps_records(content: Seq<u8>, marks: Seq<bool>, encoded: Seq<Seq<u8>>)
    requires
        fits(content, marks, encoded),
    ensures
        ({
            let before = lines_of(content);
            let after = lines_of(rewritten_file(content, marks, encoded));
            &&& after.len() == before.len()
            &&& forall|i: int|
                0 <= i < before.len() ==> #[trigger] after[i] == if marks[i] {
                    encoded[count_set(marks.take(i)) as int]
                } else {
                    before[i]
                }
        }),
{
    let before = lines_of(content);
    let lines = rewritten(before, marks, encoded);
    lemma_rewritten(before, marks, encoded);
    lemma_lines_are_lines(content, 0);
    lemma_lines_of_joined(lines);
}

/// The records of the metadata files after a batch was applied to them, given
/// that a record is decoded again as it was encoded. `files` gives the
/// records of each file by the name of its crate; a spec whose crate has no
/// file leaves all files as they are.
pub open spec fn applied(
    specs: Seq<YankSpecView>,
    files: Map<Seq<char>, Seq<Option<CrateVersionView>>>,
) -> Map<Seq<char>, Seq<Option<CrateVersionView>>>
    decreases specs.len(),
{
    if specs.len() == 0 {
        files
    } else {
        let before = applied(specs.drop_last(), files);
        let spec = specs.last();
        if before.dom().contains(spec.crate_name) {
            before.insert(spec.crate_name, edited(spec, before[spec.crate_name]))
        } else {
            before
        }
    }
}

/// Whether the specs of a batch agree: any two that name the same crate want
/// the same, both yank or both restore.
pub open spec fn agreeing(specs: Seq<YankSpecView>) -> bool {
    forall|i: int, j: int|
        0 <= i < specs.len() && 0 <= j < specs.len() && (#[trigger] specs[i]).crate_name == (
        #[trigger] specs[j]).crate_name ==> specs[i].yank == specs[j].yank
}

/// Whether no spec of a batch finds anything to change in the file of its
/// crate.
pub open spec fn all_settled(
    specs: Seq<YankSpecView>,
    files: Map<Seq<char>, Seq<Option<CrateVersionView>>>,
) -> bool {
    forall|i: int|
        0 <= i < specs.len() && files.dom().contains((#[trigger] specs[i]).crate_name) ==> settled(
            specs[i],
            files[specs[i].crate_name],
        )
}

/// A settled spec, applied, leaves the records as they are.
pub proof fn lemma_settled_is_fixed(spec: YankSpecView, records: Seq<Option<CrateVersionView>>)
    requires
        settled(spec, records),
    ensures
        edited(spec, records) == records,
{
}

/// A batch whose specs agree settles every one of them: once applied, no
/// spec of it finds anything left to change.
pub proof fn lemma_applied_settles(
    specs: Seq<YankSpecView>,
    files: Map<Seq<char>, Seq<Option<CrateVersionView>>>,
)
    requires
        agreeing(specs),
    ensures
        all_settled(specs, applied(specs, files)),
        applied(specs, files).dom() == files.dom(),
    decreases specs.len(),
{
    if specs.len() > 0 {
        let fewer = specs.drop_last();
        let before = applied(fewer, files);
        let after = applied(specs, files);
        lemma_applied_settles(fewer, files);
        assert forall|i: int|
            0 <= i < specs.len() && after.dom().contains(
                (#[trigger] specs[i]).crate_name,
            ) implies settled(specs[i], after[specs[i].crate_name]) by {
            let name = specs[i].crate_name;
            if i < specs.len() - 1 {
                assert(settled(fewer[i], before[name]));
            }
        }
    }
}

/// A batch that is settled changes no file.
pub proof fn lemma_settled_batch_is_fixed(
    specs: Seq<YankSpecView>,
    files: Map<Seq<char>, Seq<Option<CrateVersionView>>>,
)
    requires
        all_settled(specs, files),
    ensures
        applied(specs, files) == files,
    decreases specs.len(),
{
    if specs.len() > 0 {
        let fewer = specs.drop_last();
        let spec = specs.last();
        lemma_settled_batch_is_fixed(fewer, files);
        if files.dom().contains(spec.crate_name) {
            lemma_settled_is_fixed(spec, files[spec.crate_name]);
        }
    }
}

/// Applying a batch is idempotent. Where its specs agree, a batch applied a
/// second time leaves every record as the first time left it.
pub proof fn lemma_apply_is_idempotent(
    specs: Seq<YankSpecView>,
    files: Map<Seq<char>, Seq<Option<CrateVersionView>>>,
)
    requires
        agreeing(specs),
    ensures
        applied(specs, applied(specs, files)) == applied(specs, files),
{
    lemma_applied_settles(specs, files);
    lemma_settled_batch_is_fixed(specs, applied(specs, files));
}

} // verus!
