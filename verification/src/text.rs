//! Text building blocks shared by the rest of the library: lists of strings,
//! paths and fixed-width digits.
//!
//! Paths are text in which `/` separates the components, as on Unix: what
//! the library adjoins and cuts off follows the rules of paths there.

use vstd::prelude::*;
use vstd::string::*;

verus! {

/// Appends a copy of `text` to `list`.
pub fn push_text(list: &mut Vec<String>, text: &str)
    ensures
        final(list).deep_view() == old(list).deep_view().push(text@),
{
    list.push(String::from_str(text));
}

/// `first` followed by `second`.
pub fn concat(first: &str, second: &str) -> (both: String)
    ensures
        both@ == first@ + second@,
{
    let mut both = String::from_str(first);
    both.append(second);
    both
}

/// `base` with `part` adjoined the way a Unix path grows: a `part` that starts
/// at the root replaces `base`; otherwise one `/` separates the two unless
/// `base` is empty or already ends in one.
pub open spec fn joined(base: Seq<char>, part: Seq<char>) -> Seq<char> {
    if part.len() > 0 && part[0] == '/' {
        part
    } else if base.len() > 0 && base.last() != '/' {
        base + seq!['/'] + part
    } else {
        base + part
    }
}

/// Adjoins `part` to the path `base`.
pub fn join_path(base: &str, part: &str) -> (path: String)
    ensures
        path@ == joined(base@, part@),
{
    let part_len: usize = part.unicode_len();
    if part_len > 0 && part.get_char(0) == '/' {
        return String::from_str(part);
    }
    let base_len: usize = base.unicode_len();
    let mut path = String::from_str(base);
    if base_len > 0 && base.get_char(base_len - 1) != '/' {
        proof {
            reveal_strlit("/");
        }
        path.append("/");
    }
    path.append(part);
    path
}

/// Whether `path` starts at the root.
pub open spec fn is_absolute(path: Seq<char>) -> bool {
    path.len() > 0 && path[0] == '/'
}

/// Whether `path` starts at the root.
pub fn absolute(path: &str) -> (yes: bool)
    ensures
        yes == is_absolute(path@),
{
    path.unicode_len() > 0 && path.get_char(0) == '/'
}

/// Whether the first `end` characters of `path` begin with the directory
/// `.` itself: a dot that a separator or nothing follows.
pub open spec fn cur_dir_leads(path: Seq<char>, end: int) -> bool {
    end >= 1 && path[0] == '.' && (end == 1 || path[1] == '/')
}

/// How many of the first `end` characters of `path` come before its body:
/// the root where there is one, else a leading `.`.
pub open spec fn before_body(path: Seq<char>, end: int, rooted: bool) -> int {
    if rooted || cur_dir_leads(path, end) {
        1
    } else {
        0
    }
}

/// Where the last segment of the first `end` characters of `path` begins:
/// behind the last separator from `start` on, or at `start` where there is
/// none.
pub open spec fn segment_start(path: Seq<char>, start: int, end: int) -> int
    decreases end,
{
    if end <= start || end <= 0 {
        start
    } else if path[end - 1] == '/' {
        end
    } else {
        segment_start(path, start, end - 1)
    }
}

/// The last segment begins within the body and behind a separator, if it
/// does not begin the body.
pub proof fn lemma_segment_start(path: Seq<char>, start: int, end: int)
    requires
        0 <= start <= end,
    ensures
        start <= segment_start(path, start, end) <= end,
        segment_start(path, start, end) > start ==> path[segment_start(path, start, end) - 1]
            == '/',
    decreases end,
{
    if end > start && path[end - 1] != '/' {
        lemma_segment_start(path, start, end - 1);
    }
}

/// Where the first `end` characters of `path` end once the last segment,
/// which begins at `at`, is cut off with the separator before it.
pub open spec fn without_segment(start: int, at: int) -> int {
    if at > start {
        at - 1
    } else {
        at
    }
}

/// Where the first `end` characters of `path` end once the segments at their
/// end that name nothing are cut off: empty ones, which repeated or trailing
/// separators leave, and those that are `.`.
pub open spec fn trimmed(path: Seq<char>, end: int, rooted: bool) -> int
    decreases end,
{
    let start = before_body(path, end, rooted);
    if end <= start {
        end
    } else {
        let at = segment_start(path, start, end);
        if at == end || (at + 1 == end && path[at] == '.') {
            proof {
                lemma_segment_start(path, start, end);
            }
            trimmed(path, without_segment(start, at), rooted)
        } else {
            end
        }
    }
}

/// Trimming leaves a path no longer than it was.
pub proof fn lemma_trimmed(path: Seq<char>, end: int, rooted: bool)
    requires
        0 <= end,
    ensures
        0 <= trimmed(path, end, rooted) <= end,
    decreases end,
{
    let start = before_body(path, end, rooted);
    if end > start {
        let at = segment_start(path, start, end);
        lemma_segment_start(path, start, end);
        if at == end || (at + 1 == end && path[at] == '.') {
            lemma_trimmed(path, without_segment(start, at), rooted);
        }
    }
}

/// How many characters of `path` make the directory that holds it, if any
/// directory does.
pub open spec fn parent_end(path: Seq<char>) -> Option<int> {
    let rooted = is_absolute(path);
    let end = trimmed(path, path.len() as int, rooted);
    let start = before_body(path, end, rooted);
    if end > start {
        Some(trimmed(path, without_segment(start, segment_start(path, start, end)), rooted))
    } else if !rooted && cur_dir_leads(path, end) {
        Some(end - 1)
    } else {
        None
    }
}

/// The directory that holds `path`: the path without its last component and
/// without what names nothing before it. The root and the empty path are
/// held by none. Separators are `/`, as in all paths of this library.
pub open spec fn parent_of(path: Seq<char>) -> Option<Seq<char>> {
    match parent_end(path) {
        Some(end) => Some(path.subrange(0, end)),
        None => None,
    }
}

/// Whether the first `end` characters of `path` begin with the directory `.`.
fn leads_with_cur_dir(path: &str, end: usize) -> (yes: bool)
    requires
        end <= path@.len(),
    ensures
        yes == cur_dir_leads(path@, end as int),
{
    end >= 1 && path.get_char(0) == '.' && (end == 1 || path.get_char(1) == '/')
}

/// Where the body of the first `end` characters of `path` begins.
fn body_start(path: &str, end: usize, rooted: bool) -> (start: usize)
    requires
        end <= path@.len(),
    ensures
        start == before_body(path@, end as int, rooted),
{
    if rooted || leads_with_cur_dir(path, end) {
        1
    } else {
        0
    }
}

/// Finds where the last segment of the first `end` characters begins.
fn last_segment(path: &str, start: usize, end: usize) -> (at: usize)
    requires
        start <= end <= path@.len(),
    ensures
        at == segment_start(path@, start as int, end as int),
        start <= at <= end,
{
    let mut at: usize = end;
    while at > start && path.get_char(at - 1) != '/'
        invariant
            start <= at <= end <= path@.len(),
            segment_start(path@, start as int, at as int) == segment_start(
                path@,
                start as int,
                end as int,
            ),
        decreases at,
    {
        at = at - 1;
    }
    at
}

/// Cuts off the segments at the end that name nothing.
fn trim(path: &str, end: usize, rooted: bool) -> (left: usize)
    requires
        end <= path@.len(),
    ensures
        left == trimmed(path@, end as int, rooted),
        left <= end,
{
    let mut left: usize = end;
    loop
        invariant
            left <= end <= path@.len(),
            trimmed(path@, left as int, rooted) == trimmed(path@, end as int, rooted),
        ensures
            left == trimmed(path@, end as int, rooted),
        decreases left,
    {
        let start = body_start(path, left, rooted);
        if left <= start {
            break;
        }
        let at = last_segment(path, start, left);
        if at == left || (at + 1 == left && path.get_char(at) == '.') {
            left = if at > start {
                at - 1
            } else {
                at
            };
        } else {
            break;
        }
    }
    left
}

/// The directory that holds `path`, if any does.
pub fn parent_path(path: &str) -> (parent: Option<String>)
    ensures
        parent.deep_view() == parent_of(path@),
{
    let len: usize = path.unicode_len();
    let rooted = absolute(path);
    let end = trim(path, len, rooted);
    let start = body_start(path, end, rooted);
    if end > start {
        let at = last_segment(path, start, end);
        let cut: usize = if at > start {
            at - 1
        } else {
            at
        };
        let left = trim(path, cut, rooted);
        Some(String::from_str(path.substring_char(0, left)))
    } else if !rooted && leads_with_cur_dir(path, end) {
        Some(String::from_str(path.substring_char(0, end - 1)))
    } else {
        None
    }
}

/// The character that writes the digit `value` in base ten.
pub open spec fn digit_char(value: int) -> char {
    if value == 0 {
        '0'
    } else if value == 1 {
        '1'
    } else if value == 2 {
        '2'
    } else if value == 3 {
        '3'
    } else if value == 4 {
        '4'
    } else if value == 5 {
        '5'
    } else if value == 6 {
        '6'
    } else if value == 7 {
        '7'
    } else if value == 8 {
        '8'
    } else {
        '9'
    }
}

/// The one-character text of a decimal digit.
pub(crate) fn digit_text(value: u8) -> (text: &'static str)
    requires
        value < 10,
    ensures
        text@ == seq![digit_char(value as int)],
{
    proof {
        reveal_strlit("0");
        reveal_strlit("1");
        reveal_strlit("2");
        reveal_strlit("3");
        reveal_strlit("4");
        reveal_strlit("5");
        reveal_strlit("6");
        reveal_strlit("7");
        reveal_strlit("8");
        reveal_strlit("9");
    }
    let text = match value {
        0 => "0",
        1 => "1",
        2 => "2",
        3 => "3",
        4 => "4",
        5 => "5",
        6 => "6",
        7 => "7",
        8 => "8",
        _ => "9",
    };
    text
}

} // verus!
