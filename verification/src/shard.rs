//! Where the index keeps the metadata file of a crate.
//!
//! Cargo shards the index by the length of the crate's name: names of one or
//! two characters live under `1/` or `2/`, names of three under
//! `3/<first character>/`, longer names under
//! `<characters 0..2>/<characters 2..4>/`.

use crate::text::{join_path, joined};
use vstd::prelude::*;
use vstd::string::*;

verus! {

/// The directories, outermost first, under which the file of `name` lies.
pub open spec fn shard_dirs(name: Seq<char>) -> Seq<Seq<char>> {
    if name.len() == 0 {
        seq![]
    } else if name.len() == 1 {
        seq![seq!['1']]
    } else if name.len() == 2 {
        seq![seq!['2']]
    } else if name.len() == 3 {
        seq![seq!['3'], name.subrange(0, 1)]
    } else {
        seq![name.subrange(0, 2), name.subrange(2, 4)]
    }
}

/// `root` with each of `parts` adjoined in turn.
pub open spec fn joined_all(root: Seq<char>, parts: Seq<Seq<char>>) -> Seq<char>
    decreases parts.len(),
{
    if parts.len() == 0 {
        root
    } else {
        joined(joined_all(root, parts.drop_last()), parts.last())
    }
}

/// The path of the metadata file of `name` in the index at `root`: the shard
/// directories, then the name itself, unchanged.
pub open spec fn crate_path_of(root: Seq<char>, name: Seq<char>) -> Seq<char> {
    joined_all(root, shard_dirs(name).push(name))
}

/// How deep below the index a file lies depends on the length of the name
/// alone: the file itself, and none, one or two directories above it.
pub proof fn lemma_shard_depth(name: Seq<char>)
    ensures
        shard_dirs(name).len() == if name.len() == 0 {
            0nat
        } else if name.len() <= 2 {
            1nat
        } else {
            2nat
        },
        forall|i: int|
            0 <= i < shard_dirs(name).len() ==> 1 <= (#[trigger] shard_dirs(name)[i]).len() <= 2,
{
}

/// The path of the metadata file of `crate_name` in the index at
/// `index_root`.
pub fn crate_path(index_root: &str, crate_name: &str) -> (path: String)
    ensures
        path@ == crate_path_of(index_root@, crate_name@),
{
    proof {
        reveal_strlit("1");
        reveal_strlit("2");
        reveal_strlit("3");
        reveal_with_fuel(joined_all, 4);
    }
    let ghost dirs = shard_dirs(crate_name@);
    let len: usize = crate_name.unicode_len();
    if len == 0 {
        assert(dirs.push(crate_name@).drop_last() =~= dirs);
        join_path(index_root, crate_name)
    } else if len == 1 {
        let dir = join_path(index_root, "1");
        assert(dirs.push(crate_name@).drop_last() =~= dirs);
        assert(dirs.drop_last() =~= Seq::<Seq<char>>::empty());
        join_path(dir.as_str(), crate_name)
    } else if len == 2 {
        let dir = join_path(index_root, "2");
        assert(dirs.push(crate_name@).drop_last() =~= dirs);
        assert(dirs.drop_last() =~= Seq::<Seq<char>>::empty());
        join_path(dir.as_str(), crate_name)
    } else if len == 3 {
        let outer = join_path(index_root, "3");
        let dir = join_path(outer.as_str(), crate_name.substring_char(0, 1));
        assert(dirs.push(crate_name@).drop_last() =~= dirs);
        assert(dirs.drop_last() =~= seq![seq!['3']]);
        assert(dirs.drop_last().drop_last() =~= Seq::<Seq<char>>::empty());
        join_path(dir.as_str(), crate_name)
    } else {
        let outer = join_path(index_root, crate_name.substring_char(0, 2));
        let dir = join_path(outer.as_str(), crate_name.substring_char(2, 4));
        assert(dirs.push(crate_name@).drop_last() =~= dirs);
        assert(dirs.drop_last() =~= seq![crate_name@.subrange(0, 2)]);
        assert(dirs.drop_last().drop_last() =~= Seq::<Seq<char>>::empty());
        join_path(dir.as_str(), crate_name)
    }
}

} // verus!
