//! Paths between directories, as sequences of path components.
use vstd::prelude::*;

use crate::text::{str_equal, string_from, views};

verus! {

/// The length of the longest common prefix of two component lists.
pub open spec fn common_len(a: Seq<Seq<char>>, b: Seq<Seq<char>>) -> nat
    decreases a.len(),
{
    if a.len() == 0 || b.len() == 0 || a[0] != b[0] {
        0
    } else {
        1 + common_len(a.skip(1), b.skip(1))
    }
}

/// The components of the way from `from` to `to`: one `..` for each
/// component of `from` past the common prefix, then the rest of `to`.
pub open spec fn relative_components(from: Seq<Seq<char>>, to: Seq<Seq<char>>) -> Seq<Seq<char>> {
    let c = common_len(from, to);
    Seq::new((from.len() - c) as nat, |i: int| ".."@) + to.skip(c as int)
}

proof fn lemma_common_len(a: Seq<Seq<char>>, b: Seq<Seq<char>>)
    ensures
        common_len(a, b) <= a.len(),
        common_len(a, b) <= b.len(),
        forall|i: int| 0 <= i < common_len(a, b) ==> a[i] == b[i],
        common_len(a, b) < a.len() && common_len(a, b) < b.len() ==> a[common_len(a, b) as int] != b[common_len(
            a,
            b,
        ) as int],
    decreases a.len(),
{
    if !(a.len() == 0 || b.len() == 0 || a[0] != b[0]) {
        lemma_common_len(a.skip(1), b.skip(1));
        assert forall|i: int| 0 <= i < common_len(a, b) implies a[i] == b[i] by {
            if i > 0 {
                assert(a.skip(1)[i - 1] == a[i]);
                assert(b.skip(1)[i - 1] == b[i]);
            }
        }
    }
}

proof fn lemma_common_len_at(a: Seq<Seq<char>>, b: Seq<Seq<char>>, n: int)
    requires
        0 <= n <= a.len(),
        n <= b.len(),
        forall|i: int| 0 <= i < n ==> a[i] == b[i],
        n == a.len() || n == b.len() || a[n] != b[n],
    ensures
        common_len(a, b) == n,
    decreases a.len(),
{
    if n > 0 {
        assert(a[0] == b[0]);
        assert forall|i: int| 0 <= i < n - 1 implies a.skip(1)[i] == b.skip(1)[i] by {
            assert(a[i + 1] == b[i + 1]);
        }
        lemma_common_len_at(a.skip(1), b.skip(1), n - 1);
    }
}

/// The relative path from directory `from` to `to`, by components
/// (e.g. from `/a/b/c` to `/a/b/.aliases` it is `../.aliases`).
pub fn relative_path(from: &[String], to: &[String]) -> (r: Vec<String>)
    ensures
        views(r@) == relative_components(views(from@), views(to@)),
{
    let ghost f = views(from@);
    let ghost t = views(to@);
    let mut common: usize = 0;
    while common < from.len() && common < to.len() && str_equal(from[common].as_str(), to[common].as_str())
        invariant
            common <= from@.len(),
            common <= to@.len(),
            f == views(from@),
            t == views(to@),
            forall|i: int| 0 <= i < common ==> f[i] == t[i],
        decreases from@.len() - common,
    {
        assert(f[common as int] == from@[common as int]@);
        common = common + 1;
    }
    proof {
        if common < from@.len() && common < to@.len() {
            assert(f[common as int] == from@[common as int]@);
            assert(t[common as int] == to@[common as int]@);
        }
        lemma_common_len_at(f, t, common as int);
    }
    let mut rel: Vec<String> = Vec::new();
    let ups = from.len() - common;
    let mut i: usize = 0;
    while i < ups
        invariant
            i <= ups,
            views(rel@) == Seq::new(i as nat, |k: int| ".."@),
        decreases ups - i,
    {
        let ghost before = views(rel@);
        let d = string_from("..");
        rel.push(d);
        proof {
            assert(views(rel@) =~= before.push(d@));
            assert(views(rel@) =~= Seq::new((i + 1) as nat, |k: int| ".."@));
        }
        i = i + 1;
    }
    let ghost head = views(rel@);
    let mut j: usize = common;
    while j < to.len()
        invariant
            common <= j <= to@.len(),
            t == views(to@),
            views(rel@) == head + t.subrange(common as int, j as int),
        decreases to@.len() - j,
    {
        let ghost before = views(rel@);
        let c = to[j].clone();
        rel.push(c);
        proof {
            assert(t.subrange(common as int, j + 1) =~= t.subrange(common as int, j as int).push(t[j as int]));
            assert(views(rel@) =~= before.push(c@));
        }
        j = j + 1;
    }
    proof {
        assert(t.subrange(common as int, to@.len() as int) =~= t.skip(common as int));
    }
    rel
}

} // verus!
