//! Stable sorting of keyed rows by their text key.
use vstd::prelude::*;

use crate::text::{lemma_seq_lt_asymmetric, seq_lt, str_lt};

verus! {

/// `x` placed into `s` after every element whose key does not sort above it.
pub open spec fn insert_sorted<T>(s: Seq<(Seq<char>, T)>, x: (Seq<char>, T)) -> Seq<(Seq<char>, T)>
    decreases s.len(),
{
    if s.len() == 0 {
        seq![x]
    } else if seq_lt(x.0, s.last().0) {
        insert_sorted(s.drop_last(), x).push(s.last())
    } else {
        s.push(x)
    }
}

/// The stable sort of `s` by key: insertion sort, equal keys keeping their order.
pub open spec fn sorted_by_key<T>(s: Seq<(Seq<char>, T)>) -> Seq<(Seq<char>, T)>
    decreases s.len(),
{
    if s.len() == 0 {
        Seq::empty()
    } else {
        insert_sorted(sorted_by_key(s.drop_last()), s.last())
    }
}

/// The view of a keyed row list.
pub open spec fn keyed_view<T: View>(v: Seq<(String, T)>) -> Seq<(Seq<char>, T::V)> {
    v.map_values(|p: (String, T)| (p.0@, p.1@))
}

proof fn lemma_insert_at<T>(s: Seq<(Seq<char>, T)>, x: (Seq<char>, T), j: int)
    requires
        0 <= j <= s.len(),
        forall|k: int| j <= k < s.len() ==> seq_lt(x.0, #[trigger] s[k].0),
        j == 0 || !seq_lt(x.0, s[j - 1].0),
    ensures
        insert_sorted(s, x) == s.take(j).push(x) + s.skip(j),
    decreases s.len(),
{
    if s.len() == j {
        if s.len() == 0 {
            assert(s.take(j).push(x) + s.skip(j) =~= seq![x]);
        } else {
            assert(s.take(j).push(x) + s.skip(j) =~= s.push(x));
        }
    } else {
        assert(seq_lt(x.0, s.last().0));
        let d = s.drop_last();
        assert forall|k: int| j <= k < d.len() implies seq_lt(x.0, #[trigger] d[k].0) by {
            assert(d[k] == s[k]);
        }
        lemma_insert_at(d, x, j);
        assert(d.take(j).push(x) + d.skip(j) + seq![s.last()] =~= s.take(j).push(x) + s.skip(j));
        assert(insert_sorted(d, x).push(s.last()) =~= insert_sorted(d, x) + seq![s.last()]);
    }
}

/// Stable sort of keyed rows by key (code-point order).
pub fn sort_by_key<T: View>(v: Vec<(String, T)>) -> (r: Vec<(String, T)>)
    ensures
        keyed_view(r@) == sorted_by_key(keyed_view(v@)),
{
    let ghost src = keyed_view(v@);
    let mut out: Vec<(String, T)> = Vec::new();
    let mut rest = v;
    let ghost all = rest@;
    let n = rest.len();
    let mut i: usize = 0;
    proof {
        assert(src.take(0) =~= Seq::<(Seq<char>, T::V)>::empty());
        assert(keyed_view(out@) =~= Seq::<(Seq<char>, T::V)>::empty());
    }
    while rest.len() > 0
        invariant
            n == all.len(),
            src == keyed_view(all),
            i + rest@.len() == n,
            rest@ == all.skip(i as int),
            keyed_view(out@) == sorted_by_key(src.take(i as int)),
        decreases rest@.len(),
    {
        let item = rest.remove(0);
        proof {
            assert(item == all[i as int]);
        }
        let mut j = out.len();
        while j > 0 && str_lt(item.0.as_str(), out[j - 1].0.as_str())
            invariant
                j <= out@.len(),
                forall|k: int| j <= k < out@.len() ==> seq_lt(item.0@, #[trigger] keyed_view(out@)[k].0),
            decreases j,
        {
            j = j - 1;
        }
        let ghost before = keyed_view(out@);
        proof {
            lemma_insert_at(before, (item.0@, item.1@), j as int);
        }
        out.insert(j, item);
        proof {
            assert(keyed_view(out@) =~= before.take(j as int).push((item.0@, item.1@)) + before.skip(
                j as int,
            ));
            assert(src.take(i + 1).drop_last() =~= src.take(i as int));
            assert(src.take(i + 1).last() == (item.0@, item.1@));
        }
        i = i + 1;
        proof {
            assert(rest@ =~= all.skip(i as int));
        }
    }
    proof {
        assert(src.take(n as int) =~= src);
    }
    out
}

} // verus!
