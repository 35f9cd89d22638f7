//! Which profiles are active, and in what order.
use vstd::prelude::*;

use crate::text::{contains_str, str_equal, views};

verus! {

/// How `am use` treats each named profile.
#[derive(Debug, Clone, Copy, PartialEq, Eq, Structural)]
pub enum UseMode {
    /// Deactivate when active, else activate.
    Toggle,
    /// Activate.
    Enable,
    /// Deactivate.
    Disable,
}

/// `s` without any occurrence of `n`.
pub open spec fn without(s: Seq<Seq<char>>, n: Seq<char>) -> Seq<Seq<char>>
    decreases s.len(),
{
    if s.len() == 0 {
        Seq::empty()
    } else {
        without(s.drop_last(), n) + (if s.last() == n {
            Seq::empty()
        } else {
            seq![s.last()]
        })
    }
}

/// `n` activated: at the 1-based `priority` position (repositioned when
/// already active; 0 counts as 1; past the end means last), else appended
/// unless already active.
pub open spec fn activated(s: Seq<Seq<char>>, n: Seq<char>, priority: Option<usize>) -> Seq<Seq<char>> {
    match priority {
        Some(p) => {
            let rest = without(s, n);
            let k = if p == 0 {
                0
            } else if p - 1 > rest.len() {
                rest.len() as int
            } else {
                p - 1
            };
            rest.take(k) + seq![n] + rest.skip(k)
        },
        None => if s.contains(n) {
            s
        } else {
            s.push(n)
        },
    }
}

/// One profile name applied to the active list.
pub open spec fn use_one(s: Seq<Seq<char>>, n: Seq<char>, mode: UseMode, priority: Option<usize>) -> Seq<Seq<char>> {
    match mode {
        UseMode::Disable => without(s, n),
        UseMode::Enable => activated(s, n, priority),
        UseMode::Toggle => if s.contains(n) && priority is None {
            without(s, n)
        } else {
            activated(s, n, priority)
        },
    }
}

/// The names applied one after the other.
pub open spec fn use_all(
    s: Seq<Seq<char>>,
    names: Seq<Seq<char>>,
    mode: UseMode,
    priority: Option<usize>,
) -> Seq<Seq<char>>
    decreases names.len(),
{
    if names.len() == 0 {
        s
    } else {
        use_one(use_all(s, names.drop_last(), mode, priority), names.last(), mode, priority)
    }
}

/// The list without any occurrence of `n`.
pub fn remove_name(active: &Vec<String>, n: &str) -> (r: Vec<String>)
    ensures
        views(r@) == without(views(active@), n@),
{
    let mut r: Vec<String> = Vec::new();
    let mut i: usize = 0;
    while i < active.len()
        invariant
            i <= active@.len(),
            views(r@) == without(views(active@.take(i as int)), n@),
        decreases active@.len() - i,
    {
        proof {
            assert(views(active@.take(i + 1)).drop_last() =~= views(active@.take(i as int)));
            assert(views(active@.take(i + 1)).last() == active@[i as int]@);
        }
        if !str_equal(active[i].as_str(), n) {
            let ghost before = views(r@);
            let x = active[i].clone();
            r.push(x);
            proof {
                assert(views(r@) =~= before.push(x@));
            }
        }
        i = i + 1;
    }
    proof {
        assert(active@.take(active@.len() as int) =~= active@);
    }
    r
}

proof fn lemma_without_len(s: Seq<Seq<char>>, n: Seq<char>)
    ensures
        without(s, n).len() <= s.len(),
    decreases s.len(),
{
    if s.len() > 0 {
        lemma_without_len(s.drop_last(), n);
    }
}

fn activate(active: Vec<String>, n: &str, priority: Option<usize>) -> (r: Vec<String>)
    ensures
        views(r@) == activated(views(active@), n@, priority),
{
    match priority {
        Some(p) => {
            let rest = remove_name(&active, n);
            let k: usize = if p == 0 {
                0
            } else if p - 1 > rest.len() {
                rest.len()
            } else {
                p - 1
            };
            let mut r: Vec<String> = Vec::new();
            let mut i: usize = 0;
            while i < k
                invariant
                    k <= rest@.len(),
                    i <= k,
                    views(r@) == views(rest@).take(i as int),
                decreases k - i,
            {
                let ghost before = views(r@);
                let x = rest[i].clone();
                r.push(x);
                proof {
                    assert(views(r@) =~= before.push(x@));
                    assert(views(rest@).take(i + 1) =~= views(rest@).take(i as int).push(views(rest@)[i as int]));
                }
                i = i + 1;
            }
            let ghost mid = views(r@);
            r.push(crate::text::string_from(n));
            let mut j: usize = k;
            proof {
                assert(views(r@) =~= mid.push(n@));
                assert(views(rest@).subrange(k as int, k as int) =~= Seq::<Seq<char>>::empty());
            }
            while j < rest.len()
                invariant
                    k <= j <= rest@.len(),
                    views(r@) == mid + seq![n@] + views(rest@).subrange(k as int, j as int),
                decreases rest@.len() - j,
            {
                let ghost before = views(r@);
                let x = rest[j].clone();
                r.push(x);
                proof {
                    assert(views(r@) =~= before.push(x@));
                    assert(views(rest@).subrange(k as int, j + 1) =~= views(rest@).subrange(k as int, j as int).push(
                        views(rest@)[j as int],
                    ));
                }
                j = j + 1;
            }
            proof {
                assert(views(rest@).subrange(k as int, rest@.len() as int) =~= views(rest@).skip(k as int));
            }
            r
        },
        None => {
            if contains_str(active.as_slice(), n) {
                active
            } else {
                let mut a = active;
                let ghost before = views(a@);
                a.push(crate::text::string_from(n));
                proof {
                    assert(views(a@) =~= before.push(n@));
                }
                a
            }
        },
    }
}

/// The active profile list after `am use`: each name applied in order
/// (reversed with `inverse`) by `mode`, at `priority` when given.
pub fn use_profiles(
    active: &[String],
    names: &[String],
    mode: UseMode,
    priority: Option<usize>,
    inverse: bool,
) -> (r: Vec<String>)
    ensures
        views(r@) == use_all(
            views(active@),
            if inverse {
                views(names@).reverse()
            } else {
                views(names@)
            },
            mode,
            priority,
        ),
{
    let ghost order = if inverse {
        views(names@).reverse()
    } else {
        views(names@)
    };
    let mut cur: Vec<String> = crate::subcommand::dup_strings(active);
    proof {
        assert(views(cur@) =~= views(active@));
    }
    let n = names.len();
    let mut i: usize = 0;
    proof {
        assert(order.take(0) =~= Seq::<Seq<char>>::empty());
    }
    while i < n
        invariant
            i <= n,
            n == names@.len(),
            order == (if inverse {
                views(names@).reverse()
            } else {
                views(names@)
            }),
            views(cur@) == use_all(views(active@), order.take(i as int), mode, priority),
        decreases n - i,
    {
        let idx = if inverse {
            n - 1 - i
        } else {
            i
        };
        let name = names[idx].as_str();
        proof {
            assert(order.take(i + 1).drop_last() =~= order.take(i as int));
            assert(order.take(i + 1).last() == order[i as int]);
            assert(order[i as int] == name@);
        }
        cur = match mode {
            UseMode::Disable => remove_name(&cur, name),
            UseMode::Enable => activate(cur, name, priority),
            UseMode::Toggle => {
                if contains_str(cur.as_slice(), name) && priority.is_none() {
                    remove_name(&cur, name)
                } else {
                    activate(cur, name, priority)
                }
            },
        };
        i = i + 1;
    }
    proof {
        assert(order.take(n as int) =~= order);
    }
    cur
}

proof fn lemma_without_absent(s: Seq<Seq<char>>, n: Seq<char>)
    requires
        !s.contains(n),
    ensures
        without(s, n) == s,
    decreases s.len(),
{
    if s.len() > 0 {
        let d = s.drop_last();
        assert(!d.contains(n)) by {
            if d.contains(n) {
                let i = choose|i: int| 0 <= i < d.len() && d[i] == n;
                assert(s[i] == n);
            }
        }
        lemma_without_absent(d, n);
        assert(s[s.len() - 1] != n);
        assert(d.push(s.last()) =~= s);
    }
}

/// Toggling an inactive profile twice leaves the active list as it was;
/// toggling it once makes it the last active profile.
pub proof fn law_toggle_twice(s: Seq<Seq<char>>, n: Seq<char>)
    requires
        !s.contains(n),
    ensures
        use_one(s, n, UseMode::Toggle, None) == s.push(n),
        use_one(use_one(s, n, UseMode::Toggle, None), n, UseMode::Toggle, None) == s,
{
    let t = s.push(n);
    assert(t.contains(n)) by {
        assert(t[s.len() as int] == n);
    }
    lemma_without_absent(s, n);
    assert(t.drop_last() =~= s);
}

} // verus!
