//! Running the hook again where nothing changed: the tracking value one run
//! sets is read back by the next, which then finds nothing to do.
use vstd::prelude::*;

use crate::alias::AliasSpec;
use crate::hook::emit::{hook_lines, tracking_value, trusted_lines, ScanSpec};
use crate::hook::{
    added_keys, alias_hashes, changed_keys, find_char, key_hashes, lemma_find_char, prev_entry, prev_map,
    program_hashes, programs_of, removed_keys, short_hash, tracking,
};
use crate::project::TrustStatus;
use crate::shell::Shell;
use crate::strmap::{fold_inserts, keys_sorted, lemma_fold_inserts_sorted, lemma_pairs_map_at, lemma_sorted_pairs_of, pair_keys, pairs_map, sorted_pairs};
use crate::subcommand::SubSpec;
use crate::text::{digit_char, digits, join_spec, lemma_div_smaller, lemma_split_join, split_spec, zero_pad};

verus! {

/// Neither a `,` nor a `|`.
pub open spec fn plain_char(c: char) -> bool {
    c != ',' && c != '|'
}

proof fn lemma_digits_plain(n: nat, b: nat)
    requires
        2 <= b <= 16,
    ensures
        forall|i: int| 0 <= i < digits(n, b).len() ==> plain_char(#[trigger] digits(n, b)[i]),
    decreases n,
{
    if n >= b {
        lemma_div_smaller(n, b);
        lemma_digits_plain(n / b, b);
        let d = digits(n / b, b);
        assert(digits(n, b) == d.push(digit_char(n % b)));
        assert forall|i: int| 0 <= i < digits(n, b).len() implies plain_char(#[trigger] digits(n, b)[i]) by {
            if i < d.len() {
                assert(digits(n, b)[i] == d[i]);
            }
        }
    }
}

/// A short hash holds neither `,` nor `|`.
proof fn lemma_short_hash_plain(bytes: Seq<u8>)
    ensures
        !short_hash(bytes).contains(','),
        !short_hash(bytes).contains('|'),
{
    let n = (crate::hook::fnv32(bytes) % 0x1000_0000) as nat;
    lemma_digits_plain(n, 16);
    let d = digits(n, 16);
    let h = short_hash(bytes);
    assert forall|i: int| 0 <= i < h.len() implies plain_char(#[trigger] h[i]) by {
        if d.len() < 7 {
            let pad = Seq::new((7 - d.len()) as nat, |k: int| '0');
            assert(h == pad + d);
            if i >= pad.len() {
                assert(h[i] == d[i - pad.len()]);
            }
        }
    }
}

proof fn lemma_fold_plain(m: Map<Seq<char>, Seq<char>>, s: Seq<(Seq<char>, Seq<char>)>)
    requires
        forall|k: Seq<char>| #[trigger] m.contains_key(k) ==> !m[k].contains(',') && !m[k].contains('|'),
        forall|i: int| 0 <= i < s.len() ==> !(#[trigger] s[i]).1.contains(',') && !s[i].1.contains('|'),
    ensures
        forall|k: Seq<char>| #[trigger] fold_inserts(m, s).contains_key(k) ==> !fold_inserts(m, s)[k].contains(',')
            && !fold_inserts(m, s)[k].contains('|'),
    decreases s.len(),
{
    if s.len() > 0 {
        let d = s.drop_last();
        assert forall|i: int| 0 <= i < d.len() implies !(#[trigger] d[i]).1.contains(',') && !d[i].1.contains('|') by {
            assert(d[i] == s[i]);
        }
        lemma_fold_plain(m, d);
        let f = fold_inserts(m, d);
        let l = s[s.len() - 1];
        assert(fold_inserts(m, s) == f.insert(l.0, l.1));
        assert forall|k: Seq<char>| #[trigger] fold_inserts(m, s).contains_key(k) implies !fold_inserts(
            m,
            s,
        )[k].contains(',') && !fold_inserts(m, s)[k].contains('|') by {
            if k != l.0 {
                assert(f.contains_key(k));
            }
        }
    }
}

/// The hashes the hook tracks hold neither `,` nor `|`.
proof fn lemma_tracking_plain(aliases: Seq<(Seq<char>, AliasSpec)>, subs: Seq<(Seq<char>, SubSpec)>)
    ensures
        forall|k: Seq<char>| #[trigger] tracking(aliases, subs).contains_key(k) ==> !tracking(aliases, subs)[k].contains(
            ',',
        ) && !tracking(aliases, subs)[k].contains('|'),
{
    let a = alias_hashes(aliases);
    let p = program_hashes(programs_of(subs), subs);
    let k = key_hashes(subs);
    assert forall|i: int| 0 <= i < a.len() implies !(#[trigger] a[i]).1.contains(',') && !a[i].1.contains('|') by {
        lemma_short_hash_plain(vstd::utf8::encode_utf8(aliases[i].1.command));
    }
    assert forall|i: int| 0 <= i < p.len() implies !(#[trigger] p[i]).1.contains(',') && !p[i].1.contains('|') by {
        let prog = programs_of(subs)[i];
        lemma_short_hash_plain(
            vstd::utf8::encode_utf8(join_spec(crate::hook::program_items(prog, subs), ";"@)),
        );
    }
    assert forall|i: int| 0 <= i < k.len() implies !(#[trigger] k[i]).1.contains(',') && !k[i].1.contains('|') by {
        lemma_short_hash_plain(vstd::utf8::encode_utf8(join_spec(subs[i].1.expansions, ","@)));
    }
    let m0 = Map::<Seq<char>, Seq<char>>::empty();
    lemma_fold_plain(m0, a);
    let m1 = fold_inserts(m0, a);
    lemma_fold_plain(m1, p);
    let m2 = fold_inserts(m1, p);
    lemma_fold_plain(m2, k);
}

/// A tracking item `name|hash` reads back as the name and the hash.
proof fn lemma_prev_entry_item(k: Seq<char>, h: Seq<char>)
    requires
        !k.contains('|'),
    ensures
        prev_entry(k + "|"@ + h) == (k, Some(h)),
{
    reveal_strlit("|");
    let s = k + "|"@ + h;
    lemma_find_char(s, '|');
    assert(s[k.len() as int] == '|');
    let f = find_char(s, '|');
    if f < k.len() {
        assert(s[f] == k[f]);
    }
    assert(f == k.len());
    assert(s.take(f) =~= k);
    assert(s.skip(f + 1) =~= h);
}

/// Reading back a tracking value gives the tracked map, each hash present.
proof fn lemma_read_back(cp: Seq<(Seq<char>, Seq<char>)>)
    requires
        keys_sorted(pair_keys(cp)),
        forall|i: int| 0 <= i < cp.len() ==> !(#[trigger] cp[i]).0.contains(',') && !cp[i].0.contains('|')
            && !cp[i].1.contains(','),
    ensures
        prev_map(Some(tracking_value(cp))) == pairs_map(cp.map_values(|p: (Seq<char>, Seq<char>)| (p.0, Some(p.1)))),
{
    reveal_strlit("|");
    reveal_strlit(",");
    let cp2 = cp.map_values(|p: (Seq<char>, Seq<char>)| (p.0, Some(p.1)));
    let parts = cp.map_values(|p: (Seq<char>, Seq<char>)| p.0 + "|"@ + p.1);
    let t = tracking_value(cp);
    assert(pair_keys(cp2) =~= pair_keys(cp));
    if cp.len() == 0 {
        assert(parts.len() == 0);
        assert(t =~= Seq::<char>::empty());
        assert(pairs_map(cp2) =~= Map::<Seq<char>, Option<Seq<char>>>::empty());
    } else {
        assert forall|i: int| 0 <= i < parts.len() implies !(#[trigger] parts[i]).contains(',') by {
            let q = parts[i];
            if q.contains(',') {
                let j = choose|j: int| 0 <= j < q.len() && q[j] == ',';
                if j < cp[i].0.len() {
                    assert(cp[i].0[j] == ',');
                } else if j > cp[i].0.len() {
                    assert(cp[i].1[j - cp[i].0.len() - 1] == ',');
                }
            }
        }
        assert(","@ =~= seq![',']);
        lemma_split_join(parts, ',');
        assert(split_spec(t, ',') == parts);
        if t.len() == 0 {
            assert(split_spec(t, ',') =~= seq![Seq::<char>::empty()]);
            assert(parts[0].len() > 0);
        }
        let e = split_spec(t, ',').map_values(|p: Seq<char>| prev_entry(p));
        assert forall|i: int| 0 <= i < e.len() implies #[trigger] e[i] == cp2[i] by {
            lemma_prev_entry_item(cp[i].0, cp[i].1);
        }
        assert(e =~= cp2);
        lemma_fold_inserts_sorted(cp2, Map::<Seq<char>, Option<Seq<char>>>::empty());
        assert(Map::<Seq<char>, Option<Seq<char>>>::empty().union_prefer_right(pairs_map(cp2)) =~= pairs_map(cp2));
    }
}

proof fn lemma_none_removed<V, W>(s: Seq<(Seq<char>, V)>, m: Map<Seq<char>, W>)
    requires
        forall|i: int| 0 <= i < s.len() ==> m.contains_key(#[trigger] s[i].0),
    ensures
        removed_keys(s, m).len() == 0,
    decreases s.len(),
{
    if s.len() > 0 {
        let d = s.drop_last();
        assert forall|i: int| 0 <= i < d.len() implies m.contains_key(#[trigger] d[i].0) by {
            assert(d[i] == s[i]);
        }
        lemma_none_removed(d, m);
        assert(m.contains_key(s[s.len() - 1].0));
    }
}

proof fn lemma_none_changed(s: Seq<(Seq<char>, Seq<char>)>, m: Map<Seq<char>, Option<Seq<char>>>)
    requires
        forall|i: int| 0 <= i < s.len() ==> m.contains_key(#[trigger] s[i].0) && m[s[i].0] == Some(s[i].1),
    ensures
        changed_keys(s, m).len() == 0,
    decreases s.len(),
{
    if s.len() > 0 {
        let d = s.drop_last();
        assert forall|i: int| 0 <= i < d.len() implies m.contains_key(#[trigger] d[i].0) && m[d[i].0] == Some(
            d[i].1,
        ) by {
            assert(d[i] == s[i]);
        }
        lemma_none_changed(d, m);
        assert(m.contains_key(s[s.len() - 1].0));
    }
}

/// Running the hook again for the same trusted project with content, with
/// the tracking value the previous run set (`cp` being the tracked state in
/// name order), emits nothing at all: nothing unchanged is reloaded.
///
/// This needs tracked names without `,` and `|`, which the tracking value
/// uses as separators.
pub proof fn law_hook_rerun_is_silent(
    sh: Shell,
    aliases: Seq<(Seq<char>, AliasSpec)>,
    subs: Seq<(Seq<char>, SubSpec)>,
    cp: Seq<(Seq<char>, Seq<char>)>,
    path: Seq<char>,
    is_direct: bool,
    prev_path: Option<Seq<char>>,
    quiet: bool,
)
    requires
        aliases.len() > 0 || subs.len() > 0,
        keys_sorted(pair_keys(cp)),
        pairs_map(cp) == tracking(aliases, subs),
        forall|k: Seq<char>| #[trigger] tracking(aliases, subs).contains_key(k) ==> !k.contains(',') && !k.contains('|'),
    ensures
        hook_lines(
            sh,
            prev_map(Some(tracking_value(cp))),
            prev_path,
            Some(ScanSpec { path, is_direct, status: TrustStatus::Trusted, aliases, subs }),
            quiet,
        ) is None,
{
    let cur = tracking(aliases, subs);
    lemma_tracking_plain(aliases, subs);
    assert forall|i: int| 0 <= i < cp.len() implies !(#[trigger] cp[i]).0.contains(',') && !cp[i].0.contains('|')
        && !cp[i].1.contains(',') by {
        lemma_pairs_map_at(cp, i);
    }
    lemma_read_back(cp);
    let cp2 = cp.map_values(|p: (Seq<char>, Seq<char>)| (p.0, Some(p.1)));
    let prev = pairs_map(cp2);
    assert(pair_keys(cp2) =~= pair_keys(cp));
    lemma_sorted_pairs_of(cp);
    lemma_sorted_pairs_of(cp2);
    assert forall|i: int| 0 <= i < cp2.len() implies cur.contains_key(#[trigger] cp2[i].0) by {
        lemma_pairs_map_at(cp, i);
    }
    lemma_none_removed(cp2, cur);
    assert forall|i: int| 0 <= i < cp.len() implies prev.contains_key(#[trigger] cp[i].0) && prev[cp[i].0] == Some(
        cp[i].1,
    ) by {
        lemma_pairs_map_at(cp2, i);
    }
    lemma_none_removed(cp, prev);
    lemma_none_changed(cp, prev);
    assert(trusted_lines(sh, prev, aliases, subs, !quiet && is_direct && prev_path != Some(path)) is None);
}

} // verus!
