//! The cd hook: which project aliases to load, reload or drop when the
//! shell enters a directory, and the shell code that does it.
use vstd::prelude::*;

pub mod emit;
pub mod rerun;
use vstd::utf8::encode_utf8;

use crate::alias::{AliasName, AliasSet, AliasSpec, TomlAlias};
use crate::env_vars::{AM_PROJECT_ALIASES, AM_PROJECT_PATH};
use crate::project::{ProjectAliases, TrustStatus};
use crate::shell::{alias_line, echo_line, set_env_line, unalias_line, unset_env_line, wrapper_text, Shell};
use crate::strmap::{entries_view, lemma_sorted_pairs_of, sorted_pairs};
use crate::subcommand::{grouped, EntrySpec, SubSpec, SubcommandEntry, SubcommandGroup, SubcommandSet};
use crate::strmap::{fold_inserts, keys_sorted, pair_keys, pairs_map, StrMap};
use crate::text::{
    digits, digits_string, join_spec, join_strs, push_str, split_char, split_spec, str_equal,
    string_from, views, zero_pad, zero_pad_string,
};

verus! {

/// The previous content hash of a tracked entry, if the entry had one.
#[derive(Debug, Clone, PartialEq, Eq)]
pub struct PrevHash(pub Option<String>);

impl View for PrevHash {
    type V = Option<Seq<char>>;

    open spec fn view(&self) -> Option<Seq<char>> {
        crate::alias::opt_view(self.0)
    }
}

/// Index of the first `c` in `s`, or -1.
pub open spec fn find_char(s: Seq<char>, c: char) -> int
    decreases s.len(),
{
    if s.len() == 0 {
        -1
    } else {
        let f = find_char(s.drop_last(), c);
        if f >= 0 {
            f
        } else if s.last() == c {
            s.len() - 1
        } else {
            -1
        }
    }
}

pub(crate) proof fn lemma_find_char(s: Seq<char>, c: char)
    ensures
        -1 <= find_char(s, c) < s.len(),
        find_char(s, c) >= 0 ==> s[find_char(s, c)] == c && forall|j: int|
            0 <= j < find_char(s, c) ==> s[j] != c,
        find_char(s, c) == -1 ==> forall|j: int| 0 <= j < s.len() ==> s[j] != c,
    decreases s.len(),
{
    if s.len() > 0 {
        lemma_find_char(s.drop_last(), c);
        assert forall|j: int| 0 <= j < s.len() - 1 implies s.drop_last()[j] == s[j] by {}
    }
}

/// One tracking entry: `name|hash`, or a bare name from the older format.
pub open spec fn prev_entry(piece: Seq<char>) -> (Seq<char>, Option<Seq<char>>) {
    let i = find_char(piece, '|');
    if i >= 0 {
        (piece.take(i), Some(piece.skip(i + 1)))
    } else {
        (piece, None)
    }
}

/// The tracking map of a previous hook run: later duplicates win; nothing
/// for an absent or empty value.
pub open spec fn prev_map(raw: Option<Seq<char>>) -> Map<Seq<char>, Option<Seq<char>>> {
    match raw {
        None => Map::empty(),
        Some(s) => if s.len() == 0 {
            Map::empty()
        } else {
            fold_inserts(Map::empty(), split_spec(s, ',').map_values(|p: Seq<char>| prev_entry(p)))
        },
    }
}

fn find_char_exec(s: &str, c: char) -> (r: Option<usize>)
    ensures
        match r {
            Some(i) => i as int == find_char(s@, c) && i < s@.len(),
            None => find_char(s@, c) == -1,
        },
{
    proof {
        lemma_find_char(s@, c);
    }
    let n = s.unicode_len();
    let mut i: usize = 0;
    while i < n
        invariant
            n == s@.len(),
            i <= n,
            forall|j: int| 0 <= j < i ==> s@[j] != c,
            -1 <= find_char(s@, c) < s@.len(),
            find_char(s@, c) >= 0 ==> s@[find_char(s@, c)] == c && forall|j: int|
                0 <= j < find_char(s@, c) ==> s@[j] != c,
            find_char(s@, c) == -1 ==> forall|j: int| 0 <= j < s@.len() ==> s@[j] != c,
        decreases n - i,
    {
        if s.get_char(i) == c {
            return Some(i);
        }
        i = i + 1;
    }
    None
}

/// Parses the tracking value of a previous run, `name|hash,name|hash,...`,
/// into a map; a name without `|` (older format) maps to no hash.
pub fn parse_prev_aliases(raw: Option<&str>) -> (r: StrMap<String, PrevHash>)
    ensures
        r.spec_map() == prev_map(crate::described::opt_str_view(raw)),
{
    let mut map: StrMap<String, PrevHash> = StrMap::new();
    let s = match raw {
        None => {
            return map;
        },
        Some(s) => s,
    };
    if s.unicode_len() == 0 {
        return map;
    }
    let pieces = split_char(s, ',');
    let ghost pv = views(pieces@).map_values(|p: Seq<char>| prev_entry(p));
    proof {
        assert(views(pieces@) == split_spec(s@, ','));
        assert(pv.take(0) =~= Seq::<(Seq<char>, Option<Seq<char>>)>::empty());
    }
    let mut i: usize = 0;
    while i < pieces.len()
        invariant
            i <= pieces@.len(),
            pv == views(pieces@).map_values(|p: Seq<char>| prev_entry(p)),
            map.spec_map() == fold_inserts(Map::empty(), pv.take(i as int)),
        decreases pieces@.len() - i,
    {
        let entry = pieces[i].as_str();
        let entry_len = entry.unicode_len();
        let (name, hash) = match find_char_exec(entry, '|') {
            Some(k) => {
                (crate::text::prefix_to(entry, k), Some(crate::text::suffix_from(entry, k + 1)))
            },
            None => (string_from(entry), None),
        };
        proof {
            assert(pv[i as int] == prev_entry(entry@));
            assert(pv.take(i + 1).drop_last() =~= pv.take(i as int));
            assert(pv.take(i + 1).last() == pv[i as int]);
        }
        let h = PrevHash(hash);
        proof {
            assert((name@, h@) == prev_entry(entry@));
        }
        map.insert(name, h);
        i = i + 1;
    }
    proof {
        assert(pv.take(pieces@.len() as int) =~= pv);
    }
    map
}

/// FNV-1a over bytes, 32 bits.
pub open spec fn fnv32(bytes: Seq<u8>) -> u64
    decreases bytes.len(),
{
    if bytes.len() == 0 {
        0x811c9dc5
    } else {
        (((fnv32(bytes.drop_last()) ^ (bytes.last() as u64)) as int * 16777619) % 0x1_0000_0000) as u64
    }
}

/// The short content hash: seven hexadecimal digits of FNV-1a.
pub open spec fn short_hash(bytes: Seq<u8>) -> Seq<char> {
    zero_pad(digits((fnv32(bytes) % 0x1000_0000) as nat, 16), 7)
}

proof fn lemma_fnv_bound(bytes: Seq<u8>)
    ensures
        fnv32(bytes) < 0x1_0000_0000,
    decreases bytes.len(),
{
    if bytes.len() > 0 {
        lemma_fnv_bound(bytes.drop_last());
    }
}

/// A short, stable hash of some bytes, for change detection.
pub fn compute_short_hash(bytes: &[u8]) -> (r: String)
    ensures
        r@ == short_hash(bytes@),
{
    let mut h: u64 = 0x811c9dc5;
    let mut i: usize = 0;
    proof {
        assert(bytes@.take(0) =~= Seq::<u8>::empty());
    }
    while i < bytes.len()
        invariant
            i <= bytes@.len(),
            h == fnv32(bytes@.take(i as int)),
            h < 0x1_0000_0000,
        decreases bytes@.len() - i,
    {
        proof {
            assert(bytes@.take(i + 1).drop_last() =~= bytes@.take(i as int));
            assert(bytes@.take(i + 1).last() == bytes@[i as int]);
        }
        let b: u8 = bytes[i];
        let x: u64 = h ^ (b as u64);
        assert(x < 0x1_0000_0000) by (bit_vector)
            requires
                h < 0x1_0000_0000,
                x == h ^ (b as u64),
        ;
        h = (x * 16777619) % 0x1_0000_0000;
        i = i + 1;
    }
    proof {
        assert(bytes@.take(bytes@.len() as int) =~= bytes@);
    }
    zero_pad_string(digits_string((h % 0x1000_0000) as u128, 16), 7)
}

/// The content hash of an alias: of its command.
pub fn alias_content_hash(alias: &TomlAlias) -> (r: String)
    ensures
        r@ == short_hash(encode_utf8(alias@.command)),
{
    compute_short_hash(alias.command().as_bytes())
}

/// The `key=expansions` items of one program's subcommand aliases, in key order.
pub open spec fn program_items(program: Seq<char>, subs: Seq<(Seq<char>, SubSpec)>) -> Seq<Seq<char>>
    decreases subs.len(),
{
    if subs.len() == 0 {
        Seq::empty()
    } else {
        let p = subs.last();
        let prefix = program + ":"@;
        program_items(program, subs.drop_last()) + (if prefix.len() <= p.0.len() && p.0.take(
            prefix.len() as int,
        ) == prefix {
            seq![p.0 + "="@ + join_spec(p.1.expansions, ","@)]
        } else {
            Seq::empty()
        })
    }
}

/// Tracking entries for aliases: name and command hash.
pub open spec fn alias_hashes(pairs: Seq<(Seq<char>, AliasSpec)>) -> Seq<(Seq<char>, Seq<char>)> {
    pairs.map_values(|p: (Seq<char>, AliasSpec)| (p.0, short_hash(encode_utf8(p.1.command))))
}

/// Tracking entries for programs: name and hash of all its subcommand items.
pub open spec fn program_hashes(programs: Seq<Seq<char>>, subs: Seq<(Seq<char>, SubSpec)>) -> Seq<
    (Seq<char>, Seq<char>),
> {
    programs.map_values(
        |prog: Seq<char>| (prog, short_hash(encode_utf8(join_spec(program_items(prog, subs), ";"@)))),
    )
}

/// Tracking entries for subcommand keys: key and hash of its expansions.
pub open spec fn key_hashes(subs: Seq<(Seq<char>, SubSpec)>) -> Seq<(Seq<char>, Seq<char>)> {
    subs.map_values(
        |p: (Seq<char>, SubSpec)| (p.0, short_hash(encode_utf8(join_spec(p.1.expansions, ","@)))),
    )
}

/// The programs with subcommand aliases, in name order.
pub open spec fn programs_of(subs: Seq<(Seq<char>, SubSpec)>) -> Seq<Seq<char>> {
    sorted_pairs(grouped(subs)).map_values(|g: (Seq<char>, Seq<EntrySpec>)| g.0)
}

/// What the hook tracks for a project: each alias, each program wrapper and
/// each subcommand key, with a content hash; later kinds win on a name clash.
pub open spec fn tracking(aliases: Seq<(Seq<char>, AliasSpec)>, subs: Seq<(Seq<char>, SubSpec)>) -> Map<
    Seq<char>,
    Seq<char>,
> {
    fold_inserts(
        fold_inserts(fold_inserts(Map::empty(), alias_hashes(aliases)), program_hashes(programs_of(subs), subs)),
        key_hashes(subs),
    )
}

fn program_text(program: &str, subs: &SubcommandSet) -> (r: String)
    ensures
        r@ == join_spec(program_items(program@, subs.pairs()), ";"@),
{
    let entries = subs.entries();
    let ghost pairs = subs.pairs();
    let mut prefix = string_from(program);
    push_str(&mut prefix, ":");
    let mut items: Vec<String> = Vec::new();
    let mut i: usize = 0;
    proof {
        assert(views(items@) =~= program_items(program@, pairs.take(0)));
    }
    while i < entries.len()
        invariant
            i <= entries@.len(),
            entries@.map_values(|p: (String, crate::subcommand::TomlSubcommand)| (p.0@, p.1@)) == pairs,
            prefix@ == program@ + ":"@,
            views(items@) == program_items(program@, pairs.take(i as int)),
        decreases entries@.len() - i,
    {
        let key = &entries[i].0;
        proof {
            assert(pairs.take(i + 1).drop_last() =~= pairs.take(i as int));
            assert(pairs.take(i + 1).last() == pairs[i as int]);
            assert(pairs[i as int].0 == key@);
        }
        if crate::text::starts_with(key.as_str(), prefix.as_str()) {
            let mut item = key.clone();
            push_str(&mut item, "=");
            let e = join_strs(entries[i].1.expansions(), ",");
            push_str(&mut item, e.as_str());
            let ghost before = items@;
            items.push(item);
            proof {
                assert(views(items@) =~= views(before).push(item@));
                assert(views(items@) =~= program_items(program@, pairs.take(i + 1)));
            }
        } else {
            proof {
                assert(views(items@) =~= program_items(program@, pairs.take(i + 1)));
            }
        }
        i = i + 1;
    }
    proof {
        assert(pairs.take(entries@.len() as int) =~= pairs);
    }
    join_strs(items.as_slice(), ";")
}

/// The programs with subcommand aliases and their entries, in name order.
pub(crate) fn program_groups(subs: &SubcommandSet) -> (r: StrMap<String, SubcommandGroup>)
    ensures
        r.spec_map() == grouped(subs.pairs()),
        r.spec_pairs() == sorted_pairs(grouped(subs.pairs())),
{
    let g = subs.group_by_program();
    let e = g.entries();
    proof {
        lemma_sorted_pairs_of(g.spec_pairs());
    }
    g
}

/// The tracking map of a project.
pub fn current_tracking(project: &ProjectAliases) -> (r: StrMap<String, String>)
    ensures
        r.spec_map() == tracking(project.aliases.pairs(), project.subcommands.pairs()),
{
    let mut map: StrMap<String, String> = StrMap::new();
    let aliases = project.aliases.entries();
    let ghost ap = alias_hashes(project.aliases.pairs());
    let mut i: usize = 0;
    proof {
        assert(ap.take(0) =~= Seq::<(Seq<char>, Seq<char>)>::empty());
    }
    while i < aliases.len()
        invariant
            i <= aliases@.len(),
            aliases@.map_values(|p: (AliasName, TomlAlias)| (p.0@, p.1@)) == project.aliases.pairs(),
            ap == alias_hashes(project.aliases.pairs()),
            map.spec_map() == fold_inserts(Map::empty(), ap.take(i as int)),
        decreases aliases@.len() - i,
    {
        let name = string_from(aliases[i].0.as_str());
        let h = alias_content_hash(&aliases[i].1);
        proof {
            assert(ap.take(i + 1).drop_last() =~= ap.take(i as int));
            assert(ap.take(i + 1).last() == ap[i as int]);
        }
        map.insert(name, h);
        i = i + 1;
    }
    proof {
        assert(ap.take(aliases@.len() as int) =~= ap);
    }
    let ghost m1 = map.spec_map();
    let groups = program_groups(&project.subcommands);
    let gs = groups.entries();
    let ghost subs_p = project.subcommands.pairs();
    let ghost progs = programs_of(subs_p);
    let ghost ph = program_hashes(progs, subs_p);
    let mut j: usize = 0;
    proof {
        assert(progs =~= entries_view(gs@).map_values(|g: (Seq<char>, Seq<EntrySpec>)| g.0));
        assert(ph.take(0) =~= Seq::<(Seq<char>, Seq<char>)>::empty());
    }
    while j < gs.len()
        invariant
            j <= gs@.len(),
            progs == entries_view(gs@).map_values(|g: (Seq<char>, Seq<EntrySpec>)| g.0),
            ph == program_hashes(progs, subs_p),
            subs_p == project.subcommands.pairs(),
            map.spec_map() == fold_inserts(m1, ph.take(j as int)),
        decreases gs@.len() - j,
    {
        let program = gs[j].0.clone();
        let text = program_text(program.as_str(), &project.subcommands);
        let h = compute_short_hash(text.as_str().as_bytes());
        proof {
            assert(progs[j as int] == program@);
            assert(ph.take(j + 1).drop_last() =~= ph.take(j as int));
            assert(ph.take(j + 1).last() == ph[j as int]);
        }
        map.insert(program, h);
        j = j + 1;
    }
    proof {
        assert(ph.take(gs@.len() as int) =~= ph);
    }
    let ghost m2 = map.spec_map();
    let subs = project.subcommands.entries();
    let ghost kh = key_hashes(subs_p);
    let mut k: usize = 0;
    proof {
        assert(kh.take(0) =~= Seq::<(Seq<char>, Seq<char>)>::empty());
    }
    while k < subs.len()
        invariant
            k <= subs@.len(),
            subs@.map_values(|p: (String, crate::subcommand::TomlSubcommand)| (p.0@, p.1@)) == subs_p,
            kh == key_hashes(subs_p),
            map.spec_map() == fold_inserts(m2, kh.take(k as int)),
        decreases subs@.len() - k,
    {
        let key = subs[k].0.clone();
        let text = join_strs(subs[k].1.expansions(), ",");
        let h = compute_short_hash(text.as_str().as_bytes());
        proof {
            assert(kh.take(k + 1).drop_last() =~= kh.take(k as int));
            assert(kh.take(k + 1).last() == kh[k as int]);
        }
        map.insert(key, h);
        k = k + 1;
    }
    proof {
        assert(kh.take(subs@.len() as int) =~= kh);
    }
    map
}

/// Keys of `prev` (in order) that `cur` no longer has.
pub open spec fn removed_keys<V, W>(prev: Seq<(Seq<char>, V)>, cur: Map<Seq<char>, W>) -> Seq<Seq<char>>
    decreases prev.len(),
{
    if prev.len() == 0 {
        Seq::empty()
    } else {
        removed_keys(prev.drop_last(), cur) + (if cur.contains_key(prev.last().0) {
            Seq::empty()
        } else {
            seq![prev.last().0]
        })
    }
}

/// Keys of `cur` (in order) that `prev` did not have.
pub open spec fn added_keys<V, W>(cur: Seq<(Seq<char>, V)>, prev: Map<Seq<char>, W>) -> Seq<Seq<char>> {
    removed_keys(cur, prev)
}

/// Keys of `cur` (in order) tracked before with no hash or another hash.
pub open spec fn changed_keys(cur: Seq<(Seq<char>, Seq<char>)>, prev: Map<Seq<char>, Option<Seq<char>>>) -> Seq<
    Seq<char>,
>
    decreases cur.len(),
{
    if cur.len() == 0 {
        Seq::empty()
    } else {
        let p = cur.last();
        changed_keys(cur.drop_last(), prev) + (if prev.contains_key(p.0) && prev[p.0] != Some(p.1) {
            seq![p.0]
        } else {
            Seq::empty()
        })
    }
}

/// What changed between the previous and the current tracking state.
pub struct HookDiff {
    pub removed: Vec<String>,
    pub added: Vec<String>,
    pub changed: Vec<String>,
}

/// Compares the previous tracking map with the current one.
pub fn diff_tracking(prev: &StrMap<String, PrevHash>, current: &StrMap<String, String>) -> (r: HookDiff)
    ensures
        views(r.removed@) == removed_keys(prev.spec_pairs(), current.spec_map()),
        views(r.added@) == added_keys(current.spec_pairs(), prev.spec_map()),
        views(r.changed@) == changed_keys(current.spec_pairs(), prev.spec_map()),
{
    let pe = prev.entries();
    let ghost pp = prev.spec_pairs();
    let mut removed: Vec<String> = Vec::new();
    let mut i: usize = 0;
    proof {
        assert(views(removed@) =~= removed_keys(pp.take(0), current.spec_map()));
    }
    while i < pe.len()
        invariant
            i <= pe@.len(),
            entries_view(pe@) == pp,
            views(removed@) == removed_keys(pp.take(i as int), current.spec_map()),
        decreases pe@.len() - i,
    {
        proof {
            assert(pp.take(i + 1).drop_last() =~= pp.take(i as int));
            assert(pp.take(i + 1).last() == pp[i as int]);
        }
        if !current.contains_key(pe[i].0.as_str()) {
            let ghost before = removed@;
            let k = pe[i].0.clone();
            removed.push(k);
            proof {
                assert(views(removed@) =~= views(before).push(k@));
            }
        }
        proof {
            assert(views(removed@) =~= removed_keys(pp.take(i + 1), current.spec_map()));
        }
        i = i + 1;
    }
    proof {
        assert(pp.take(pe@.len() as int) =~= pp);
    }
    let ce = current.entries();
    let ghost cp = current.spec_pairs();
    let mut added: Vec<String> = Vec::new();
    let mut changed: Vec<String> = Vec::new();
    let mut j: usize = 0;
    proof {
        assert(views(added@) =~= removed_keys(cp.take(0), prev.spec_map()));
        assert(views(changed@) =~= changed_keys(cp.take(0), prev.spec_map()));
    }
    while j < ce.len()
        invariant
            j <= ce@.len(),
            entries_view(ce@) == cp,
            views(added@) == removed_keys(cp.take(j as int), prev.spec_map()),
            views(changed@) == changed_keys(cp.take(j as int), prev.spec_map()),
        decreases ce@.len() - j,
    {
        proof {
            assert(cp.take(j + 1).drop_last() =~= cp.take(j as int));
            assert(cp.take(j + 1).last() == cp[j as int]);
        }
        let name = &ce[j].0;
        let hash = &ce[j].1;
        match prev.get(name.as_str()) {
            None => {
                let ghost before = added@;
                let k = name.clone();
                added.push(k);
                proof {
                    assert(views(added@) =~= views(before).push(k@));
                }
            },
            Some(ph) => {
                let same = match &ph.0 {
                    Some(p) => str_equal(p.as_str(), hash.as_str()),
                    None => false,
                };
                if !same {
                    let ghost before = changed@;
                    let k = name.clone();
                    changed.push(k);
                    proof {
                        assert(views(changed@) =~= views(before).push(k@));
                    }
                }
            },
        }
        proof {
            assert(views(added@) =~= removed_keys(cp.take(j + 1), prev.spec_map()));
            assert(views(changed@) =~= changed_keys(cp.take(j + 1), prev.spec_map()));
        }
        j = j + 1;
    }
    proof {
        assert(cp.take(ce@.len() as int) =~= cp);
    }
    HookDiff { removed, added, changed }
}

} // verus!
