//! Shell tab-completion: what the partial command line says about the
//! scope, and the candidates offered for it.
use vstd::prelude::*;

use crate::config::Config;
use crate::profile::{first_named, Profile, ProfileConfig};
use crate::project::ProjectAliases;
use crate::alias::AliasSet;
use crate::strmap::{pair_keys, pairs_map, StrMap};
use crate::subcommand::SubcommandSet;
use crate::text::{
    lemma_split_nonempty, push_str, split_char, split_spec, starts_with, str_equal, string_from, suffix_from,
    prefix_to, views,
};
use crate::vars::VarSet;

verus! {

/// Scope as inferred from the partial command line at completion time.
#[derive(Debug)]
pub struct CompletionCtx {
    /// `-l` / `--local` was seen.
    pub local: bool,
    /// `-g` / `--global` was seen.
    pub global: bool,
    /// Profile names given after `-p` / `--profile`.
    pub profiles: Vec<String>,
    /// Positional values seen so far.
    pub positionals: Vec<String>,
    /// Values already given for `--sub`.
    pub subs: Vec<String>,
    /// The command line up to the cursor, when the shell forwards it.
    pub comp_line_prefix: Option<String>,
}

/// What a completion context holds.
pub struct CtxSpec {
    pub local: bool,
    pub global: bool,
    pub profiles: Seq<Seq<char>>,
    pub positionals: Seq<Seq<char>>,
    pub subs: Seq<Seq<char>>,
    pub comp_line_prefix: Option<Seq<char>>,
}

impl View for CompletionCtx {
    type V = CtxSpec;

    open spec fn view(&self) -> CtxSpec {
        CtxSpec {
            local: self.local,
            global: self.global,
            profiles: views(self.profiles@),
            positionals: views(self.positionals@),
            subs: views(self.subs@),
            comp_line_prefix: crate::alias::opt_view(self.comp_line_prefix),
        }
    }
}

/// The empty context.
pub open spec fn empty_ctx() -> CtxSpec {
    CtxSpec {
        local: false,
        global: false,
        profiles: Seq::empty(),
        positionals: Seq::empty(),
        subs: Seq::empty(),
        comp_line_prefix: None,
    }
}

impl Default for CompletionCtx {
    fn default() -> (r: Self)
        ensures
            r@ == empty_ctx(),
    {
        let r = CompletionCtx {
            local: false,
            global: false,
            profiles: Vec::new(),
            positionals: Vec::new(),
            subs: Vec::new(),
            comp_line_prefix: None,
        };
        assert(r@.profiles =~= Seq::<Seq<char>>::empty());
        assert(r@.positionals =~= Seq::<Seq<char>>::empty());
        assert(r@.subs =~= Seq::<Seq<char>>::empty());
        r
    }
}

/// `s` with `value` appended unless it is empty (an empty value is the one
/// being completed, not a prior entry).
pub open spec fn with_nonempty(s: Seq<Seq<char>>, value: Seq<char>) -> Seq<Seq<char>> {
    if value.len() == 0 {
        s
    } else {
        s.push(value)
    }
}

/// Does `s` start with `p`?
pub open spec fn has_prefix(s: Seq<char>, p: Seq<char>) -> bool {
    p.len() <= s.len() && s.take(p.len() as int) == p
}

/// The context after reading `args` from the front onto `c`: scope flags
/// set, `-p`/`--profile` and `--sub` take the next word (or the text after
/// `=`), other words not starting with `-` are positionals.
pub open spec fn scan_args(args: Seq<Seq<char>>, c: CtxSpec) -> CtxSpec
    decreases args.len(),
{
    if args.len() == 0 {
        c
    } else {
        let a = args[0];
        let rest = args.skip(1);
        if a == "-l"@ || a == "--local"@ {
            scan_args(rest, CtxSpec { local: true, ..c })
        } else if a == "-g"@ || a == "--global"@ {
            scan_args(rest, CtxSpec { global: true, ..c })
        } else if a == "-p"@ || a == "--profile"@ {
            if rest.len() == 0 {
                c
            } else {
                scan_args(rest.skip(1), CtxSpec { profiles: with_nonempty(c.profiles, rest[0]), ..c })
            }
        } else if a == "--sub"@ {
            if rest.len() == 0 {
                c
            } else {
                scan_args(rest.skip(1), CtxSpec { subs: with_nonempty(c.subs, rest[0]), ..c })
            }
        } else if has_prefix(a, "--profile="@) {
            scan_args(rest, CtxSpec { profiles: with_nonempty(c.profiles, a.skip(10)), ..c })
        } else if has_prefix(a, "--sub="@) {
            scan_args(rest, CtxSpec { subs: with_nonempty(c.subs, a.skip(6)), ..c })
        } else if !has_prefix(a, "-"@) {
            scan_args(rest, CtxSpec { positionals: c.positionals.push(a), ..c })
        } else {
            scan_args(rest, c)
        }
    }
}

/// Appends `value` unless it is empty.
pub fn push_nonempty(target: &mut Vec<String>, value: String)
    ensures
        views(final(target)@) == with_nonempty(views(old(target)@), value@),
{
    if value.unicode_len() != 0 {
        let ghost before = views(target@);
        target.push(value);
        proof {
            assert(views(target@) =~= before.push(value@));
        }
    }
}

/// Does the candidate `name` match the typed `prefix`?
pub fn matches(name: &str, prefix: &str) -> (r: bool)
    ensures
        r == (prefix@.len() == 0 || has_prefix(name@, prefix@)),
{
    prefix.unicode_len() == 0 || starts_with(name, prefix)
}

proof fn lemma_skip_step(args: Seq<Seq<char>>, i: int)
    requires
        0 <= i < args.len(),
    ensures
        args.skip(i)[0] == args[i],
        args.skip(i).skip(1) == args.skip(i + 1),
        args.skip(i).len() == args.len() - i,
{
    assert(args.skip(i).skip(1) =~= args.skip(i + 1));
}

impl CompletionCtx {
    /// The context of the words of a command line.
    pub fn from_args(args: &[String]) -> (r: Self)
        ensures
            r@ == scan_args(views(args@), empty_ctx()),
    {
        let mut ctx = CompletionCtx::default();
        let ghost all = views(args@);
        let mut i: usize = 0;
        proof {
            assert(all.skip(0) =~= all);
        }
        while i < args.len()
            invariant
                i <= args@.len(),
                all == views(args@),
                scan_args(all, empty_ctx()) == scan_args(all.skip(i as int), ctx@),
            decreases args@.len() - i,
        {
            proof {
                lemma_skip_step(all, i as int);
                reveal_strlit("-l");
                reveal_strlit("--local");
                reveal_strlit("-g");
                reveal_strlit("--global");
                reveal_strlit("-p");
                reveal_strlit("--profile");
                reveal_strlit("--sub");
                reveal_strlit("--profile=");
                reveal_strlit("--sub=");
                reveal_strlit("-");
            }
            let arg = args[i].as_str();
            assert(all[i as int] == arg@);
            if str_equal(arg, "-l") || str_equal(arg, "--local") {
                ctx.local = true;
                i = i + 1;
            } else if str_equal(arg, "-g") || str_equal(arg, "--global") {
                ctx.global = true;
                i = i + 1;
            } else if str_equal(arg, "-p") || str_equal(arg, "--profile") {
                if i + 1 < args.len() {
                    proof {
                        lemma_skip_step(all, i + 1);
                    }
                    push_nonempty(&mut ctx.profiles, args[i + 1].clone());
                    i = i + 2;
                } else {
                    proof {
                        assert(all.skip(i + 1).len() == 0);
                        assert(all.skip(args@.len() as int).len() == 0);
                    }
                    i = args.len();
                }
            } else if str_equal(arg, "--sub") {
                if i + 1 < args.len() {
                    proof {
                        lemma_skip_step(all, i + 1);
                    }
                    push_nonempty(&mut ctx.subs, args[i + 1].clone());
                    i = i + 2;
                } else {
                    proof {
                        assert(all.skip(args@.len() as int).len() == 0);
                    }
                    i = args.len();
                }
            } else if starts_with(arg, "--profile=") {
                push_nonempty(&mut ctx.profiles, suffix_from(arg, 10));
                i = i + 1;
            } else if starts_with(arg, "--sub=") {
                push_nonempty(&mut ctx.subs, suffix_from(arg, 6));
                i = i + 1;
            } else if !starts_with(arg, "-") {
                let ghost before = views(ctx.positionals@);
                ctx.positionals.push(string_from(arg));
                proof {
                    assert(views(ctx.positionals@) =~= before.push(arg@));
                }
                i = i + 1;
            } else {
                i = i + 1;
            }
        }
        proof {
            assert(all.skip(args@.len() as int) =~= Seq::<Seq<char>>::empty());
        }
        ctx
    }
}

/// Unicode white space (what `char::is_whitespace` accepts).
pub open spec fn is_space(c: char) -> bool {
    c == '\t' || c == '\n' || c == '\u{0B}' || c == '\u{0C}' || c == '\r' || c == ' ' || c == '\u{85}'
        || c == '\u{A0}' || c == '\u{1680}' || ('\u{2000}' <= c && c <= '\u{200A}') || c == '\u{2028}'
        || c == '\u{2029}' || c == '\u{202F}' || c == '\u{205F}' || c == '\u{3000}'
}

fn is_space_char(c: char) -> (r: bool)
    ensures
        r == is_space(c),
{
    c == '\t' || c == '\n' || c == '\u{0B}' || c == '\u{0C}' || c == '\r' || c == ' ' || c == '\u{85}'
        || c == '\u{A0}' || c == '\u{1680}' || ('\u{2000}' <= c && c <= '\u{200A}') || c == '\u{2028}'
        || c == '\u{2029}' || c == '\u{202F}' || c == '\u{205F}' || c == '\u{3000}'
}

/// Index of the last `:` in `s`, or -1.
pub open spec fn last_colon(s: Seq<char>) -> int
    decreases s.len(),
{
    if s.len() == 0 {
        -1
    } else if s.last() == ':' {
        s.len() - 1
    } else {
        last_colon(s.drop_last())
    }
}

/// Index of the last white space in `s`, or -1.
pub open spec fn last_space(s: Seq<char>) -> int
    decreases s.len(),
{
    if s.len() == 0 {
        -1
    } else if is_space(s.last()) {
        s.len() - 1
    } else {
        last_space(s.drop_last())
    }
}

proof fn lemma_last_colon(s: Seq<char>)
    ensures
        -1 <= last_colon(s) < s.len(),
        last_colon(s) >= 0 ==> s[last_colon(s)] == ':',
        forall|j: int| last_colon(s) < j < s.len() ==> s[j] != ':',
    decreases s.len(),
{
    if s.len() > 0 {
        let d = s.drop_last();
        lemma_last_colon(d);
        assert forall|j: int| last_colon(s) < j < s.len() implies s[j] != ':' by {
            if j < s.len() - 1 {
                assert(s[j] == d[j]);
            }
        }
    }
}

proof fn lemma_last_space(s: Seq<char>)
    ensures
        -1 <= last_space(s) < s.len(),
        forall|j: int| last_space(s) < j < s.len() ==> !is_space(#[trigger] s[j]),
    decreases s.len(),
{
    if s.len() > 0 {
        let d = s.drop_last();
        lemma_last_space(d);
        assert forall|j: int| last_space(s) < j < s.len() implies !is_space(#[trigger] s[j]) by {
            if j < s.len() - 1 {
                assert(s[j] == d[j]);
            }
        }
    }
}

/// `prog:partial` split after its last `:` into the part to strip and the
/// partial segment; nothing without a `:` or when it starts with one.
pub open spec fn colon_split(s: Seq<char>) -> Option<(Seq<char>, Seq<char>)> {
    let k = last_colon(s);
    if k < 0 || s[0] == ':' {
        None
    } else {
        Some((s.take(k + 1), s.skip(k + 1)))
    }
}

fn last_colon_index(s: &str) -> (r: Option<usize>)
    ensures
        match r {
            Some(k) => k as int == last_colon(s@),
            None => last_colon(s@) == -1,
        },
{
    proof {
        lemma_last_colon(s@);
    }
    let n = s.unicode_len();
    let mut i: usize = n;
    while i > 0
        invariant
            i <= n,
            n == s@.len(),
            forall|j: int| i <= j < n ==> s@[j] != ':',
            -1 <= last_colon(s@) < s@.len(),
            last_colon(s@) >= 0 ==> s@[last_colon(s@)] == ':',
            forall|j: int| last_colon(s@) < j < s@.len() ==> s@[j] != ':',
        decreases i,
    {
        if s.get_char(i - 1) == ':' {
            return Some(i - 1);
        }
        i = i - 1;
    }
    None
}

/// `prog:partial` → `("prog:", "partial")`; nothing when there is no `:`
/// or the program is empty.
pub fn colon_split_in_prefix(s: &str) -> (r: Option<(String, String)>)
    ensures
        match r {
            Some(p) => colon_split(s@) == Some((p.0@, p.1@)),
            None => colon_split(s@) is None,
        },
{
    proof {
        lemma_last_colon(s@);
    }
    match last_colon_index(s) {
        None => None,
        Some(k) => {
            if s.get_char(0) == ':' {
                None
            } else {
                let n = s.unicode_len();
                let strip = prefix_to(s, k + 1);
                let partial = suffix_from(s, k + 1);
                assert(strip@ =~= s@.take(k + 1));
                assert(partial@ =~= s@.skip(k + 1));
                Some((strip, partial))
            }
        },
    }
}

/// The word under the cursor: what follows the last white space.
pub open spec fn cursor_token(line: Seq<char>) -> Seq<char> {
    line.skip(last_space(line) + 1)
}

fn cursor_token_of(line: &str) -> (r: String)
    ensures
        r@ == cursor_token(line@),
{
    proof {
        lemma_last_space(line@);
    }
    let n = line.unicode_len();
    let mut i: usize = n;
    while i > 0
        invariant
            i <= n,
            n == line@.len(),
            forall|j: int| i <= j < n ==> !is_space(#[trigger] line@[j]),
            -1 <= last_space(line@) < line@.len(),
            forall|j: int| last_space(line@) < j < line@.len() ==> !is_space(#[trigger] line@[j]),
        decreases i,
    {
        if is_space_char(line.get_char(i - 1)) {
            proof {
                lemma_last_space_at(line@, i - 1);
            }
            let r = suffix_from(line, i);
            assert(r@ =~= cursor_token(line@));
            return r;
        }
        i = i - 1;
    }
    proof {
        lemma_no_space(line@);
    }
    let r = suffix_from(line, 0);
    assert(r@ =~= cursor_token(line@));
    r
}

proof fn lemma_last_space_at(s: Seq<char>, i: int)
    requires
        0 <= i < s.len(),
        is_space(s[i]),
        forall|j: int| i < j < s.len() ==> !is_space(#[trigger] s[j]),
    ensures
        last_space(s) == i,
    decreases s.len(),
{
    if s.len() - 1 != i {
        let d = s.drop_last();
        assert forall|j: int| i < j < d.len() implies !is_space(#[trigger] d[j]) by {
            assert(d[j] == s[j]);
        }
        assert(!is_space(s[s.len() - 1]));
        lemma_last_space_at(d, i);
    }
}

proof fn lemma_no_space(s: Seq<char>)
    requires
        forall|j: int| 0 <= j < s.len() ==> !is_space(#[trigger] s[j]),
    ensures
        last_space(s) == -1,
    decreases s.len(),
{
    if s.len() > 0 {
        let d = s.drop_last();
        assert forall|j: int| 0 <= j < d.len() implies !is_space(#[trigger] d[j]) by {
            assert(d[j] == s[j]);
        }
        assert(!is_space(s[s.len() - 1]));
        lemma_no_space(d);
    }
}

/// The colon-shorthand context recovered from the forwarded command line:
/// the cursor word split after its last `:`.
pub open spec fn colon_context(c: CtxSpec) -> Option<(Seq<char>, Seq<char>)> {
    match c.comp_line_prefix {
        None => None,
        Some(line) => colon_split(cursor_token(line)),
    }
}

/// `(strip, partial)` for the word under the cursor, read from the
/// forwarded command line; nothing when the shell did not forward it or
/// the word is no `prog:partial`.
pub fn colon_context_from_comp_line(ctx: &CompletionCtx) -> (r: Option<(String, String)>)
    ensures
        match r {
            Some(p) => colon_context(ctx@) == Some((p.0@, p.1@)),
            None => colon_context(ctx@) is None,
        },
{
    match &ctx.comp_line_prefix {
        None => None,
        Some(line) => {
            let token = cursor_token_of(line.as_str());
            colon_split_in_prefix(token.as_str())
        },
    }
}

proof fn lemma_to_set_push(s: Seq<Seq<char>>, x: Seq<char>)
    ensures
        s.push(x).to_set() == s.to_set().insert(x),
{
    assert forall|a: Seq<char>| #[trigger] s.push(x).to_set().contains(a) == s.to_set().insert(x).contains(a) by {
        if s.contains(a) {
            let i = choose|i: int| 0 <= i < s.len() && s[i] == a;
            assert(s.push(x)[i] == a);
        }
        if a == x {
            assert(s.push(x)[s.len() as int] == a);
        }
        if s.push(x).contains(a) {
            let i = choose|i: int| 0 <= i < s.push(x).len() && s.push(x)[i] == a;
            if i < s.len() {
                assert(s[i] == a);
            }
        }
    }
    assert(s.push(x).to_set() =~= s.to_set().insert(x));
}

/// The texts in ascending order, each once (a sort followed by a dedup).
pub fn sorted_unique(v: &[String]) -> (r: Vec<String>)
    ensures
        crate::strmap::keys_sorted(views(r@)),
        views(r@).to_set() == views(v@).to_set(),
{
    let mut m: StrMap<String, String> = StrMap::new();
    let mut i: usize = 0;
    proof {
        assert(views(v@.take(0)).to_set() =~= Set::<Seq<char>>::empty());
        assert(m.spec_map().dom() =~= Set::<Seq<char>>::empty());
    }
    while i < v.len()
        invariant
            i <= v@.len(),
            m.spec_map().dom() == views(v@.take(i as int)).to_set(),
        decreases v@.len() - i,
    {
        proof {
            assert(views(v@.take(i + 1)) =~= views(v@.take(i as int)).push(v@[i as int]@));
            lemma_to_set_push(views(v@.take(i as int)), v@[i as int]@);
        }
        m.insert(v[i].clone(), String::new());
        proof {
            assert(m.spec_map().dom() =~= views(v@.take(i + 1)).to_set());
        }
        i = i + 1;
    }
    proof {
        assert(v@.take(v@.len() as int) =~= v@);
    }
    let e = m.entries();
    let mut r: Vec<String> = Vec::new();
    let ghost pp = m.spec_pairs();
    let mut j: usize = 0;
    while j < e.len()
        invariant
            j <= e@.len(),
            crate::strmap::entries_view(e@) == pp,
            views(r@) == pair_keys(pp.take(j as int)),
        decreases e@.len() - j,
    {
        let ghost before = views(r@);
        let k = e[j].0.clone();
        proof {
            assert(pp[j as int].0 == k@);
        }
        r.push(k);
        proof {
            assert(views(r@) =~= before.push(k@));
            assert(pair_keys(pp.take(j + 1)) =~= pair_keys(pp.take(j as int)).push(pp[j as int].0));
        }
        j = j + 1;
    }
    proof {
        assert(pp.take(e@.len() as int) =~= pp);
        let ks = pair_keys(pp);
        assert forall|a: Seq<char>| #[trigger] ks.to_set().contains(a) == m.spec_map().dom().contains(a) by {
            if ks.contains(a) {
                let i = choose|i: int| 0 <= i < ks.len() && ks[i] == a;
                assert(pp[i].0 == a);
                assert(crate::strmap::has_key(pp, a));
            }
            if crate::strmap::has_key(pp, a) {
                let i = choose|i: int| 0 <= i < pp.len() && #[trigger] pp[i].0 == a;
                assert(ks[i] == a);
            }
        }
        assert(ks.to_set() =~= m.spec_map().dom());
    }
    r
}

/// Which names a completer offers.
#[derive(Debug, Clone, Copy, PartialEq, Eq, Structural)]
pub enum NameKind {
    Aliases,
    SubcommandKeys,
    Vars,
}

/// What completion reads: the global config and variables, the project
/// file in scope (if any), the profiles and the active profile names.
#[derive(Debug)]
pub struct CompletionSources {
    pub config: Config,
    pub global_vars: VarSet,
    pub project: Option<ProjectAliases>,
    pub profiles: ProfileConfig,
    pub active_profiles: Vec<String>,
}

/// The names of one kind in a profile, in order.
pub open spec fn profile_kind_names(p: Profile, kind: NameKind) -> Seq<Seq<char>> {
    match kind {
        NameKind::Aliases => pair_keys(p.aliases.pairs()),
        NameKind::SubcommandKeys => pair_keys(p.subcommands.pairs()),
        NameKind::Vars => pair_keys(p.vars.pairs()),
    }
}

/// The names of one kind in the profiles named, in order (unknown names
/// are skipped).
pub open spec fn profile_pool(profiles: Seq<Profile>, names: Seq<Seq<char>>, kind: NameKind) -> Seq<Seq<char>>
    decreases names.len(),
{
    if names.len() == 0 {
        Seq::empty()
    } else {
        profile_pool(profiles, names.drop_last(), kind) + match first_named(profiles, names.last()) {
            Some(i) => profile_kind_names(profiles[i], kind),
            None => Seq::empty(),
        }
    }
}

/// The global names of one kind.
pub open spec fn global_pool(src: &CompletionSources, kind: NameKind) -> Seq<Seq<char>> {
    match kind {
        NameKind::Aliases => pair_keys(src.config.aliases.pairs()),
        NameKind::SubcommandKeys => pair_keys(src.config.subcommands.pairs()),
        NameKind::Vars => pair_keys(src.global_vars.pairs()),
    }
}

/// The project's names of one kind (none without a project).
pub open spec fn local_pool(src: &CompletionSources, kind: NameKind) -> Seq<Seq<char>> {
    match src.project {
        None => Seq::empty(),
        Some(p) => match kind {
            NameKind::Aliases => pair_keys(p.aliases.pairs()),
            NameKind::SubcommandKeys => pair_keys(p.subcommands.pairs()),
            NameKind::Vars => pair_keys(p.vars.pairs()),
        },
    }
}

/// The names of one kind in the scope the context selects: global, local,
/// the named profiles, or else global, active profiles and local together.
pub open spec fn scope_pool(c: CtxSpec, src: &CompletionSources, kind: NameKind) -> Seq<Seq<char>> {
    if c.global {
        global_pool(src, kind)
    } else if c.local {
        local_pool(src, kind)
    } else if c.profiles.len() > 0 {
        profile_pool(src.profiles.profiles@, c.profiles, kind)
    } else {
        global_pool(src, kind) + profile_pool(src.profiles.profiles@, views(src.active_profiles@), kind)
            + local_pool(src, kind)
    }
}

fn alias_keys(a: &AliasSet) -> (r: Vec<String>)
    ensures
        views(r@) == pair_keys(a.pairs()),
{
    let e = a.entries();
    let ghost pp = a.pairs();
    let mut r: Vec<String> = Vec::new();
    let mut i: usize = 0;
    while i < e.len()
        invariant
            i <= e@.len(),
            e@.map_values(|p: (crate::alias::AliasName, crate::alias::TomlAlias)| (p.0@, p.1@)) == pp,
            views(r@) == pair_keys(pp.take(i as int)),
        decreases e@.len() - i,
    {
        let ghost before = views(r@);
        let k = string_from(e[i].0.as_str());
        proof {
            assert(pp[i as int].0 == k@);
        }
        r.push(k);
        proof {
            assert(views(r@) =~= before.push(k@));
            assert(pair_keys(pp.take(i + 1)) =~= pair_keys(pp.take(i as int)).push(pp[i as int].0));
        }
        i = i + 1;
    }
    proof {
        assert(pp.take(e@.len() as int) =~= pp);
    }
    r
}

fn subcommand_keys(a: &SubcommandSet) -> (r: Vec<String>)
    ensures
        views(r@) == pair_keys(a.pairs()),
{
    let e = a.entries();
    let ghost pp = a.pairs();
    let mut r: Vec<String> = Vec::new();
    let mut i: usize = 0;
    while i < e.len()
        invariant
            i <= e@.len(),
            e@.map_values(|p: (String, crate::subcommand::TomlSubcommand)| (p.0@, p.1@)) == pp,
            views(r@) == pair_keys(pp.take(i as int)),
        decreases e@.len() - i,
    {
        let ghost before = views(r@);
        let k = e[i].0.clone();
        proof {
            assert(pp[i as int].0 == k@);
        }
        r.push(k);
        proof {
            assert(views(r@) =~= before.push(k@));
            assert(pair_keys(pp.take(i + 1)) =~= pair_keys(pp.take(i as int)).push(pp[i as int].0));
        }
        i = i + 1;
    }
    proof {
        assert(pp.take(e@.len() as int) =~= pp);
    }
    r
}

fn var_keys(a: &VarSet) -> (r: Vec<String>)
    ensures
        views(r@) == pair_keys(a.pairs()),
{
    let e = a.entries();
    let ghost pp = a.pairs();
    let mut r: Vec<String> = Vec::new();
    let mut i: usize = 0;
    while i < e.len()
        invariant
            i <= e@.len(),
            e@.map_values(|p: (crate::vars::VarName, String)| (p.0@, p.1@)) == pp,
            views(r@) == pair_keys(pp.take(i as int)),
        decreases e@.len() - i,
    {
        let ghost before = views(r@);
        let k = string_from(e[i].0.as_str());
        proof {
            assert(pp[i as int].0 == k@);
        }
        r.push(k);
        proof {
            assert(views(r@) =~= before.push(k@));
            assert(pair_keys(pp.take(i + 1)) =~= pair_keys(pp.take(i as int)).push(pp[i as int].0));
        }
        i = i + 1;
    }
    proof {
        assert(pp.take(e@.len() as int) =~= pp);
    }
    r
}

fn append_all(dst: &mut Vec<String>, src: Vec<String>)
    ensures
        views(final(dst)@) == views(old(dst)@) + views(src@),
{
    let mut src = src;
    let ghost a = views(dst@);
    let ghost b = views(src@);
    dst.append(&mut src);
    assert(views(dst@) =~= a + b);
}

fn profile_kind_keys(p: &Profile, kind: NameKind) -> (r: Vec<String>)
    ensures
        views(r@) == profile_kind_names(*p, kind),
{
    match kind {
        NameKind::Aliases => alias_keys(&p.aliases),
        NameKind::SubcommandKeys => subcommand_keys(&p.subcommands),
        NameKind::Vars => var_keys(&p.vars),
    }
}

/// The names of one kind in the profiles named, in order.
pub fn load_profile_names(profiles: &ProfileConfig, names: &[String], kind: NameKind) -> (r: Vec<String>)
    ensures
        views(r@) == profile_pool(profiles.profiles@, views(names@), kind),
{
    let mut r: Vec<String> = Vec::new();
    let mut i: usize = 0;
    while i < names.len()
        invariant
            i <= names@.len(),
            views(r@) == profile_pool(profiles.profiles@, views(names@.take(i as int)), kind),
        decreases names@.len() - i,
    {
        proof {
            assert(views(names@.take(i + 1)).drop_last() =~= views(names@.take(i as int)));
            assert(views(names@.take(i + 1)).last() == names@[i as int]@);
        }
        match profiles.get_profile_by_name(names[i].as_str()) {
            Some(p) => {
                let ks = profile_kind_keys(p, kind);
                append_all(&mut r, ks);
            },
            None => {
                assert(views(r@) =~= views(r@) + Seq::<Seq<char>>::empty());
            },
        }
        i = i + 1;
    }
    proof {
        assert(names@.take(names@.len() as int) =~= names@);
    }
    r
}

/// The global names of one kind.
pub fn load_global_names(src: &CompletionSources, kind: NameKind) -> (r: Vec<String>)
    ensures
        views(r@) == global_pool(src, kind),
{
    match kind {
        NameKind::Aliases => alias_keys(&src.config.aliases),
        NameKind::SubcommandKeys => subcommand_keys(&src.config.subcommands),
        NameKind::Vars => var_keys(&src.global_vars),
    }
}

/// The project's names of one kind.
pub fn load_local_names(src: &CompletionSources, kind: NameKind) -> (r: Vec<String>)
    ensures
        views(r@) == local_pool(src, kind),
{
    match &src.project {
        None => Vec::new(),
        Some(p) => match kind {
            NameKind::Aliases => alias_keys(&p.aliases),
            NameKind::SubcommandKeys => subcommand_keys(&p.subcommands),
            NameKind::Vars => var_keys(&p.vars),
        },
    }
}

/// The names of one kind in the scope the context selects.
pub fn load_scope_names(ctx: &CompletionCtx, src: &CompletionSources, kind: NameKind) -> (r: Vec<String>)
    ensures
        views(r@) == scope_pool(ctx@, src, kind),
{
    if ctx.global {
        load_global_names(src, kind)
    } else if ctx.local {
        load_local_names(src, kind)
    } else if ctx.profiles.len() > 0 {
        load_profile_names(&src.profiles, ctx.profiles.as_slice(), kind)
    } else {
        let mut r = load_global_names(src, kind);
        let a = load_profile_names(&src.profiles, src.active_profiles.as_slice(), kind);
        append_all(&mut r, a);
        let l = load_local_names(src, kind);
        append_all(&mut r, l);
        r
    }
}

/// The names that match a typed prefix, in order.
pub open spec fn with_prefix(names: Seq<Seq<char>>, prefix: Seq<char>) -> Seq<Seq<char>>
    decreases names.len(),
{
    if names.len() == 0 {
        Seq::empty()
    } else {
        with_prefix(names.drop_last(), prefix) + (if prefix.len() == 0 || has_prefix(names.last(), prefix) {
            seq![names.last()]
        } else {
            Seq::empty()
        })
    }
}

fn keep_matching(names: &[String], prefix: &str) -> (r: Vec<String>)
    ensures
        views(r@) == with_prefix(views(names@), prefix@),
{
    let mut r: Vec<String> = Vec::new();
    let mut i: usize = 0;
    while i < names.len()
        invariant
            i <= names@.len(),
            views(r@) == with_prefix(views(names@.take(i as int)), prefix@),
        decreases names@.len() - i,
    {
        proof {
            assert(views(names@.take(i + 1)).drop_last() =~= views(names@.take(i as int)));
            assert(views(names@.take(i + 1)).last() == names@[i as int]@);
        }
        if matches(names[i].as_str(), prefix) {
            let ghost before = views(r@);
            let n = names[i].clone();
            r.push(n);
            proof {
                assert(views(r@) =~= before.push(n@));
            }
        }
        i = i + 1;
    }
    proof {
        assert(names@.take(names@.len() as int) =~= names@);
    }
    r
}

/// The rest of each key under `strip`, when it matches `partial`, in order.
pub open spec fn tails_under(keys: Seq<Seq<char>>, strip: Seq<char>, partial: Seq<char>) -> Seq<Seq<char>>
    decreases keys.len(),
{
    if keys.len() == 0 {
        Seq::empty()
    } else {
        let k = keys.last();
        let t = k.skip(strip.len() as int);
        tails_under(keys.drop_last(), strip, partial) + (if has_prefix(k, strip) && (partial.len() == 0
            || has_prefix(t, partial)) {
            seq![t]
        } else {
            Seq::empty()
        })
    }
}

/// The subcommand keys of the scope that continue `strip`, without it,
/// matching `partial`: ascending, each once.
pub fn subcommand_keys_under(strip: &str, partial: &str, ctx: &CompletionCtx, src: &CompletionSources) -> (r:
    Vec<String>)
    ensures
        crate::strmap::keys_sorted(views(r@)),
        views(r@).to_set() == tails_under(scope_pool(ctx@, src, NameKind::SubcommandKeys), strip@, partial@).to_set(),
{
    let keys = load_scope_names(ctx, src, NameKind::SubcommandKeys);
    let n = strip.unicode_len();
    let mut tails: Vec<String> = Vec::new();
    let mut i: usize = 0;
    while i < keys.len()
        invariant
            i <= keys@.len(),
            n == strip@.len(),
            views(tails@) == tails_under(views(keys@.take(i as int)), strip@, partial@),
        decreases keys@.len() - i,
    {
        proof {
            assert(views(keys@.take(i + 1)).drop_last() =~= views(keys@.take(i as int)));
            assert(views(keys@.take(i + 1)).last() == keys@[i as int]@);
        }
        let k = keys[i].as_str();
        if starts_with(k, strip) {
            let t = suffix_from(k, n);
            assert(t@ =~= k@.skip(n as int));
            assert(k@.subrange(0, n as int) =~= k@.take(n as int));
            if matches(t.as_str(), partial) {
                let ghost before = views(tails@);
                tails.push(t);
                proof {
                    assert(views(tails@) =~= before.push(t@));
                }
            }
        } else {
            assert(k@.subrange(0, n as int) =~= k@.take(n as int));
        }
        i = i + 1;
    }
    proof {
        assert(keys@.take(keys@.len() as int) =~= keys@);
    }
    sorted_unique(tails.as_slice())
}

/// The alias candidates: under the colon shorthand of a forwarded command
/// line, the subcommand keys continuing it; else the aliases and
/// subcommand keys of the scope that match `prefix`.
pub open spec fn alias_candidates(prefix: Seq<char>, c: CtxSpec, src: &CompletionSources) -> Set<Seq<char>> {
    let keys = scope_pool(c, src, NameKind::SubcommandKeys);
    let plain = with_prefix(scope_pool(c, src, NameKind::Aliases) + keys, prefix).to_set();
    if c.comp_line_prefix is None {
        plain
    } else {
        match colon_context(c) {
            Some((strip, partial)) => tails_under(keys, strip, partial).to_set(),
            None => match colon_split(prefix) {
                Some((strip, partial)) => tails_under(keys, strip, partial).to_set(),
                None => plain,
            },
        }
    }
}

/// Alias names to offer for `prefix`: ascending, each once.
pub fn alias_names_with_ctx(prefix: &str, ctx: &CompletionCtx, src: &CompletionSources) -> (r: Vec<String>)
    ensures
        crate::strmap::keys_sorted(views(r@)),
        views(r@).to_set() == alias_candidates(prefix@, ctx@, src),
{
    if ctx.comp_line_prefix.is_some() {
        if let Some((strip, partial)) = colon_context_from_comp_line(ctx) {
            return subcommand_keys_under(strip.as_str(), partial.as_str(), ctx, src);
        }
        if let Some((strip, partial)) = colon_split_in_prefix(prefix) {
            return subcommand_keys_under(strip.as_str(), partial.as_str(), ctx, src);
        }
    }
    let mut names = load_scope_names(ctx, src, NameKind::Aliases);
    let keys = load_scope_names(ctx, src, NameKind::SubcommandKeys);
    append_all(&mut names, keys);
    let kept = keep_matching(names.as_slice(), prefix);
    sorted_unique(kept.as_slice())
}

/// Variable names to offer for `prefix`: those of the scope that match,
/// ascending, each once.
pub fn var_names_with_ctx(prefix: &str, ctx: &CompletionCtx, src: &CompletionSources) -> (r: Vec<String>)
    ensures
        crate::strmap::keys_sorted(views(r@)),
        views(r@).to_set() == with_prefix(scope_pool(ctx@, src, NameKind::Vars), prefix@).to_set(),
{
    let names = load_scope_names(ctx, src, NameKind::Vars);
    let kept = keep_matching(names.as_slice(), prefix);
    sorted_unique(kept.as_slice())
}

/// `program` followed by `:` and each of `subs`.
pub open spec fn sub_chain(program: Seq<char>, subs: Seq<Seq<char>>) -> Seq<char>
    decreases subs.len(),
{
    if subs.len() == 0 {
        program
    } else {
        sub_chain(program, subs.drop_last()) + ":"@ + subs.last()
    }
}

/// The next segment of each key continuing `want`, when not empty, in order.
pub open spec fn segments_under(keys: Seq<Seq<char>>, want: Seq<char>) -> Seq<Seq<char>>
    decreases keys.len(),
{
    if keys.len() == 0 {
        Seq::empty()
    } else {
        let k = keys.last();
        let seg = split_spec(k.skip(want.len() as int), ':')[0];
        segments_under(keys.drop_last(), want) + (if has_prefix(k, want) && seg.len() > 0 {
            seq![seg]
        } else {
            Seq::empty()
        })
    }
}

/// The segment candidates: none without a positional; else the next
/// segment of each subcommand key of the scope continuing the program (the
/// last positional up to its first `:`) and the `--sub` values so far,
/// matching `prefix`.
pub open spec fn segment_candidates(prefix: Seq<char>, c: CtxSpec, src: &CompletionSources) -> Set<Seq<char>> {
    if c.positionals.len() == 0 {
        Set::empty()
    } else {
        let program = split_spec(c.positionals.last(), ':')[0];
        let want = sub_chain(program, c.subs) + ":"@;
        with_prefix(segments_under(scope_pool(c, src, NameKind::SubcommandKeys), want), prefix).to_set()
    }
}

fn first_segment(s: &str) -> (r: String)
    ensures
        r@ == split_spec(s@, ':')[0],
{
    proof {
        lemma_split_nonempty(s@, ':');
    }
    let parts = split_char(s, ':');
    assert(views(parts@)[0] == parts@[0]@);
    parts[0].clone()
}

/// Next-segment candidates for a subcommand-alias chain: ascending, each
/// once.
pub fn sub_segments_with_ctx(prefix: &str, ctx: &CompletionCtx, src: &CompletionSources) -> (r: Vec<String>)
    ensures
        crate::strmap::keys_sorted(views(r@)),
        views(r@).to_set() == segment_candidates(prefix@, ctx@, src),
{
    let np = ctx.positionals.len();
    if np == 0 {
        let r: Vec<String> = Vec::new();
        assert(views(r@).to_set() =~= Set::<Seq<char>>::empty());
        return r;
    }
    assert(views(ctx.positionals@).last() == ctx.positionals@[np - 1]@);
    let program = first_segment(ctx.positionals[np - 1].as_str());
    let mut want = program.clone();
    let mut j: usize = 0;
    proof {
        assert(views(ctx.subs@).take(0) =~= Seq::<Seq<char>>::empty());
    }
    while j < ctx.subs.len()
        invariant
            j <= ctx.subs@.len(),
            want@ == sub_chain(program@, views(ctx.subs@).take(j as int)),
        decreases ctx.subs@.len() - j,
    {
        proof {
            assert(views(ctx.subs@).take(j + 1).drop_last() =~= views(ctx.subs@).take(j as int));
            assert(views(ctx.subs@).take(j + 1).last() == ctx.subs@[j as int]@);
        }
        push_str(&mut want, ":");
        push_str(&mut want, ctx.subs[j].as_str());
        j = j + 1;
    }
    proof {
        assert(views(ctx.subs@).take(ctx.subs@.len() as int) =~= views(ctx.subs@));
    }
    push_str(&mut want, ":");
    let keys = load_scope_names(ctx, src, NameKind::SubcommandKeys);
    let n = want.unicode_len();
    let mut segs: Vec<String> = Vec::new();
    let mut i: usize = 0;
    while i < keys.len()
        invariant
            i <= keys@.len(),
            n == want@.len(),
            views(segs@) == segments_under(views(keys@.take(i as int)), want@),
        decreases keys@.len() - i,
    {
        proof {
            assert(views(keys@.take(i + 1)).drop_last() =~= views(keys@.take(i as int)));
            assert(views(keys@.take(i + 1)).last() == keys@[i as int]@);
        }
        let k = keys[i].as_str();
        let tail = if n <= k.unicode_len() {
            suffix_from(k, n)
        } else {
            String::new()
        };
        if starts_with(k, want.as_str()) {
            assert(tail@ =~= k@.skip(n as int));
            assert(k@.subrange(0, n as int) =~= k@.take(n as int));
            let seg = first_segment(tail.as_str());
            if seg.unicode_len() > 0 {
                let ghost before = views(segs@);
                segs.push(seg);
                proof {
                    assert(views(segs@) =~= before.push(seg@));
                }
            }
        } else {
            assert(n <= k@.len() ==> k@.subrange(0, n as int) =~= k@.take(n as int));
        }
        i = i + 1;
    }
    proof {
        assert(keys@.take(keys@.len() as int) =~= keys@);
    }
    let kept = keep_matching(segs.as_slice(), prefix);
    sorted_unique(kept.as_slice())
}

} // verus!
