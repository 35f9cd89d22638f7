//! Export bundles, import merging and the checks run on imported text.
use vstd::prelude::*;

pub mod share;
pub mod suspicious;
pub mod summary;

pub use share::{base64_decode, base64_encode, DecodeFailure};
pub use summary::{
    render_import_summary, render_import_summary_subcommands, render_import_summary_vars,
};
use suspicious::{finding, has_suspicious, sanitized, FindingSpec, ScopeSpec};
pub use suspicious::{
    escape_for_display, has_suspicious_chars, render_suspicious_warning, sanitize_for_display,
    RawValue, SanitizedName, Scope, SuspiciousAlias, SuspiciousChar, SuspiciousField,
};

use crate::alias::{AliasSet, AliasSpec, MergeResult};
use crate::profile::Profile;
use crate::project::ProjectAliases;
use crate::strmap::{conflicts_in, new_entries, triple_view};
use crate::subcommand::{sub_differs, SubSpec, SubcommandSet, TomlSubcommand};
use crate::vars::{value_differs, VarName, VarSet};

verus! {

/// The export format version this library writes and reads.
pub const EXPORT_FORMAT_VERSION: u32 = 2;

/// The `[meta]` block of an export.
#[derive(Debug, Clone, Copy, PartialEq, Eq)]
pub struct Meta {
    pub version: u32,
}

impl Default for Meta {
    fn default() -> (r: Self)
        ensures
            r.version == EXPORT_FORMAT_VERSION,
    {
        Meta { version: EXPORT_FORMAT_VERSION }
    }
}

/// One scope's content: aliases, subcommand aliases and variables.
#[derive(Debug)]
pub struct ScopeBundle {
    pub aliases: AliasSet,
    pub subcommands: SubcommandSet,
    pub vars: VarSet,
}

impl Default for ScopeBundle {
    fn default() -> (r: Self)
        ensures
            r.aliases@ == Map::<Seq<char>, AliasSpec>::empty(),
            r.subcommands@ == Map::<Seq<char>, SubSpec>::empty(),
            r.vars@ == Map::<Seq<char>, Seq<char>>::empty(),
    {
        ScopeBundle {
            aliases: AliasSet::default(),
            subcommands: SubcommandSet::new(),
            vars: VarSet::default(),
        }
    }
}

/// Is a bundle without any entry?
pub open spec fn bundle_empty(b: ScopeBundle) -> bool {
    b.aliases@.len() == 0 && b.subcommands@.len() == 0 && b.vars@.len() == 0
}

impl ScopeBundle {
    pub fn is_empty(&self) -> (r: bool)
        ensures
            r == bundle_empty(*self),
    {
        self.aliases.is_empty() && self.subcommands.is_empty() && self.vars.is_empty()
    }
}

/// An export: global scope, profiles and the local (project) scope.
#[derive(Debug)]
pub struct ExportAll {
    pub meta: Meta,
    pub global: ScopeBundle,
    pub profiles: Vec<Profile>,
    pub local: ScopeBundle,
}

impl Default for ExportAll {
    fn default() -> (r: Self)
        ensures
            r.meta.version == EXPORT_FORMAT_VERSION,
            bundle_empty(r.global),
            r.profiles@.len() == 0,
            bundle_empty(r.local),
    {
        ExportAll {
            meta: Meta::default(),
            global: ScopeBundle::default(),
            profiles: Vec::new(),
            local: ScopeBundle::default(),
        }
    }
}

/// `base` overridden by each layer in turn, later layers winning.
pub open spec fn layered<V>(base: Map<Seq<char>, V>, layers: Seq<Map<Seq<char>, V>>) -> Map<
    Seq<char>,
    V,
>
    decreases layers.len(),
{
    if layers.len() == 0 {
        base
    } else {
        layered(base, layers.drop_last()).union_prefer_right(layers.last())
    }
}

proof fn lemma_layered_dom<V>(base: Map<Seq<char>, V>, layers: Seq<Map<Seq<char>, V>>, k: Seq<char>)
    ensures
        layered(base, layers).contains_key(k) <==> (base.contains_key(k) || exists|j: int|
            0 <= j < layers.len() && (#[trigger] layers[j]).contains_key(k)),
    decreases layers.len(),
{
    if layers.len() > 0 {
        let d = layers.drop_last();
        lemma_layered_dom(base, d, k);
        if exists|j: int| 0 <= j < d.len() && (#[trigger] d[j]).contains_key(k) {
            let j = choose|j: int| 0 <= j < d.len() && (#[trigger] d[j]).contains_key(k);
            assert(layers[j].contains_key(k));
        }
        if exists|j: int| 0 <= j < layers.len() && (#[trigger] layers[j]).contains_key(k) {
            let j = choose|j: int| 0 <= j < layers.len() && (#[trigger] layers[j]).contains_key(k);
            if j < d.len() {
                assert(d[j].contains_key(k));
            }
        }
    }
}

proof fn lemma_layered_top<V>(base: Map<Seq<char>, V>, layers: Seq<Map<Seq<char>, V>>, k: Seq<char>, j: int)
    requires
        0 <= j < layers.len(),
        layers[j].contains_key(k),
        forall|i: int| j < i < layers.len() ==> !(#[trigger] layers[i]).contains_key(k),
    ensures
        layered(base, layers)[k] == layers[j][k],
    decreases layers.len(),
{
    let d = layers.drop_last();
    if j < d.len() {
        assert(!layers[layers.len() - 1].contains_key(k));
        assert forall|i: int| j < i < d.len() implies !(#[trigger] d[i]).contains_key(k) by {
            assert(d[i] == layers[i]);
        }
        lemma_layered_top(base, d, k, j);
        assert(d[j] == layers[j]);
        lemma_layered_dom(base, d, k);
    }
}

proof fn lemma_layered_base<V>(base: Map<Seq<char>, V>, layers: Seq<Map<Seq<char>, V>>, k: Seq<char>)
    requires
        forall|j: int| 0 <= j < layers.len() ==> !(#[trigger] layers[j]).contains_key(k),
        base.contains_key(k),
    ensures
        layered(base, layers).contains_key(k),
        layered(base, layers)[k] == base[k],
    decreases layers.len(),
{
    if layers.len() > 0 {
        let d = layers.drop_last();
        assert forall|j: int| 0 <= j < d.len() implies !(#[trigger] d[j]).contains_key(k) by {
            assert(d[j] == layers[j]);
        }
        lemma_layered_base(base, d, k);
        assert(!layers[layers.len() - 1].contains_key(k));
    }
}

/// Flattening gives each name the value of its highest-priority scope:
/// local over the profiles (the last one holding the name) over global;
/// a name is present when any scope holds it.
pub proof fn law_flatten_precedence<V>(
    global: Map<Seq<char>, V>,
    profiles: Seq<Map<Seq<char>, V>>,
    local: Map<Seq<char>, V>,
    k: Seq<char>,
)
    ensures
        layered(global, profiles).union_prefer_right(local).contains_key(k) <==> (global.contains_key(k)
            || local.contains_key(k) || exists|j: int|
            0 <= j < profiles.len() && (#[trigger] profiles[j]).contains_key(k)),
        local.contains_key(k) ==> layered(global, profiles).union_prefer_right(local)[k] == local[k],
        forall|j: int|
            0 <= j < profiles.len() && (#[trigger] profiles[j]).contains_key(k) && !local.contains_key(k) && (forall|
                i: int,
            | j < i < profiles.len() ==> !profiles[i].contains_key(k)) ==> layered(global, profiles).union_prefer_right(
                local,
            )[k] == profiles[j][k],
        !local.contains_key(k) && global.contains_key(k) && (forall|j: int|
            0 <= j < profiles.len() ==> !(#[trigger] profiles[j]).contains_key(k)) ==> layered(
            global,
            profiles,
        ).union_prefer_right(local)[k] == global[k],
{
    lemma_layered_dom(global, profiles, k);
    assert forall|j: int|
        0 <= j < profiles.len() && (#[trigger] profiles[j]).contains_key(k) && !local.contains_key(k) && (forall|
            i: int,
        | j < i < profiles.len() ==> !profiles[i].contains_key(k)) implies layered(global, profiles).union_prefer_right(
        local,
    )[k] == profiles[j][k] by {
        lemma_layered_top(global, profiles, k, j);
    }
    if !local.contains_key(k) && global.contains_key(k) && (forall|j: int|
        0 <= j < profiles.len() ==> !(#[trigger] profiles[j]).contains_key(k)) {
        lemma_layered_base(global, profiles, k);
    }
}

/// The alias maps of the profiles, in order.
pub open spec fn profile_aliases(ps: Seq<Profile>) -> Seq<Map<Seq<char>, AliasSpec>> {
    ps.map_values(|p: Profile| p.aliases@)
}

/// The subcommand maps of the profiles, in order.
pub open spec fn profile_subcommands(ps: Seq<Profile>) -> Seq<Map<Seq<char>, SubSpec>> {
    ps.map_values(|p: Profile| p.subcommands@)
}

/// The variable maps of the profiles, in order.
pub open spec fn profile_vars(ps: Seq<Profile>) -> Seq<Map<Seq<char>, Seq<char>>> {
    ps.map_values(|p: Profile| p.vars@)
}

impl ExportAll {
    pub fn is_empty(&self) -> (r: bool)
        ensures
            r == (bundle_empty(self.global) && self.profiles@.len() == 0 && bundle_empty(
                self.local,
            )),
    {
        self.global.is_empty() && self.profiles.len() == 0 && self.local.is_empty()
    }

    /// All aliases in one set. Precedence: local over profiles (the last
    /// profile winning) over global.
    pub fn flatten(&self) -> (r: AliasSet)
        ensures
            r@ == layered(self.global.aliases@, profile_aliases(self.profiles@)).union_prefer_right(
                self.local.aliases@,
            ),
    {
        let mut result = self.global.aliases.dup();
        let mut i: usize = 0;
        while i < self.profiles.len()
            invariant
                i <= self.profiles@.len(),
                result@ == layered(
                    self.global.aliases@,
                    profile_aliases(self.profiles@.take(i as int)),
                ),
            decreases self.profiles@.len() - i,
        {
            result.insert_all(&self.profiles[i].aliases);
            proof {
                assert(profile_aliases(self.profiles@.take(i + 1)).drop_last() =~= profile_aliases(
                    self.profiles@.take(i as int),
                ));
            }
            i = i + 1;
        }
        proof {
            assert(self.profiles@.take(self.profiles@.len() as int) =~= self.profiles@);
        }
        result.insert_all(&self.local.aliases);
        result
    }

    /// All subcommand aliases in one set, with the same precedence as
    /// [`ExportAll::flatten`].
    pub fn flatten_subcommands(&self) -> (r: SubcommandSet)
        ensures
            r@ == layered(
                self.global.subcommands@,
                profile_subcommands(self.profiles@),
            ).union_prefer_right(self.local.subcommands@),
    {
        let mut result = self.global.subcommands.dup();
        let mut i: usize = 0;
        while i < self.profiles.len()
            invariant
                i <= self.profiles@.len(),
                result@ == layered(
                    self.global.subcommands@,
                    profile_subcommands(self.profiles@.take(i as int)),
                ),
            decreases self.profiles@.len() - i,
        {
            result.insert_all(&self.profiles[i].subcommands);
            proof {
                assert(profile_subcommands(self.profiles@.take(i + 1)).drop_last()
                    =~= profile_subcommands(self.profiles@.take(i as int)));
            }
            i = i + 1;
        }
        proof {
            assert(self.profiles@.take(self.profiles@.len() as int) =~= self.profiles@);
        }
        result.insert_all(&self.local.subcommands);
        result
    }

    /// All variables in one set, with the same precedence as
    /// [`ExportAll::flatten`].
    pub fn flatten_vars(&self) -> (r: VarSet)
        ensures
            r@ == layered(self.global.vars@, profile_vars(self.profiles@)).union_prefer_right(
                self.local.vars@,
            ),
    {
        let mut result = self.global.vars.dup();
        let mut i: usize = 0;
        while i < self.profiles.len()
            invariant
                i <= self.profiles@.len(),
                result@ == layered(self.global.vars@, profile_vars(self.profiles@.take(i as int))),
            decreases self.profiles@.len() - i,
        {
            result.insert_all(&self.profiles[i].vars);
            proof {
                assert(profile_vars(self.profiles@.take(i + 1)).drop_last() =~= profile_vars(
                    self.profiles@.take(i as int),
                ));
            }
            i = i + 1;
        }
        proof {
            assert(self.profiles@.take(self.profiles@.len() as int) =~= self.profiles@);
        }
        result.insert_all(&self.local.vars);
        result
    }
}

/// The export layout of releases before the `[meta]` block: flat global and
/// local tables, no variables outside profiles.
#[derive(Debug)]
pub struct ExportAllV1 {
    pub global_aliases: AliasSet,
    pub global_subcommands: SubcommandSet,
    pub profiles: Vec<Profile>,
    pub local_aliases: AliasSet,
    pub local_subcommands: SubcommandSet,
}

impl ExportAllV1 {
    pub fn is_empty(&self) -> (r: bool)
        ensures
            r == (self.global_aliases@.len() == 0 && self.global_subcommands@.len() == 0
                && self.profiles@.len() == 0 && self.local_aliases@.len() == 0
                && self.local_subcommands@.len() == 0),
    {
        self.global_aliases.is_empty() && self.global_subcommands.is_empty() && self.profiles.len()
            == 0 && self.local_aliases.is_empty() && self.local_subcommands.is_empty()
    }

    /// The same content in the current layout, with empty variable tables
    /// at global and local scope.
    pub fn into_v2(self) -> (r: ExportAll)
        ensures
            r.meta.version == EXPORT_FORMAT_VERSION,
            r.global.aliases@ == self.global_aliases@,
            r.global.subcommands@ == self.global_subcommands@,
            r.global.vars@.len() == 0,
            r.profiles@ == self.profiles@,
            r.local.aliases@ == self.local_aliases@,
            r.local.subcommands@ == self.local_subcommands@,
            r.local.vars@.len() == 0,
    {
        ExportAll {
            meta: Meta::default(),
            global: ScopeBundle {
                aliases: self.global_aliases,
                subcommands: self.global_subcommands,
                vars: VarSet::default(),
            },
            profiles: self.profiles,
            local: ScopeBundle {
                aliases: self.local_aliases,
                subcommands: self.local_subcommands,
                vars: VarSet::default(),
            },
        }
    }
}

/// Per-scope content to write on import; `None` means "do not write".
#[derive(Debug)]
pub struct ScopeBundlePayload {
    pub aliases: Option<AliasSet>,
    pub subcommands: Option<SubcommandSet>,
    pub vars: Option<VarSet>,
}

impl Default for ScopeBundlePayload {
    fn default() -> (r: Self)
        ensures
            r.aliases is None,
            r.subcommands is None,
            r.vars is None,
    {
        ScopeBundlePayload { aliases: None, subcommands: None, vars: None }
    }
}

/// What an import writes, scope by scope.
#[derive(Debug)]
pub struct ImportPayload {
    pub global: ScopeBundlePayload,
    pub profiles: Vec<Profile>,
    pub local: ScopeBundlePayload,
}

impl Default for ImportPayload {
    fn default() -> (r: Self)
        ensures
            r.profiles@.len() == 0,
    {
        ImportPayload {
            global: ScopeBundlePayload::default(),
            profiles: Vec::new(),
            local: ScopeBundlePayload::default(),
        }
    }
}

/// The outcome of checking incoming subcommand aliases.
#[derive(Debug)]
pub struct SubcommandMergeResult {
    pub new_subcommands: SubcommandSet,
    pub conflicts: Vec<SubcommandConflict>,
}

/// A key present on both sides with a different expansion or description.
#[derive(Debug)]
pub struct SubcommandConflict {
    pub key: String,
    pub current: TomlSubcommand,
    pub incoming: TomlSubcommand,
}

impl View for SubcommandConflict {
    type V = (Seq<char>, SubSpec, SubSpec);

    open spec fn view(&self) -> (Seq<char>, SubSpec, SubSpec) {
        (self.key@, self.current@, self.incoming@)
    }
}

/// The outcome of checking incoming variables.
#[derive(Debug)]
pub struct VarMergeResult {
    pub new_vars: VarSet,
    pub conflicts: Vec<VarConflict>,
}

/// A variable present on both sides with different values.
#[derive(Debug)]
pub struct VarConflict {
    pub name: VarName,
    pub current: String,
    pub incoming: String,
}

impl View for VarConflict {
    type V = (Seq<char>, Seq<char>, Seq<char>);

    open spec fn view(&self) -> (Seq<char>, Seq<char>, Seq<char>) {
        (self.name@, self.current@, self.incoming@)
    }
}

/// Compares `incoming` variables with `current`: names new there, and, in
/// name order, names whose values differ. Identical entries are skipped.
pub fn var_merge_check(current: &VarSet, incoming: &VarSet) -> (r: VarMergeResult)
    ensures
        r.new_vars@ == new_entries(current@, incoming@),
        r.conflicts@.map_values(|c: VarConflict| c@) == conflicts_in(
            current@,
            incoming.pairs(),
            |a: Seq<char>, b: Seq<char>| value_differs(a, b),
        ),
{
    let (fresh, triples) = current.merge_check(incoming);
    let mut conflicts: Vec<VarConflict> = Vec::new();
    let mut rest = triples;
    let mut i: usize = 0;
    let n = rest.len();
    let ghost all = rest@;
    while rest.len() > 0
        invariant
            n == all.len(),
            i + rest@.len() == n,
            rest@ == all.skip(i as int),
            conflicts@.map_values(|c: VarConflict| c@) == all.take(i as int).map_values(
                |c: (VarName, String, String)| triple_view(c),
            ),
        decreases rest@.len(),
    {
        let (name, cur, inc) = rest.remove(0);
        let ghost before = conflicts@;
        let c = VarConflict { name, current: cur, incoming: inc };
        conflicts.push(c);
        proof {
            assert(all[i as int] == (c.name, c.current, c.incoming));
            assert(c@ == triple_view(all[i as int]));
            assert(conflicts@ =~= before.push(c));
            assert(conflicts@.map_values(|c: VarConflict| c@) =~= before.map_values(
                |c: VarConflict| c@,
            ).push(c@));
            assert(all.take(i + 1) =~= all.take(i as int).push(all[i as int]));
            assert(conflicts@.map_values(|c: VarConflict| c@) =~= all.take(i + 1).map_values(
                |c: (VarName, String, String)| triple_view(c),
            ));
        }
        i = i + 1;
        proof {
            assert(rest@ =~= all.skip(i as int));
        }
    }
    proof {
        assert(all.take(n as int) =~= all);
    }
    VarMergeResult { new_vars: fresh, conflicts }
}

/// Compares `incoming` subcommand aliases with `current`: keys new there,
/// and, in key order, keys whose expansion or description differ.
pub fn subcommand_merge_check(current: &SubcommandSet, incoming: &SubcommandSet) -> (r:
    SubcommandMergeResult)
    ensures
        r.new_subcommands@ == new_entries(current@, incoming@),
        r.conflicts@.map_values(|c: SubcommandConflict| c@) == conflicts_in(
            current@,
            incoming.pairs(),
            |a: SubSpec, b: SubSpec| sub_differs(a, b),
        ),
{
    let (fresh, triples) = current.merge_check(incoming);
    let mut conflicts: Vec<SubcommandConflict> = Vec::new();
    let mut rest = triples;
    let mut i: usize = 0;
    let n = rest.len();
    let ghost all = rest@;
    while rest.len() > 0
        invariant
            n == all.len(),
            i + rest@.len() == n,
            rest@ == all.skip(i as int),
            conflicts@.map_values(|c: SubcommandConflict| c@) == all.take(i as int).map_values(
                |c: (String, TomlSubcommand, TomlSubcommand)| triple_view(c),
            ),
        decreases rest@.len(),
    {
        let (key, cur, inc) = rest.remove(0);
        let ghost before = conflicts@;
        let c = SubcommandConflict { key, current: cur, incoming: inc };
        conflicts.push(c);
        proof {
            assert(all[i as int] == (c.key, c.current, c.incoming));
            assert(c@ == triple_view(all[i as int]));
            assert(conflicts@ =~= before.push(c));
            assert(conflicts@.map_values(|c: SubcommandConflict| c@) =~= before.map_values(
                |c: SubcommandConflict| c@,
            ).push(c@));
            assert(all.take(i + 1) =~= all.take(i as int).push(all[i as int]));
            assert(conflicts@.map_values(|c: SubcommandConflict| c@) =~= all.take(i + 1).map_values(
                |c: (String, TomlSubcommand, TomlSubcommand)| triple_view(c),
            ));
        }
        i = i + 1;
        proof {
            assert(rest@ =~= all.skip(i as int));
        }
    }
    proof {
        assert(all.take(n as int) =~= all);
    }
    SubcommandMergeResult { new_subcommands: fresh, conflicts }
}

/// Which layout an import was read in.
#[derive(Debug, Clone, Copy, PartialEq, Eq)]
pub enum ParseSource {
    /// The current layout, with `[meta] version = 2`.
    V2,
    /// The layout of releases before the `[meta]` block.
    LegacyV1,
    /// A project `.aliases` file used as the import source.
    RawAliasesFile,
}

/// A parsed import and the layout it came in.
#[derive(Debug)]
pub struct ParsedImport {
    pub export: ExportAll,
    pub source: ParseSource,
}

/// Why an import input was refused.
#[derive(Debug, Clone, PartialEq, Eq)]
pub enum ImportError {
    /// A `[meta]` block was present but the rest did not parse; the
    /// parser's message.
    InvalidV2(String),
    /// A `[meta]` block with a version this library does not read.
    UnsupportedVersion(u32),
    /// Nothing usable in the input.
    NoAliases,
}

/// The message for an import error.
pub open spec fn import_error_message(e: ImportError) -> Seq<char> {
    match e {
        ImportError::InvalidV2(m) => "invalid v2 export: "@ + m@,
        ImportError::UnsupportedVersion(v) => "unsupported export format version "@ + crate::text::decimal(
            v as nat,
        ) + " (this amoxide supports version "@ + crate::text::decimal(
            EXPORT_FORMAT_VERSION as nat,
        ) + ")"@,
        ImportError::NoAliases => "no aliases found in input"@,
    }
}

impl ImportError {
    pub fn to_string(&self) -> (r: String)
        ensures
            r@ == import_error_message(*self),
    {
        match self {
            ImportError::InvalidV2(m) => {
                let mut s = crate::text::string_from("invalid v2 export: ");
                crate::text::push_str(&mut s, m.as_str());
                s
            },
            ImportError::UnsupportedVersion(v) => {
                let mut s = crate::text::string_from("unsupported export format version ");
                let d = crate::text::decimal_string(*v as usize);
                crate::text::push_str(&mut s, d.as_str());
                crate::text::push_str(&mut s, " (this amoxide supports version ");
                let e = crate::text::decimal_string(EXPORT_FORMAT_VERSION as usize);
                crate::text::push_str(&mut s, e.as_str());
                crate::text::push_str(&mut s, ")");
                s
            },
            ImportError::NoAliases => crate::text::string_from("no aliases found in input"),
        }
    }
}

/// Chooses among the readings of an import input. `v2` is the strict
/// reading, present exactly when the input has a `[meta]` block; `v1` and
/// `raw` are the legacy and `.aliases` readings, where they parsed.
/// Dispatch: a `[meta]` block decides alone (its version must be the
/// current one); else a non-empty legacy reading; else a non-empty
/// `.aliases` reading, as the local scope; else nothing was found.
pub fn select_import(
    v2: Option<Result<ExportAll, String>>,
    v1: Option<ExportAllV1>,
    raw: Option<ProjectAliases>,
) -> (r: Result<ParsedImport, ImportError>)
    ensures
        v2 matches Some(Ok(e)) ==> (if e.meta.version == EXPORT_FORMAT_VERSION {
            r matches Ok(p) && p.source == ParseSource::V2 && p.export == e
        } else {
            r == Err::<ParsedImport, ImportError>(ImportError::UnsupportedVersion(e.meta.version))
        }),
        v2 matches Some(Err(m)) ==> r == Err::<ParsedImport, ImportError>(
            ImportError::InvalidV2(m),
        ),
        v2 is None ==> (match (v1, raw) {
            (Some(l), _) if !(l.global_aliases@.len() == 0 && l.global_subcommands@.len() == 0
                && l.profiles@.len() == 0 && l.local_aliases@.len() == 0
                && l.local_subcommands@.len() == 0) => r matches Ok(p) && p.source
                == ParseSource::LegacyV1 && p.export.global.aliases@ == l.global_aliases@
                && p.export.global.subcommands@ == l.global_subcommands@
                && p.export.profiles@ == l.profiles@ && p.export.local.aliases@
                == l.local_aliases@ && p.export.local.subcommands@ == l.local_subcommands@
                && p.export.global.vars@.len() == 0 && p.export.local.vars@.len() == 0,
            (_, Some(p)) if !(p.aliases@.len() == 0 && p.vars@.len() == 0
                && p.subcommands@.len() == 0) => r matches Ok(q) && q.source
                == ParseSource::RawAliasesFile && q.export.local.aliases@ == p.aliases@
                && q.export.local.subcommands@ == p.subcommands@ && q.export.local.vars@
                == p.vars@ && bundle_empty(q.export.global) && q.export.profiles@.len() == 0,
            _ => r == Err::<ParsedImport, ImportError>(ImportError::NoAliases),
        }),
        r matches Ok(p) ==> p.export.meta.version == EXPORT_FORMAT_VERSION,
{
    match v2 {
        Some(Ok(export)) => {
            if export.meta.version != EXPORT_FORMAT_VERSION {
                return Err(ImportError::UnsupportedVersion(export.meta.version));
            }
            return Ok(ParsedImport { export, source: ParseSource::V2 });
        },
        Some(Err(m)) => {
            return Err(ImportError::InvalidV2(m));
        },
        None => {},
    }
    if let Some(legacy) = v1 {
        if !legacy.is_empty() {
            return Ok(ParsedImport { export: legacy.into_v2(), source: ParseSource::LegacyV1 });
        }
    }
    if let Some(project) = raw {
        if !project.aliases.is_empty() || !project.vars.is_empty()
            || !project.subcommands.is_empty() {
            let g = ScopeBundle::default();
            return Ok(
                ParsedImport {
                    export: ExportAll {
                        meta: Meta::default(),
                        global: g,
                        profiles: Vec::new(),
                        local: ScopeBundle {
                            aliases: project.aliases,
                            subcommands: project.subcommands,
                            vars: project.vars,
                        },
                    },
                    source: ParseSource::RawAliasesFile,
                },
            );
        }
    }
    Err(ImportError::NoAliases)
}

/// Findings for a list of aliases in one scope, in name order: the name if
/// it is suspicious, then the command if it is.
pub open spec fn alias_findings(scope: ScopeSpec, pairs: Seq<(Seq<char>, AliasSpec)>) -> Seq<
    FindingSpec,
>
    decreases pairs.len(),
{
    if pairs.len() == 0 {
        Seq::empty()
    } else {
        let (name, a) = pairs.last();
        alias_findings(scope, pairs.drop_last()) + (if has_suspicious(name) {
            seq![finding(scope, name, SuspiciousField::AliasName, name)]
        } else {
            Seq::empty()
        }) + (if has_suspicious(a.command) {
            seq![finding(scope, name, SuspiciousField::AliasCommand, a.command)]
        } else {
            Seq::empty()
        })
    }
}

/// Findings for the expansions of one subcommand alias, in order.
pub open spec fn expansion_findings(scope: ScopeSpec, key: Seq<char>, exps: Seq<Seq<char>>) -> Seq<
    FindingSpec,
>
    decreases exps.len(),
{
    if exps.len() == 0 {
        Seq::empty()
    } else {
        expansion_findings(scope, key, exps.drop_last()) + (if has_suspicious(exps.last()) {
            seq![finding(scope, key, SuspiciousField::SubcommandExpansion, exps.last())]
        } else {
            Seq::empty()
        })
    }
}

/// Findings for subcommand aliases in one scope, in key order: the key if it
/// is suspicious, then each suspicious expansion.
pub open spec fn subcommand_findings(scope: ScopeSpec, pairs: Seq<(Seq<char>, SubSpec)>) -> Seq<
    FindingSpec,
>
    decreases pairs.len(),
{
    if pairs.len() == 0 {
        Seq::empty()
    } else {
        let (key, sub) = pairs.last();
        subcommand_findings(scope, pairs.drop_last()) + (if has_suspicious(key) {
            seq![finding(scope, key, SuspiciousField::SubcommandKey, key)]
        } else {
            Seq::empty()
        }) + expansion_findings(scope, key, sub.expansions)
    }
}

/// Findings for variables in one scope, in name order: the name, then the value.
pub open spec fn var_findings(scope: ScopeSpec, pairs: Seq<(Seq<char>, Seq<char>)>) -> Seq<
    FindingSpec,
>
    decreases pairs.len(),
{
    if pairs.len() == 0 {
        Seq::empty()
    } else {
        let (name, value) = pairs.last();
        var_findings(scope, pairs.drop_last()) + (if has_suspicious(name) {
            seq![finding(scope, name, SuspiciousField::VarName, name)]
        } else {
            Seq::empty()
        }) + (if has_suspicious(value) {
            seq![finding(scope, name, SuspiciousField::VarValue, value)]
        } else {
            Seq::empty()
        })
    }
}

/// Findings for one scope's aliases, subcommand aliases and variables.
pub open spec fn bundle_findings(scope: ScopeSpec, b: ScopeBundle) -> Seq<FindingSpec> {
    alias_findings(scope, b.aliases.pairs()) + subcommand_findings(scope, b.subcommands.pairs())
        + var_findings(scope, b.vars.pairs())
}

proof fn lemma_alias_findings_clean(scope: ScopeSpec, pairs: Seq<(Seq<char>, AliasSpec)>)
    ensures
        alias_findings(scope, pairs).len() == 0 <==> forall|i: int|
            0 <= i < pairs.len() ==> !has_suspicious((#[trigger] pairs[i]).0) && !has_suspicious(pairs[i].1.command),
    decreases pairs.len(),
{
    if pairs.len() > 0 {
        let d = pairs.drop_last();
        let n = pairs.len() - 1;
        lemma_alias_findings_clean(scope, d);
        assert forall|i: int| 0 <= i < d.len() implies #[trigger] d[i] == pairs[i] by {}
        if forall|i: int| 0 <= i < pairs.len() ==> !has_suspicious((#[trigger] pairs[i]).0) && !has_suspicious(
            pairs[i].1.command,
        ) {
            assert(!has_suspicious(pairs[n].0) && !has_suspicious(pairs[n].1.command));
            assert forall|i: int| 0 <= i < d.len() implies !has_suspicious((#[trigger] d[i]).0) && !has_suspicious(
                d[i].1.command,
            ) by {
                assert(d[i] == pairs[i]);
            }
        }
        if alias_findings(scope, pairs).len() == 0 {
            assert forall|i: int| 0 <= i < pairs.len() implies !has_suspicious((#[trigger] pairs[i]).0)
                && !has_suspicious(pairs[i].1.command) by {
                if i < n {
                    assert(d[i] == pairs[i]);
                }
            }
        }
    }
}

proof fn lemma_expansion_findings_clean(scope: ScopeSpec, key: Seq<char>, exps: Seq<Seq<char>>)
    ensures
        expansion_findings(scope, key, exps).len() == 0 <==> forall|i: int|
            0 <= i < exps.len() ==> !has_suspicious(#[trigger] exps[i]),
    decreases exps.len(),
{
    if exps.len() > 0 {
        let d = exps.drop_last();
        let n = exps.len() - 1;
        lemma_expansion_findings_clean(scope, key, d);
        assert forall|i: int| 0 <= i < d.len() implies #[trigger] d[i] == exps[i] by {}
        if forall|i: int| 0 <= i < exps.len() ==> !has_suspicious(#[trigger] exps[i]) {
            assert(!has_suspicious(exps[n]));
            assert forall|i: int| 0 <= i < d.len() implies !has_suspicious(#[trigger] d[i]) by {
                assert(d[i] == exps[i]);
            }
        }
        if expansion_findings(scope, key, exps).len() == 0 {
            assert forall|i: int| 0 <= i < exps.len() implies !has_suspicious(#[trigger] exps[i]) by {
                if i < n {
                    assert(d[i] == exps[i]);
                }
            }
        }
    }
}

proof fn lemma_subcommand_findings_clean(scope: ScopeSpec, pairs: Seq<(Seq<char>, SubSpec)>)
    ensures
        subcommand_findings(scope, pairs).len() == 0 <==> forall|i: int|
            0 <= i < pairs.len() ==> !has_suspicious((#[trigger] pairs[i]).0) && forall|j: int|
                0 <= j < pairs[i].1.expansions.len() ==> !has_suspicious(#[trigger] pairs[i].1.expansions[j]),
    decreases pairs.len(),
{
    if pairs.len() > 0 {
        let d = pairs.drop_last();
        let n = pairs.len() - 1;
        let l = pairs[n];
        lemma_subcommand_findings_clean(scope, d);
        lemma_expansion_findings_clean(scope, l.0, l.1.expansions);
        assert forall|i: int| 0 <= i < d.len() implies #[trigger] d[i] == pairs[i] by {}
        if forall|i: int|
            0 <= i < pairs.len() ==> !has_suspicious((#[trigger] pairs[i]).0) && forall|j: int|
                0 <= j < pairs[i].1.expansions.len() ==> !has_suspicious(#[trigger] pairs[i].1.expansions[j]) {
            assert(!has_suspicious(pairs[n].0));
            assert forall|i: int| 0 <= i < d.len() implies !has_suspicious((#[trigger] d[i]).0) && forall|j: int|
                0 <= j < d[i].1.expansions.len() ==> !has_suspicious(#[trigger] d[i].1.expansions[j]) by {
                assert(d[i] == pairs[i]);
            }
        }
        if subcommand_findings(scope, pairs).len() == 0 {
            assert forall|i: int| 0 <= i < pairs.len() implies !has_suspicious((#[trigger] pairs[i]).0) && forall|j: int|
                0 <= j < pairs[i].1.expansions.len() ==> !has_suspicious(#[trigger] pairs[i].1.expansions[j]) by {
                if i < n {
                    assert(d[i] == pairs[i]);
                }
            }
        }
    }
}

proof fn lemma_var_findings_clean(scope: ScopeSpec, pairs: Seq<(Seq<char>, Seq<char>)>)
    ensures
        var_findings(scope, pairs).len() == 0 <==> forall|i: int|
            0 <= i < pairs.len() ==> !has_suspicious((#[trigger] pairs[i]).0) && !has_suspicious(pairs[i].1),
    decreases pairs.len(),
{
    if pairs.len() > 0 {
        let d = pairs.drop_last();
        let n = pairs.len() - 1;
        lemma_var_findings_clean(scope, d);
        assert forall|i: int| 0 <= i < d.len() implies #[trigger] d[i] == pairs[i] by {}
        if forall|i: int| 0 <= i < pairs.len() ==> !has_suspicious((#[trigger] pairs[i]).0) && !has_suspicious(
            pairs[i].1,
        ) {
            assert(!has_suspicious(pairs[n].0) && !has_suspicious(pairs[n].1));
            assert forall|i: int| 0 <= i < d.len() implies !has_suspicious((#[trigger] d[i]).0) && !has_suspicious(
                d[i].1,
            ) by {
                assert(d[i] == pairs[i]);
            }
        }
        if var_findings(scope, pairs).len() == 0 {
            assert forall|i: int| 0 <= i < pairs.len() implies !has_suspicious((#[trigger] pairs[i]).0)
                && !has_suspicious(pairs[i].1) by {
                if i < n {
                    assert(d[i] == pairs[i]);
                }
            }
        }
    }
}

/// A scope yields no finding exactly when none of its alias names or
/// commands, subcommand keys or expansions, variable names or values holds
/// a suspicious character.
pub proof fn law_scope_clean_iff_no_findings(scope: ScopeSpec, b: ScopeBundle)
    ensures
        bundle_findings(scope, b).len() == 0 <==> ((forall|i: int|
            0 <= i < b.aliases.pairs().len() ==> !has_suspicious((#[trigger] b.aliases.pairs()[i]).0)
                && !has_suspicious(b.aliases.pairs()[i].1.command)) && (forall|i: int|
            0 <= i < b.subcommands.pairs().len() ==> !has_suspicious((#[trigger] b.subcommands.pairs()[i]).0)
                && forall|j: int|
                0 <= j < b.subcommands.pairs()[i].1.expansions.len() ==> !has_suspicious(
                    #[trigger] b.subcommands.pairs()[i].1.expansions[j],
                )) && (forall|i: int|
            0 <= i < b.vars.pairs().len() ==> !has_suspicious((#[trigger] b.vars.pairs()[i]).0) && !has_suspicious(
                b.vars.pairs()[i].1,
            ))),
{
    lemma_alias_findings_clean(scope, b.aliases.pairs());
    lemma_subcommand_findings_clean(scope, b.subcommands.pairs());
    lemma_var_findings_clean(scope, b.vars.pairs());
}

/// Findings for one profile: its name, then its aliases, subcommand aliases
/// and variables.
pub open spec fn profile_findings(p: Profile) -> Seq<FindingSpec> {
    let scope = ScopeSpec::Profile(sanitized(p.name@));
    (if has_suspicious(p.name@) {
        seq![finding(scope, Seq::empty(), SuspiciousField::ProfileName, p.name@)]
    } else {
        Seq::empty()
    }) + alias_findings(scope, p.aliases.pairs()) + subcommand_findings(
        scope,
        p.subcommands.pairs(),
    ) + var_findings(scope, p.vars.pairs())
}

/// Findings for the profiles, in order.
pub open spec fn profiles_findings(ps: Seq<Profile>) -> Seq<FindingSpec>
    decreases ps.len(),
{
    if ps.len() == 0 {
        Seq::empty()
    } else {
        profiles_findings(ps.drop_last()) + profile_findings(ps.last())
    }
}

/// Findings for a whole export: global, each profile, then local.
pub open spec fn export_findings(e: ExportAll) -> Seq<FindingSpec> {
    bundle_findings(ScopeSpec::Global, e.global) + profiles_findings(e.profiles@)
        + bundle_findings(ScopeSpec::Local, e.local)
}

/// The views of a list of findings.
pub open spec fn finding_views(v: Seq<SuspiciousAlias>) -> Seq<FindingSpec> {
    v.map_values(|f: SuspiciousAlias| f@)
}

proof fn lemma_push_view(v: Seq<SuspiciousAlias>, f: SuspiciousAlias)
    ensures
        finding_views(v.push(f)) == finding_views(v) + seq![f@],
{
    assert(finding_views(v.push(f)) =~= finding_views(v) + seq![f@]);
}

/// Scans aliases; `scope` picks the global or the local constructors.
fn scan_aliases(findings: &mut Vec<SuspiciousAlias>, scope: &Scope, aliases: &AliasSet)
    requires
        !(scope is Profile),
    ensures
        finding_views(final(findings)@) == finding_views(old(findings)@) + alias_findings(
            scope@,
            aliases.pairs(),
        ),
{
    let entries = aliases.entries();
    let ghost pairs = aliases.pairs();
    let ghost start = finding_views(findings@);
    let mut i: usize = 0;
    proof {
        assert(start + alias_findings(scope@, pairs.take(0)) =~= start);
    }
    while i < entries.len()
        invariant
            i <= entries@.len(),
            !(scope is Profile),
            entries@.map_values(|p: (crate::alias::AliasName, crate::alias::TomlAlias)| (p.0@, p.1@))
                == pairs,
            finding_views(findings@) == start + alias_findings(scope@, pairs.take(i as int)),
        decreases entries@.len() - i,
    {
        let name = entries[i].0.as_str();
        let cmd = entries[i].1.command();
        let ghost mid0 = finding_views(findings@);
        proof {
            assert(pairs.take(i + 1).drop_last() =~= pairs.take(i as int));
            assert(pairs.take(i + 1).last() == pairs[i as int]);
        }
        if has_suspicious_chars(name) {
            let f = match scope {
                Scope::Global => SuspiciousAlias::global_name(name),
                _ => SuspiciousAlias::local_name(name),
            };
            proof {
                lemma_push_view(findings@, f);
            }
            findings.push(f);
        }
        let ghost mid1 = finding_views(findings@);
        if has_suspicious_chars(cmd) {
            let f = match scope {
                Scope::Global => SuspiciousAlias::global_command(name, cmd),
                _ => SuspiciousAlias::local_command(name, cmd),
            };
            proof {
                lemma_push_view(findings@, f);
            }
            findings.push(f);
        }
        proof {
            assert(finding_views(findings@) =~= start + alias_findings(scope@, pairs.take(i + 1)));
        }
        i = i + 1;
    }
    proof {
        assert(pairs.take(entries@.len() as int) =~= pairs);
    }
}

/// Scans the aliases of a profile.
fn scan_profile_aliases(findings: &mut Vec<SuspiciousAlias>, profile: &Profile)
    ensures
        finding_views(final(findings)@) == finding_views(old(findings)@) + alias_findings(
            ScopeSpec::Profile(sanitized(profile.name@)),
            profile.aliases.pairs(),
        ),
{
    let entries = profile.aliases.entries();
    let ghost pairs = profile.aliases.pairs();
    let ghost scope = ScopeSpec::Profile(sanitized(profile.name@));
    let ghost start = finding_views(findings@);
    let mut i: usize = 0;
    proof {
        assert(start + alias_findings(scope, pairs.take(0)) =~= start);
    }
    while i < entries.len()
        invariant
            i <= entries@.len(),
            scope == ScopeSpec::Profile(sanitized(profile.name@)),
            entries@.map_values(|p: (crate::alias::AliasName, crate::alias::TomlAlias)| (p.0@, p.1@))
                == pairs,
            finding_views(findings@) == start + alias_findings(scope, pairs.take(i as int)),
        decreases entries@.len() - i,
    {
        let name = entries[i].0.as_str();
        let cmd = entries[i].1.command();
        proof {
            assert(pairs.take(i + 1).drop_last() =~= pairs.take(i as int));
            assert(pairs.take(i + 1).last() == pairs[i as int]);
        }
        if has_suspicious_chars(name) {
            let f = SuspiciousAlias::profile_alias_name(profile.name.as_str(), name);
            proof {
                lemma_push_view(findings@, f);
            }
            findings.push(f);
        }
        if has_suspicious_chars(cmd) {
            let f = SuspiciousAlias::profile_alias_command(profile.name.as_str(), name, cmd);
            proof {
                lemma_push_view(findings@, f);
            }
            findings.push(f);
        }
        proof {
            assert(finding_views(findings@) =~= start + alias_findings(scope, pairs.take(i + 1)));
        }
        i = i + 1;
    }
    proof {
        assert(pairs.take(entries@.len() as int) =~= pairs);
    }
}

/// Scans subcommand aliases.
fn scan_subcommands(findings: &mut Vec<SuspiciousAlias>, scope: &Scope, subs: &SubcommandSet)
    ensures
        finding_views(final(findings)@) == finding_views(old(findings)@) + subcommand_findings(
            scope@,
            subs.pairs(),
        ),
{
    let entries = subs.entries();
    let ghost pairs = subs.pairs();
    let ghost start = finding_views(findings@);
    let mut i: usize = 0;
    proof {
        assert(start + subcommand_findings(scope@, pairs.take(0)) =~= start);
    }
    while i < entries.len()
        invariant
            i <= entries@.len(),
            entries@.map_values(|p: (String, TomlSubcommand)| (p.0@, p.1@)) == pairs,
            finding_views(findings@) == start + subcommand_findings(scope@, pairs.take(i as int)),
        decreases entries@.len() - i,
    {
        let key = entries[i].0.as_str();
        let exps = entries[i].1.expansions();
        let ghost mid0 = finding_views(findings@);
        proof {
            assert(pairs.take(i + 1).drop_last() =~= pairs.take(i as int));
            assert(pairs.take(i + 1).last() == pairs[i as int]);
        }
        if has_suspicious_chars(key) {
            let f = SuspiciousAlias::subcommand_key(scope.dup(), key);
            proof {
                lemma_push_view(findings@, f);
            }
            findings.push(f);
        }
        let ghost mid1 = finding_views(findings@);
        let ghost ev = crate::text::views(exps@);
        let mut j: usize = 0;
        proof {
            assert(mid1 + expansion_findings(scope@, key@, ev.take(0)) =~= mid1);
        }
        while j < exps.len()
            invariant
                j <= exps@.len(),
                ev == crate::text::views(exps@),
                finding_views(findings@) == mid1 + expansion_findings(scope@, key@, ev.take(j as int)),
            decreases exps@.len() - j,
        {
            let e = exps[j].as_str();
            proof {
                assert(ev.take(j + 1).drop_last() =~= ev.take(j as int));
                assert(ev.take(j + 1).last() == e@);
            }
            if has_suspicious_chars(e) {
                let f = SuspiciousAlias::subcommand_expansion(scope.dup(), key, e);
                proof {
                    lemma_push_view(findings@, f);
                }
                findings.push(f);
            }
            proof {
                assert(finding_views(findings@) =~= mid1 + expansion_findings(scope@, key@, ev.take(j + 1)));
            }
            j = j + 1;
        }
        proof {
            assert(ev.take(exps@.len() as int) =~= ev);
            assert(finding_views(findings@) =~= start + subcommand_findings(scope@, pairs.take(i + 1)));
        }
        i = i + 1;
    }
    proof {
        assert(pairs.take(entries@.len() as int) =~= pairs);
    }
}

/// Scans variables.
fn scan_vars(findings: &mut Vec<SuspiciousAlias>, scope: &Scope, vars: &VarSet)
    ensures
        finding_views(final(findings)@) == finding_views(old(findings)@) + var_findings(
            scope@,
            vars.pairs(),
        ),
{
    let entries = vars.entries();
    let ghost pairs = vars.pairs();
    let ghost start = finding_views(findings@);
    let mut i: usize = 0;
    proof {
        assert(start + var_findings(scope@, pairs.take(0)) =~= start);
    }
    while i < entries.len()
        invariant
            i <= entries@.len(),
            entries@.map_values(|p: (VarName, String)| (p.0@, p.1@)) == pairs,
            finding_views(findings@) == start + var_findings(scope@, pairs.take(i as int)),
        decreases entries@.len() - i,
    {
        let name = entries[i].0.as_str();
        let value = entries[i].1.as_str();
        proof {
            assert(pairs.take(i + 1).drop_last() =~= pairs.take(i as int));
            assert(pairs.take(i + 1).last() == pairs[i as int]);
        }
        if has_suspicious_chars(name) {
            let f = SuspiciousAlias::var_name(scope.dup(), name);
            proof {
                lemma_push_view(findings@, f);
            }
            findings.push(f);
        }
        if has_suspicious_chars(value) {
            let f = SuspiciousAlias::var_value(scope.dup(), name, value);
            proof {
                lemma_push_view(findings@, f);
            }
            findings.push(f);
        }
        proof {
            assert(finding_views(findings@) =~= start + var_findings(scope@, pairs.take(i + 1)));
        }
        i = i + 1;
    }
    proof {
        assert(pairs.take(entries@.len() as int) =~= pairs);
    }
}

/// Scans one scope bundle (global or local).
fn scan_bundle(findings: &mut Vec<SuspiciousAlias>, scope: Scope, bundle: &ScopeBundle)
    requires
        !(scope is Profile),
    ensures
        finding_views(final(findings)@) == finding_views(old(findings)@) + bundle_findings(
            scope@,
            *bundle,
        ),
{
    let ghost start = finding_views(findings@);
    scan_aliases(findings, &scope, &bundle.aliases);
    let ghost a = finding_views(findings@);
    scan_subcommands(findings, &scope, &bundle.subcommands);
    let ghost b = finding_views(findings@);
    scan_vars(findings, &scope, &bundle.vars);
    proof {
        assert(finding_views(findings@) =~= start + bundle_findings(scope@, *bundle));
    }
}

/// Scans one profile.
fn scan_profile(findings: &mut Vec<SuspiciousAlias>, profile: &Profile)
    ensures
        finding_views(final(findings)@) == finding_views(old(findings)@) + profile_findings(
            *profile,
        ),
{
    let ghost start = finding_views(findings@);
    let ghost scope_v = ScopeSpec::Profile(sanitized(profile.name@));
    if has_suspicious_chars(profile.name.as_str()) {
        let f = SuspiciousAlias::profile_name(profile.name.as_str());
        proof {
            lemma_push_view(findings@, f);
        }
        findings.push(f);
    }
    let ghost a = finding_views(findings@);
    scan_profile_aliases(findings, profile);
    let scope = Scope::Profile(SanitizedName::new(profile.name.as_str()));
    scan_subcommands(findings, &scope, &profile.subcommands);
    scan_vars(findings, &scope, &profile.vars);
    proof {
        assert(finding_views(findings@) =~= start + profile_findings(*profile));
    }
}

/// Findings for every suspicious alias name or command, profile name,
/// subcommand key or expansion, and variable name or value in an export:
/// global scope first, then each profile, then the local scope.
pub fn scan_suspicious(parsed: &ExportAll) -> (r: Vec<SuspiciousAlias>)
    ensures
        finding_views(r@) == export_findings(*parsed),
{
    let mut findings: Vec<SuspiciousAlias> = Vec::new();
    proof {
        assert(finding_views(findings@) =~= Seq::<FindingSpec>::empty());
    }
    scan_bundle(&mut findings, Scope::Global, &parsed.global);
    let ghost g = finding_views(findings@);
    let mut i: usize = 0;
    proof {
        assert(g + profiles_findings(parsed.profiles@.take(0)) =~= g);
    }
    while i < parsed.profiles.len()
        invariant
            i <= parsed.profiles@.len(),
            finding_views(findings@) == g + profiles_findings(parsed.profiles@.take(i as int)),
        decreases parsed.profiles@.len() - i,
    {
        scan_profile(&mut findings, &parsed.profiles[i]);
        proof {
            assert(parsed.profiles@.take(i + 1).drop_last() =~= parsed.profiles@.take(i as int));
            assert(finding_views(findings@) =~= g + profiles_findings(parsed.profiles@.take(i + 1)));
        }
        i = i + 1;
    }
    proof {
        assert(parsed.profiles@.take(parsed.profiles@.len() as int) =~= parsed.profiles@);
    }
    scan_bundle(&mut findings, Scope::Local, &parsed.local);
    proof {
        assert(finding_views(findings@) =~= export_findings(*parsed));
    }
    findings
}

} // verus!
