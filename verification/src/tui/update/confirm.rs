//! Confirming a text form: the profile, alias or subcommand alias it
//! describes is created or changed in the stores.
use vstd::prelude::*;

use crate::alias_id::{AliasId, IdSpec};
use crate::described::{trim, trim_spec};
use crate::profile::{first_named, lemma_first_named};
use crate::project::{added_alias, make_alias};
use crate::subcommand::SubSpec;
use crate::text::{join_spec, join_strs, push_str, str_equal, string_from, views};
use crate::tui::model::{
    pairs_view, AliasTarget, FormSpec, Mode, ModeSpec, MoveDestination, TargetView, TextInputState, TuiModel,
};
use crate::tui::transfer::{
    add_destination, added_to, alias_at, alias_named_at, id_name, read_source, remove_source, removed_from,
    rest_kept, source_alias, DestSpec,
};
use crate::tui::tree::ProjectTrustState;
use crate::tui::update::edits::{
    create_profile, edit_subcommand_at, rename_profile, renamed, replace_subcommand_at, subs_at, subs_replaced,
};
use crate::tui::update::profile_actions::edited;
use crate::tui::update::TuiRequest;

verus! {

/// The destination scope a form's target names.
pub open spec fn target_dest(t: TargetView) -> DestSpec {
    match t {
        TargetView::Global => DestSpec::Global,
        TargetView::Profile(n) => DestSpec::Profile(n),
        TargetView::Project => DestSpec::Project,
    }
}

/// The scope an alias reference lives in.
pub open spec fn id_dest(id: IdSpec) -> DestSpec {
    match id {
        IdSpec::Profile(p, _) => DestSpec::Profile(p),
        IdSpec::Project(_) => DestSpec::Project,
        _ => DestSpec::Global,
    }
}

/// Why an edit of a scope is refused, if it is: the profile does not
/// exist, or the project file is not trusted.
pub open spec fn refusal(m: TuiModel, dest: DestSpec) -> Option<Seq<char>> {
    match dest {
        DestSpec::Profile(p) => if first_named(m.stores.profiles.profiles@, p) is None {
            Some("profile '"@ + p + "' not found"@)
        } else {
            None
        },
        DestSpec::Project => if m.project_trust is Some && m.project_trust != Some(ProjectTrustState::Trusted) {
            Some("press 't' to trust this project"@)
        } else {
            None
        },
        DestSpec::Global => None,
    }
}

/// The form is left with `e` on the status line.
pub open spec fn refused(m: TuiModel, b: TuiModel, e: Seq<char>, r: TuiRequest) -> bool {
    &&& b.status_line matches Some(s) && s@ == e
    &&& b.mode is Normal
    &&& b == (TuiModel { status_line: b.status_line, mode: b.mode, ..m })
    &&& r == TuiRequest::Nothing
}

/// The form stays with `e` as its error.
pub open spec fn form_error(m: TuiModel, b: TuiModel, e: Seq<char>, r: TuiRequest) -> bool {
    &&& b.mode@ == ModeSpec::TextInput(
        match m.mode@->TextInput_0 {
            FormSpec::EditProfile { original_name, name, .. } => FormSpec::EditProfile {
                original_name,
                name,
                error: Some(e),
            },
            FormSpec::EditAlias { alias_id, name, command, active_field, cursor, .. } => FormSpec::EditAlias {
                alias_id,
                name,
                command,
                active_field,
                cursor,
                error: Some(e),
            },
            f => f,
        },
    )
    &&& b == (TuiModel { mode: b.mode, ..m })
    &&& r == TuiRequest::Nothing
}

/// An edit of the stores went through: trees rebuilt, the form left, a
/// save asked for.
pub open spec fn done(m: TuiModel, b: TuiModel, r: TuiRequest) -> bool {
    &&& edited(m, b)
    &&& b.mode is Normal
    &&& r == TuiRequest::Save
}

/// Every pair of a subcommand form has both fields filled.
pub open spec fn pairs_complete(pairs: Seq<(Seq<char>, Seq<char>)>) -> bool {
    forall|i: int| 0 <= i < pairs.len() ==> (#[trigger] pairs[i]).0.len() > 0 && pairs[i].1.len() > 0
}

/// The key a subcommand form describes: the program and the short tokens,
/// joined by `:`.
pub open spec fn form_key(program: Seq<char>, pairs: Seq<(Seq<char>, Seq<char>)>) -> Seq<char> {
    program + ":"@ + join_spec(pairs.map_values(|p: (Seq<char>, Seq<char>)| p.0), ":"@)
}

/// The subcommand alias a form describes: its long tokens.
pub open spec fn form_sub(pairs: Seq<(Seq<char>, Seq<char>)>) -> SubSpec {
    SubSpec { expansions: pairs.map_values(|p: (Seq<char>, Seq<char>)| p.1), description: None, detailed: false }
}

/// The outcome of confirming the form of `m`.
pub open spec fn form_confirmed(m: TuiModel, b: TuiModel, r: TuiRequest) -> bool {
    let stay = b == m && r == TuiRequest::Nothing;
    let v = m.stores@;
    match m.mode@->TextInput_0 {
        FormSpec::NewProfile(name) => if name.len() == 0 || first_named(m.stores.profiles.profiles@, name) is Some {
            stay
        } else {
            &&& b.stores.config == m.stores.config
            &&& b.stores.project == m.stores.project
            &&& b.stores.profiles.profiles@.drop_last() == m.stores.profiles.profiles@
            &&& b.stores.profiles.profiles@.len() == m.stores.profiles.profiles@.len() + 1
            &&& b.stores.profiles.profiles@.last().name@ == name
            &&& b.stores.profiles.profiles@.last().aliases@.len() == 0
            &&& b.stores.profiles.profiles@.last().subcommands@.len() == 0
            &&& b.stores.profiles.profiles@.last().vars@.len() == 0
            &&& b.active_profiles == m.active_profiles
            &&& done(m, b, r)
        },
        FormSpec::NewAlias { name, command, target, .. } => {
            let n = trim_spec(name);
            let c = trim_spec(command);
            if n.len() == 0 || c.len() == 0 {
                stay
            } else {
                match refusal(m, target_dest(target)) {
                    Some(e) => refused(m, b, e, r),
                    None => {
                        &&& b.stores@ == added_to(v, n, added_alias(c, false), target_dest(target))
                        &&& rest_kept(&m.stores, &b.stores)
                        &&& b.active_profiles == m.active_profiles
                        &&& done(m, b, r)
                    },
                }
            }
        },
        FormSpec::EditProfile { original_name, name, .. } => {
            let n = trim_spec(name);
            if n.len() == 0 {
                stay
            } else if n == original_name {
                b == (TuiModel { mode: Mode::Normal, ..m }) && r == TuiRequest::Nothing
            } else if first_named(m.stores.profiles.profiles@, n) is Some {
                form_error(m, b, "profile '"@ + n + "' already exists"@, r)
            } else {
                match first_named(m.stores.profiles.profiles@, original_name) {
                    None => refused(m, b, "profile '"@ + original_name + "' not found"@, r),
                    Some(i) => {
                        &&& b.stores.config == m.stores.config
                        &&& b.stores.project == m.stores.project
                        &&& b.stores.profiles.profiles@.len() == m.stores.profiles.profiles@.len()
                        &&& forall|j: int|
                            0 <= j < m.stores.profiles.profiles@.len() && j != i
                                ==> #[trigger] b.stores.profiles.profiles@[j] == m.stores.profiles.profiles@[j]
                        &&& b.stores.profiles.profiles@[i].name@ == n
                        &&& b.stores.profiles.profiles@[i].aliases == m.stores.profiles.profiles@[i].aliases
                        &&& b.stores.profiles.profiles@[i].subcommands == m.stores.profiles.profiles@[i].subcommands
                        &&& b.stores.profiles.profiles@[i].vars == m.stores.profiles.profiles@[i].vars
                        &&& b.active_view() == renamed(m.active_view(), original_name, n)
                        &&& done(m, b, r)
                    },
                }
            }
        },
        FormSpec::EditAlias { alias_id, name, command, .. } => {
            let n = trim_spec(name);
            let c = trim_spec(command);
            let old_name = id_name(alias_id);
            if n.len() == 0 || c.len() == 0 {
                stay
            } else if n == old_name && (source_alias(v, alias_id) matches Some(a) && a.command == c) {
                b == (TuiModel { mode: Mode::Normal, ..m }) && r == TuiRequest::Nothing
            } else if n != old_name && !(alias_id is Subcommand) && alias_at(v, n, id_dest(alias_id)) is Some {
                form_error(m, b, "name '"@ + n + "' already exists in this scope"@, r)
            } else if alias_id is Subcommand {
                stay
            } else {
                match refusal(m, id_dest(alias_id)) {
                    Some(e) => refused(m, b, e, r),
                    None => if source_alias(v, alias_id) is None {
                        refused(m, b, "alias '"@ + old_name + "' not found"@, r)
                    } else {
                        &&& b.stores@ == added_to(removed_from(v, alias_id), n, added_alias(c, false), id_dest(alias_id))
                        &&& rest_kept(&m.stores, &b.stores)
                        &&& b.active_profiles == m.active_profiles
                        &&& done(m, b, r)
                    },
                }
            }
        },
        FormSpec::SubcommandInput { program, pairs, target, original_key, .. } => if !pairs_complete(pairs) {
            stay
        } else {
            let d = target_dest(target);
            match refusal(m, d) {
                Some(e) => refused(m, b, e, r),
                None => {
                    let before = subs_at(m.stores, d)->Some_0;
                    &&& subs_replaced(
                        m.stores,
                        b.stores,
                        d,
                        match original_key {
                            Some(o) => before.remove(o),
                            None => before,
                        }.insert(form_key(program, pairs), form_sub(pairs)),
                    )
                    &&& b.active_profiles == m.active_profiles
                    &&& done(m, b, r)
                },
            }
        },
    }
}

/// `pre`, `x` and `post` one after the other.
fn quoted(pre: &str, x: &str, post: &str) -> (r: String)
    ensures
        r@ == pre@ + x@ + post@,
{
    let mut s = string_from(pre);
    push_str(&mut s, x);
    push_str(&mut s, post);
    s
}

/// The destination scope a form's target names.
pub(crate) fn target_destination(t: &AliasTarget) -> (r: MoveDestination)
    ensures
        r@ == target_dest(t@),
{
    match t {
        AliasTarget::Global => MoveDestination::Global,
        AliasTarget::Profile(n) => MoveDestination::Profile(n.clone()),
        AliasTarget::Project => MoveDestination::Project,
    }
}

/// The scope an alias reference lives in.
fn id_destination(id: &AliasId) -> (r: MoveDestination)
    ensures
        r@ == id_dest(id@),
{
    match id {
        AliasId::Profile { profile_name, .. } => MoveDestination::Profile(profile_name.clone()),
        AliasId::Project { .. } => MoveDestination::Project,
        _ => MoveDestination::Global,
    }
}

/// Why an edit of the scope is refused, if it is.
fn refusal_message(model: &TuiModel, dest: &MoveDestination) -> (r: Option<String>)
    ensures
        crate::alias::opt_view(r) == refusal(*model, dest@),
{
    match dest {
        MoveDestination::Profile(p) => {
            proof {
                lemma_first_named(model.stores.profiles.profiles@, p@);
            }
            if model.stores.profiles.get_profile_by_name(p.as_str()).is_none() {
                Some(quoted("profile '", p.as_str(), "' not found"))
            } else {
                None
            }
        },
        MoveDestination::Project => match model.project_trust {
            Some(ProjectTrustState::Trusted) | None => None,
            _ => Some(string_from("press 't' to trust this project")),
        },
        MoveDestination::Global => None,
    }
}

/// Leaves the form with a message on the status line.
fn refuse(model: &mut TuiModel, e: String) -> (r: TuiRequest)
    ensures
        refused(*old(model), *final(model), e@, r),
{
    model.status_line = Some(e);
    model.mode = Mode::Normal;
    TuiRequest::Nothing
}

/// Confirms a new profile form.
fn confirm_new_profile(model: &mut TuiModel, name: String) -> (r: TuiRequest)
    requires
        old(model).mode@ == ModeSpec::TextInput(FormSpec::NewProfile(name@)),
    ensures
        form_confirmed(*old(model), *final(model), r),
{
    if name.unicode_len() == 0 {
        return TuiRequest::Nothing;
    }
    proof {
        lemma_first_named(model.stores.profiles.profiles@, name@);
    }
    if model.stores.profiles.get_profile_by_name(name.as_str()).is_some() {
        return TuiRequest::Nothing;
    }
    create_profile(&mut model.stores, name);
    model.rebuild_tree();
    model.mode = Mode::Normal;
    TuiRequest::Save
}

/// Confirms a new alias form.
fn confirm_new_alias(model: &mut TuiModel, name: &str, command: &str, target: &AliasTarget) -> (r: TuiRequest)
    requires
        old(model).mode@ matches ModeSpec::TextInput(FormSpec::NewAlias { name: n, command: c, target: t, .. })
            && n == name@ && c == command@ && t == target@,
    ensures
        form_confirmed(*old(model), *final(model), r),
{
    let n = trim(name);
    let c = trim(command);
    if n.unicode_len() == 0 || c.unicode_len() == 0 {
        return TuiRequest::Nothing;
    }
    let dest = target_destination(target);
    if let Some(e) = refusal_message(model, &dest) {
        return refuse(model, e);
    }
    add_destination(&mut model.stores, n.as_str(), &make_alias(c, false), &dest);
    model.rebuild_tree();
    model.mode = Mode::Normal;
    TuiRequest::Save
}

/// Confirms a profile rename form.
fn confirm_edit_profile(model: &mut TuiModel, original_name: String, name: String) -> (r: TuiRequest)
    requires
        old(model).mode@ matches ModeSpec::TextInput(FormSpec::EditProfile { original_name: o, name: n, .. })
            && o == original_name@ && n == name@,
    ensures
        form_confirmed(*old(model), *final(model), r),
{
    let n = trim(name.as_str());
    if n.unicode_len() == 0 {
        return TuiRequest::Nothing;
    }
    if str_equal(n.as_str(), original_name.as_str()) {
        model.mode = Mode::Normal;
        return TuiRequest::Nothing;
    }
    proof {
        lemma_first_named(model.stores.profiles.profiles@, n@);
        lemma_first_named(model.stores.profiles.profiles@, original_name@);
    }
    if model.stores.profiles.get_profile_by_name(n.as_str()).is_some() {
        let e = quoted("profile '", n.as_str(), "' already exists");
        model.mode = Mode::TextInput(TextInputState::EditProfile { original_name, name, error: Some(e) });
        return TuiRequest::Nothing;
    }
    if model.stores.profiles.get_profile_by_name(original_name.as_str()).is_none() {
        let e = quoted("profile '", original_name.as_str(), "' not found");
        return refuse(model, e);
    }
    rename_profile(&mut model.stores, &mut model.active_profiles, original_name.as_str(), n);
    model.rebuild_tree();
    model.mode = Mode::Normal;
    TuiRequest::Save
}

/// Confirms an alias edit form.
fn confirm_edit_alias(
    model: &mut TuiModel,
    alias_id: AliasId,
    name: String,
    command: String,
    active_field: crate::tui::model::AliasField,
    cursor: usize,
) -> (r: TuiRequest)
    requires
        old(model).mode@ matches ModeSpec::TextInput(
            FormSpec::EditAlias { alias_id: i, name: n, command: c, active_field: f, cursor: k, .. },
        ) && i == alias_id@ && n == name@ && c == command@ && f == active_field && k == cursor,
    ensures
        form_confirmed(*old(model), *final(model), r),
{
    let n = trim(name.as_str());
    let c = trim(command.as_str());
    if n.unicode_len() == 0 || c.unicode_len() == 0 {
        return TuiRequest::Nothing;
    }
    let is_sub = match &alias_id {
        AliasId::Subcommand { .. } => true,
        _ => false,
    };
    let dest = id_destination(&alias_id);
    let same_name = str_equal(n.as_str(), alias_id.name());
    if same_name {
        let unchanged = match read_source(&model.stores, &alias_id) {
            Some(a) => str_equal(a.command(), c.as_str()),
            None => false,
        };
        if unchanged {
            model.mode = Mode::Normal;
            return TuiRequest::Nothing;
        }
    }
    if !same_name && !is_sub && alias_named_at(&model.stores, n.as_str(), &dest) {
        let e = quoted("name '", n.as_str(), "' already exists in this scope");
        model.mode = Mode::TextInput(
            TextInputState::EditAlias { alias_id, name, command, active_field, cursor, error: Some(e) },
        );
        return TuiRequest::Nothing;
    }
    if is_sub {
        return TuiRequest::Nothing;
    }
    if let Some(e) = refusal_message(model, &dest) {
        return refuse(model, e);
    }
    if read_source(&model.stores, &alias_id).is_none() {
        let e = quoted("alias '", alias_id.name(), "' not found");
        return refuse(model, e);
    }
    remove_source(&mut model.stores, &alias_id);
    add_destination(&mut model.stores, n.as_str(), &make_alias(c, false), &dest);
    model.rebuild_tree();
    model.mode = Mode::Normal;
    TuiRequest::Save
}

/// Confirms a subcommand form.
fn confirm_subcommand(
    model: &mut TuiModel,
    program: &str,
    pairs: &Vec<(String, String)>,
    target: &AliasTarget,
    original_key: &Option<String>,
) -> (r: TuiRequest)
    requires
        old(model).mode@ matches ModeSpec::TextInput(
            FormSpec::SubcommandInput { program: p, pairs: ps, target: t, original_key: o, .. },
        ) && p == program@ && ps == pairs_view(pairs@) && t == target@ && o == crate::alias::opt_view(
            *original_key,
        ),
    ensures
        form_confirmed(*old(model), *final(model), r),
{
    let ghost pv = pairs_view(pairs@);
    let mut shorts: Vec<String> = Vec::new();
    let mut longs: Vec<String> = Vec::new();
    let mut i: usize = 0;
    while i < pairs.len()
        invariant
            i <= pairs@.len(),
            pv == pairs_view(pairs@),
            *model == *old(model),
            old(model).mode@ matches ModeSpec::TextInput(FormSpec::SubcommandInput { pairs: ps, .. }) && ps == pv,
            pairs_complete(pv.take(i as int)),
            views(shorts@) == pv.take(i as int).map_values(|q: (Seq<char>, Seq<char>)| q.0),
            views(longs@) == pv.take(i as int).map_values(|q: (Seq<char>, Seq<char>)| q.1),
        decreases pairs@.len() - i,
    {
        if pairs[i].0.unicode_len() == 0 || pairs[i].1.unicode_len() == 0 {
            proof {
                assert(!pairs_complete(pv)) by {
                    assert(pv[i as int] == (pairs@[i as int].0@, pairs@[i as int].1@));
                }
            }
            return TuiRequest::Nothing;
        }
        let ghost s0 = views(shorts@);
        let ghost l0 = views(longs@);
        shorts.push(pairs[i].0.clone());
        longs.push(pairs[i].1.clone());
        proof {
            assert(pv.take(i + 1) =~= pv.take(i as int).push(pv[i as int]));
            assert(views(shorts@) =~= s0.push(pv[i as int].0));
            assert(views(longs@) =~= l0.push(pv[i as int].1));
            assert(pv.take(i + 1).map_values(|q: (Seq<char>, Seq<char>)| q.0) =~= pv.take(i as int).map_values(
                |q: (Seq<char>, Seq<char>)| q.0,
            ).push(pv[i as int].0));
            assert(pv.take(i + 1).map_values(|q: (Seq<char>, Seq<char>)| q.1) =~= pv.take(i as int).map_values(
                |q: (Seq<char>, Seq<char>)| q.1,
            ).push(pv[i as int].1));
            assert forall|j: int| 0 <= j < i + 1 implies (#[trigger] pv.take(i + 1)[j]).0.len() > 0
                && pv.take(i + 1)[j].1.len() > 0 by {
                if j < i {
                    assert(pv.take(i + 1)[j] == pv.take(i as int)[j]);
                }
            }
        }
        i = i + 1;
    }
    proof {
        assert(pv.take(pairs@.len() as int) =~= pv);
    }
    let dest = target_destination(target);
    if let Some(e) = refusal_message(model, &dest) {
        return refuse(model, e);
    }
    let mut key = string_from(program);
    push_str(&mut key, ":");
    let joined = join_strs(shorts.as_slice(), ":");
    push_str(&mut key, joined.as_str());
    proof {
        assert(crate::subcommand::TomlSubcommand::Expansion(longs)@ == form_sub(pv));
    }
    match original_key {
        Some(o) => replace_subcommand_at(&mut model.stores, &dest, o.as_str(), key, longs),
        None => edit_subcommand_at(&mut model.stores, &dest, key.as_str(), Some(longs)),
    }
    model.rebuild_tree();
    model.mode = Mode::Normal;
    TuiRequest::Save
}

/// Confirms the form: creates the profile, the alias or the subcommand
/// alias it describes, renames the profile, or updates the alias.
pub fn confirm_form(model: &mut TuiModel) -> (r: TuiRequest)
    requires
        old(model).mode is TextInput,
    ensures
        form_confirmed(*old(model), *final(model), r),
        crate::tui::update::text_input::mode_ok(old(model).mode@) ==> crate::tui::update::text_input::mode_ok(
            final(model).mode@,
        ),
{
    let form = match &model.mode {
        Mode::TextInput(f) => f,
        _ => {
            return TuiRequest::Nothing;
        },
    };
    match form {
        TextInputState::NewProfile(name) => {
            let name = name.clone();
            confirm_new_profile(model, name)
        },
        TextInputState::NewAlias { name, command, target, .. } => {
            let name = name.clone();
            let command = command.clone();
            let target = match target {
                AliasTarget::Global => AliasTarget::Global,
                AliasTarget::Profile(p) => AliasTarget::Profile(p.clone()),
                AliasTarget::Project => AliasTarget::Project,
            };
            confirm_new_alias(model, name.as_str(), command.as_str(), &target)
        },
        TextInputState::EditProfile { original_name, name, .. } => {
            let o = original_name.clone();
            let n = name.clone();
            confirm_edit_profile(model, o, n)
        },
        TextInputState::EditAlias { alias_id, name, command, active_field, cursor, .. } => {
            let id = alias_id.dup();
            let n = name.clone();
            let c = command.clone();
            let f = *active_field;
            let k = *cursor;
            confirm_edit_alias(model, id, n, c, f, k)
        },
        TextInputState::SubcommandInput { program, pairs, target, original_key, .. } => {
            let program = program.clone();
            let mut ps: Vec<(String, String)> = Vec::new();
            let mut i: usize = 0;
            while i < pairs.len()
                invariant
                    i <= pairs@.len(),
                    pairs_view(ps@) == pairs_view(pairs@).take(i as int),
                decreases pairs@.len() - i,
            {
                let ghost before = pairs_view(ps@);
                ps.push((pairs[i].0.clone(), pairs[i].1.clone()));
                proof {
                    assert(pairs_view(ps@) =~= before.push((pairs@[i as int].0@, pairs@[i as int].1@)));
                    assert(pairs_view(pairs@).take(i + 1) =~= pairs_view(pairs@).take(i as int).push(
                        pairs_view(pairs@)[i as int],
                    ));
                }
                i = i + 1;
            }
            proof {
                assert(pairs_view(pairs@).take(pairs@.len() as int) =~= pairs_view(pairs@));
            }
            let target = match target {
                AliasTarget::Global => AliasTarget::Global,
                AliasTarget::Profile(p) => AliasTarget::Profile(p.clone()),
                AliasTarget::Project => AliasTarget::Project,
            };
            let original_key = match original_key {
                Some(k) => Some(k.clone()),
                None => None,
            };
            confirm_subcommand(model, program.as_str(), &ps, &target, &original_key)
        },
    }
}

} // verus!
