//! The text forms: starting one, typing into it, moving its cursor,
//! switching its fields, and leaving it.
use vstd::prelude::*;

use crate::alias_id::{AliasId, IdSpec, SubcommandScope, TargetSpec};
use crate::text::{push_char, string_from};
use crate::tui::model::{
    pairs_view, AliasField, AliasTarget, FormSpec, Mode, ModeSpec, NodeKind, SubcommandField, TargetView,
    TextInputState, TuiMessage, TuiModel,
};
use crate::tui::text_input::{
    byte_len, char_index, char_len, cursor_left, cursor_right, insert_at, is_boundary, law_cursor_right_left_inverse,
    remove_before, utf8_len,
};
use crate::tui::tree::nodes_view;
use crate::tui::update::confirm::{confirm_form, form_confirmed};
use crate::tui::update::rows::{
    collect_pairs_to_cursor, first_word, first_word_of, pairs_to, program_row, resolve_scope_from_ancestors,
    scope_above,
};
use crate::tui::update::TuiRequest;

verus! {

/// The text of the active field of the alias form.
pub open spec fn field_text(name: Seq<char>, command: Seq<char>, f: AliasField) -> Seq<char> {
    match f {
        AliasField::Name => name,
        AliasField::Command => command,
    }
}

/// The text of a field of a subcommand pair.
pub open spec fn pair_text(pairs: Seq<(Seq<char>, Seq<char>)>, i: int, f: SubcommandField) -> Seq<char> {
    match f {
        SubcommandField::Short => pairs[i].0,
        SubcommandField::Long => pairs[i].1,
    }
}

/// `pairs` with field `f` of pair `i` set to `t`.
pub open spec fn pair_set(pairs: Seq<(Seq<char>, Seq<char>)>, i: int, f: SubcommandField, t: Seq<char>) -> Seq<
    (Seq<char>, Seq<char>),
> {
    match f {
        SubcommandField::Short => pairs.update(i, (t, pairs[i].1)),
        SubcommandField::Long => pairs.update(i, (pairs[i].0, t)),
    }
}

/// The cursor of a form sits on a character boundary of its active field.
pub open spec fn form_ok(f: FormSpec) -> bool {
    match f {
        FormSpec::NewAlias { name, command, active_field, cursor, .. } => is_boundary(
            field_text(name, command, active_field),
            cursor,
        ),
        FormSpec::EditAlias { name, command, active_field, cursor, .. } => is_boundary(
            field_text(name, command, active_field),
            cursor,
        ),
        FormSpec::SubcommandInput { pairs, active_pair, active_field, cursor, .. } => 0 <= active_pair < pairs.len()
            ==> is_boundary(pair_text(pairs, active_pair, active_field), cursor),
        _ => true,
    }
}

/// A mode whose form, if any, has its cursor on a boundary.
pub open spec fn mode_ok(m: ModeSpec) -> bool {
    m matches ModeSpec::TextInput(f) ==> form_ok(f)
}

/// Text with `c` typed at the boundary `cursor`.
pub open spec fn typed_text(t: Seq<char>, cursor: int, c: char) -> Seq<char> {
    t.insert(char_index(t, cursor), c)
}

/// Text with the character before the boundary `cursor` erased.
pub open spec fn erased_text(t: Seq<char>, cursor: int) -> Seq<char> {
    if cursor == 0 {
        t
    } else {
        t.remove(char_index(t, cursor) - 1)
    }
}

/// The cursor one character left of `cursor`.
pub open spec fn left_of(t: Seq<char>, cursor: int) -> int {
    if cursor == 0 {
        0
    } else {
        byte_len(t.take(char_index(t, cursor) - 1)) as int
    }
}

/// The cursor one character right of `cursor`.
pub open spec fn right_of(t: Seq<char>, cursor: int) -> int {
    if cursor >= byte_len(t) {
        byte_len(t) as int
    } else {
        byte_len(t.take(char_index(t, cursor) + 1)) as int
    }
}

/// The form after typing `c`: appended to a profile name, inserted at
/// the cursor of other fields (clearing an edit form's error).
pub open spec fn typed(f: FormSpec, c: char) -> FormSpec {
    match f {
        FormSpec::NewProfile(b) => FormSpec::NewProfile(b.push(c)),
        FormSpec::NewAlias { name, command, active_field, cursor, target } => {
            let t = typed_text(field_text(name, command, active_field), cursor, c);
            FormSpec::NewAlias {
                name: if active_field == AliasField::Name {
                    t
                } else {
                    name
                },
                command: if active_field == AliasField::Command {
                    t
                } else {
                    command
                },
                active_field,
                cursor: cursor + char_len(c),
                target,
            }
        },
        FormSpec::EditProfile { original_name, name, error } => FormSpec::EditProfile {
            original_name,
            name: name.push(c),
            error: None,
        },
        FormSpec::EditAlias { alias_id, name, command, active_field, cursor, error } => {
            let t = typed_text(field_text(name, command, active_field), cursor, c);
            FormSpec::EditAlias {
                alias_id,
                name: if active_field == AliasField::Name {
                    t
                } else {
                    name
                },
                command: if active_field == AliasField::Command {
                    t
                } else {
                    command
                },
                active_field,
                cursor: cursor + char_len(c),
                error: None,
            }
        },
        FormSpec::SubcommandInput { program, pairs, active_pair, active_field, cursor, target, original_key } => {
            if 0 <= active_pair < pairs.len() {
                FormSpec::SubcommandInput {
                    program,
                    pairs: pair_set(
                        pairs,
                        active_pair,
                        active_field,
                        typed_text(pair_text(pairs, active_pair, active_field), cursor, c),
                    ),
                    active_pair,
                    active_field,
                    cursor: cursor + char_len(c),
                    target,
                    original_key,
                }
            } else {
                f
            }
        },
    }
}

/// The form after a backspace: the last character of a profile name, or
/// the character before the cursor elsewhere (clearing an edit form's
/// error).
pub open spec fn erased(f: FormSpec) -> FormSpec {
    match f {
        FormSpec::NewProfile(b) => FormSpec::NewProfile(
            if b.len() > 0 {
                b.drop_last()
            } else {
                b
            },
        ),
        FormSpec::NewAlias { name, command, active_field, cursor, target } => {
            let t = field_text(name, command, active_field);
            let e = erased_text(t, cursor);
            FormSpec::NewAlias {
                name: if active_field == AliasField::Name {
                    e
                } else {
                    name
                },
                command: if active_field == AliasField::Command {
                    e
                } else {
                    command
                },
                active_field,
                cursor: left_of(t, cursor),
                target,
            }
        },
        FormSpec::EditProfile { original_name, name, error } => FormSpec::EditProfile {
            original_name,
            name: if name.len() > 0 {
                name.drop_last()
            } else {
                name
            },
            error: None,
        },
        FormSpec::EditAlias { alias_id, name, command, active_field, cursor, error } => {
            let t = field_text(name, command, active_field);
            let e = erased_text(t, cursor);
            FormSpec::EditAlias {
                alias_id,
                name: if active_field == AliasField::Name {
                    e
                } else {
                    name
                },
                command: if active_field == AliasField::Command {
                    e
                } else {
                    command
                },
                active_field,
                cursor: left_of(t, cursor),
                error: None,
            }
        },
        FormSpec::SubcommandInput { program, pairs, active_pair, active_field, cursor, target, original_key } => {
            if 0 <= active_pair < pairs.len() {
                let t = pair_text(pairs, active_pair, active_field);
                FormSpec::SubcommandInput {
                    program,
                    pairs: pair_set(pairs, active_pair, active_field, erased_text(t, cursor)),
                    active_pair,
                    active_field,
                    cursor: left_of(t, cursor),
                    target,
                    original_key,
                }
            } else {
                f
            }
        },
    }
}

/// The form after moving its cursor one character left (`left`) or right.
pub open spec fn cursor_moved(f: FormSpec, left: bool) -> FormSpec {
    match f {
        FormSpec::NewAlias { name, command, active_field, cursor, target } => {
            let t = field_text(name, command, active_field);
            FormSpec::NewAlias {
                name,
                command,
                active_field,
                cursor: if left {
                    left_of(t, cursor)
                } else {
                    right_of(t, cursor)
                },
                target,
            }
        },
        FormSpec::EditAlias { alias_id, name, command, active_field, cursor, error } => {
            let t = field_text(name, command, active_field);
            FormSpec::EditAlias {
                alias_id,
                name,
                command,
                active_field,
                cursor: if left {
                    left_of(t, cursor)
                } else {
                    right_of(t, cursor)
                },
                error,
            }
        },
        FormSpec::SubcommandInput { program, pairs, active_pair, active_field, cursor, target, original_key } => {
            if 0 <= active_pair < pairs.len() {
                let t = pair_text(pairs, active_pair, active_field);
                FormSpec::SubcommandInput {
                    program,
                    pairs,
                    active_pair,
                    active_field,
                    cursor: if left {
                        left_of(t, cursor)
                    } else {
                        right_of(t, cursor)
                    },
                    target,
                    original_key,
                }
            } else {
                f
            }
        },
        _ => f,
    }
}

/// The other field of the alias form.
pub open spec fn other_field(f: AliasField) -> AliasField {
    match f {
        AliasField::Name => AliasField::Command,
        AliasField::Command => AliasField::Name,
    }
}

/// The alias form with the other field active and the cursor at its end.
pub open spec fn alias_fields_switched(f: FormSpec) -> FormSpec {
    match f {
        FormSpec::NewAlias { name, command, active_field, cursor, target } => FormSpec::NewAlias {
            name,
            command,
            active_field: other_field(active_field),
            cursor: byte_len(field_text(name, command, other_field(active_field))) as int,
            target,
        },
        FormSpec::EditAlias { alias_id, name, command, active_field, cursor, error } => FormSpec::EditAlias {
            alias_id,
            name,
            command,
            active_field: other_field(active_field),
            cursor: byte_len(field_text(name, command, other_field(active_field))) as int,
            error,
        },
        _ => f,
    }
}

/// The byte length of a field of pair `i`, or 0 without such a pair.
pub open spec fn pair_len(pairs: Seq<(Seq<char>, Seq<char>)>, i: int, f: SubcommandField) -> int {
    if 0 <= i < pairs.len() {
        byte_len(pair_text(pairs, i, f)) as int
    } else {
        0
    }
}

/// Index of the first `c` in `s`, or `s.len()` when there is none.
pub open spec fn first_at(s: Seq<char>, c: char) -> int
    decreases s.len(),
{
    if s.len() == 0 {
        0
    } else if s[0] == c {
        0
    } else {
        1 + first_at(s.drop_first(), c)
    }
}

/// The alias form turned subcommand form: the name's text before the first
/// `:` (trimmed) becomes the program, the text after it the first short
/// token, with the cursor at its end.
pub open spec fn subcommand_form_from_name(name: Seq<char>, target: TargetView) -> FormSpec {
    let i = first_at(name, ':');
    let short = name.subrange(i + 1, name.len() as int);
    FormSpec::SubcommandInput {
        program: crate::described::trim_spec(name.subrange(0, i)),
        pairs: seq![(short, Seq::<char>::empty())],
        active_pair: 0,
        active_field: SubcommandField::Short,
        cursor: byte_len(short) as int,
        target,
        original_key: None,
    }
}

/// The form after Tab: a new alias whose name holds a `:` becomes a
/// subcommand form; the alias forms switch fields; the subcommand form
/// goes from short to long, then to the next pair, adding an empty pair
/// after a complete last one.
pub open spec fn switched_field(f: FormSpec) -> FormSpec {
    match f {
        FormSpec::NewAlias { name, active_field, target, .. } => if active_field == AliasField::Name && name.contains(
            ':',
        ) {
            subcommand_form_from_name(name, target)
        } else {
            alias_fields_switched(f)
        },
        FormSpec::EditAlias { .. } => alias_fields_switched(f),
        FormSpec::SubcommandInput { program, pairs, active_pair, active_field, cursor, target, original_key } => {
            match active_field {
                SubcommandField::Short => FormSpec::SubcommandInput {
                    program,
                    pairs,
                    active_pair,
                    active_field: SubcommandField::Long,
                    cursor: pair_len(pairs, active_pair, SubcommandField::Long),
                    target,
                    original_key,
                },
                SubcommandField::Long => if active_pair + 1 < pairs.len() {
                    FormSpec::SubcommandInput {
                        program,
                        pairs,
                        active_pair: active_pair + 1,
                        active_field: SubcommandField::Short,
                        cursor: pair_len(pairs, active_pair + 1, SubcommandField::Short),
                        target,
                        original_key,
                    }
                } else if 0 <= active_pair < pairs.len() && pairs[active_pair].0.len() > 0
                    && pairs[active_pair].1.len() > 0 {
                    FormSpec::SubcommandInput {
                        program,
                        pairs: pairs.push((Seq::empty(), Seq::empty())),
                        active_pair: pairs.len() as int,
                        active_field: SubcommandField::Short,
                        cursor: 0,
                        target,
                        original_key,
                    }
                } else {
                    f
                },
            }
        },
        _ => f,
    }
}

/// The form after Shift-Tab: the alias forms switch fields; the
/// subcommand form goes from long to short, then to the previous pair.
pub open spec fn switched_back(f: FormSpec) -> FormSpec {
    match f {
        FormSpec::NewAlias { .. } | FormSpec::EditAlias { .. } => alias_fields_switched(f),
        FormSpec::SubcommandInput { program, pairs, active_pair, active_field, cursor, target, original_key } => {
            match active_field {
                SubcommandField::Long => FormSpec::SubcommandInput {
                    program,
                    pairs,
                    active_pair,
                    active_field: SubcommandField::Short,
                    cursor: pair_len(pairs, active_pair, SubcommandField::Short),
                    target,
                    original_key,
                },
                SubcommandField::Short => if active_pair > 0 {
                    FormSpec::SubcommandInput {
                        program,
                        pairs,
                        active_pair: active_pair - 1,
                        active_field: SubcommandField::Long,
                        cursor: pair_len(pairs, active_pair - 1, SubcommandField::Long),
                        target,
                        original_key,
                    }
                } else {
                    f
                },
            }
        },
        _ => f,
    }
}

/// Escape in a subcommand form whose last pair is empty (and not the only
/// one) drops that pair and stays; any other Escape leaves the form.
pub open spec fn cancelled(f: FormSpec) -> Option<FormSpec> {
    match f {
        FormSpec::SubcommandInput { program, pairs, active_pair, active_field, cursor, target, original_key } => {
            if pairs.len() > 1 && pairs.last().0.len() == 0 && pairs.last().1.len() == 0 {
                let rest = pairs.drop_last();
                Some(
                    FormSpec::SubcommandInput {
                        program,
                        pairs: rest,
                        active_pair: rest.len() - 1,
                        active_field: SubcommandField::Long,
                        cursor: pair_len(rest, rest.len() - 1, SubcommandField::Long),
                        target,
                        original_key,
                    },
                )
            } else {
                None
            }
        },
        _ => None,
    }
}

/// The start and the end of a text are boundaries.
pub proof fn lemma_boundary_ends(s: Seq<char>)
    ensures
        is_boundary(s, 0),
        is_boundary(s, byte_len(s) as int),
{
    assert(s.take(0) =~= Seq::<char>::empty());
    assert(byte_len(s.take(0)) == 0);
    assert(s.take(s.len() as int) =~= s);
}

fn pair_field(pairs: &Vec<(String, String)>, i: usize, f: SubcommandField) -> (r: &str)
    requires
        i < pairs@.len(),
    ensures
        r@ == pair_text(pairs_view(pairs@), i as int, f),
{
    match f {
        SubcommandField::Short => pairs[i].0.as_str(),
        SubcommandField::Long => pairs[i].1.as_str(),
    }
}

fn set_pair_field(pairs: &mut Vec<(String, String)>, i: usize, f: SubcommandField, t: String)
    requires
        i < old(pairs)@.len(),
    ensures
        pairs_view(final(pairs)@) == pair_set(pairs_view(old(pairs)@), i as int, f, t@),
{
    let ghost before = pairs_view(pairs@);
    let p = match f {
        SubcommandField::Short => (t, pairs[i].1.clone()),
        SubcommandField::Long => (pairs[i].0.clone(), t),
    };
    pairs.set(i, p);
    proof {
        assert(pairs_view(pairs@) =~= pair_set(before, i as int, f, t@));
    }
}

/// The byte length of a field of pair `i`, or 0 without such a pair.
fn pair_len_exec(pairs: &Vec<(String, String)>, i: usize, f: SubcommandField) -> (r: usize)
    ensures
        r == pair_len(pairs_view(pairs@), i as int, f),
{
    if i < pairs.len() {
        utf8_len(pair_field(pairs, i, f))
    } else {
        0
    }
}

/// Types `c` into a form.
pub fn typed_form(f: TextInputState, c: char) -> (r: TextInputState)
    requires
        form_ok(f@),
    ensures
        r@ == typed(f@, c),
        form_ok(r@),
{
    match f {
        TextInputState::NewProfile(b) => {
            let mut b = b;
            push_char(&mut b, c);
            TextInputState::NewProfile(b)
        },
        TextInputState::NewAlias { name, command, active_field, cursor, target } => match active_field {
            AliasField::Name => {
                let (t, nc) = insert_at(name.as_str(), cursor, c);
                TextInputState::NewAlias { name: t, command, active_field, cursor: nc, target }
            },
            AliasField::Command => {
                let (t, nc) = insert_at(command.as_str(), cursor, c);
                TextInputState::NewAlias { name, command: t, active_field, cursor: nc, target }
            },
        },
        TextInputState::EditProfile { original_name, name, error } => {
            let mut name = name;
            push_char(&mut name, c);
            TextInputState::EditProfile { original_name, name, error: None }
        },
        TextInputState::EditAlias { alias_id, name, command, active_field, cursor, error } => match active_field {
            AliasField::Name => {
                let (t, nc) = insert_at(name.as_str(), cursor, c);
                TextInputState::EditAlias { alias_id, name: t, command, active_field, cursor: nc, error: None }
            },
            AliasField::Command => {
                let (t, nc) = insert_at(command.as_str(), cursor, c);
                TextInputState::EditAlias { alias_id, name, command: t, active_field, cursor: nc, error: None }
            },
        },
        TextInputState::SubcommandInput { program, pairs, active_pair, active_field, cursor, target, original_key } => {
            let mut pairs = pairs;
            let mut cursor = cursor;
            if active_pair < pairs.len() {
                let (t, nc) = insert_at(pair_field(&pairs, active_pair, active_field), cursor, c);
                set_pair_field(&mut pairs, active_pair, active_field, t);
                cursor = nc;
            }
            TextInputState::SubcommandInput { program, pairs, active_pair, active_field, cursor, target, original_key }
        },
    }
}

/// Erases backwards in a form.
pub fn erased_form(f: TextInputState) -> (r: TextInputState)
    requires
        form_ok(f@),
    ensures
        r@ == erased(f@),
        form_ok(r@),
{
    match f {
        TextInputState::NewProfile(b) => TextInputState::NewProfile(drop_last_char(b)),
        TextInputState::NewAlias { name, command, active_field, cursor, target } => match active_field {
            AliasField::Name => {
                let (t, nc) = remove_before(name.as_str(), cursor);
                proof {
                    lemma_left_of(name@, cursor as int);
                }
                TextInputState::NewAlias { name: t, command, active_field, cursor: nc, target }
            },
            AliasField::Command => {
                let (t, nc) = remove_before(command.as_str(), cursor);
                proof {
                    lemma_left_of(command@, cursor as int);
                }
                TextInputState::NewAlias { name, command: t, active_field, cursor: nc, target }
            },
        },
        TextInputState::EditProfile { original_name, name, error } => TextInputState::EditProfile {
            original_name,
            name: drop_last_char(name),
            error: None,
        },
        TextInputState::EditAlias { alias_id, name, command, active_field, cursor, error } => match active_field {
            AliasField::Name => {
                let (t, nc) = remove_before(name.as_str(), cursor);
                proof {
                    lemma_left_of(name@, cursor as int);
                }
                TextInputState::EditAlias { alias_id, name: t, command, active_field, cursor: nc, error: None }
            },
            AliasField::Command => {
                let (t, nc) = remove_before(command.as_str(), cursor);
                proof {
                    lemma_left_of(command@, cursor as int);
                }
                TextInputState::EditAlias { alias_id, name, command: t, active_field, cursor: nc, error: None }
            },
        },
        TextInputState::SubcommandInput { program, pairs, active_pair, active_field, cursor, target, original_key } => {
            let mut pairs = pairs;
            let mut cursor = cursor;
            if active_pair < pairs.len() {
                let ghost t0 = pair_text(pairs_view(pairs@), active_pair as int, active_field);
                let (t, nc) = remove_before(pair_field(&pairs, active_pair, active_field), cursor);
                proof {
                    lemma_left_of(t0, cursor as int);
                }
                set_pair_field(&mut pairs, active_pair, active_field, t);
                cursor = nc;
            }
            TextInputState::SubcommandInput { program, pairs, active_pair, active_field, cursor, target, original_key }
        },
    }
}

/// `left_of` is what `remove_before` leaves the cursor at.
proof fn lemma_left_of(t: Seq<char>, cursor: int)
    requires
        is_boundary(t, cursor),
    ensures
        cursor == 0 ==> left_of(t, cursor) == 0,
        cursor > 0 ==> left_of(t, cursor) == byte_len(t.take(char_index(t, cursor) - 1)),
{
}

/// The text without its last character (unchanged when empty).
fn drop_last_char(s: String) -> (r: String)
    ensures
        r@ == if s@.len() > 0 {
            s@.drop_last()
        } else {
            s@
        },
{
    let n = s.unicode_len();
    if n == 0 {
        s
    } else {
        crate::text::prefix_to(s.as_str(), n - 1)
    }
}

/// Moves a form's cursor one character left (`left`) or right.
pub fn moved_form(f: TextInputState, left: bool) -> (r: TextInputState)
    requires
        form_ok(f@),
    ensures
        r@ == cursor_moved(f@, left),
        form_ok(r@),
{
    match f {
        TextInputState::NewAlias { name, command, active_field, cursor, target } => {
            let nc = step(match active_field {
                AliasField::Name => name.as_str(),
                AliasField::Command => command.as_str(),
            }, cursor, left);
            TextInputState::NewAlias { name, command, active_field, cursor: nc, target }
        },
        TextInputState::EditAlias { alias_id, name, command, active_field, cursor, error } => {
            let nc = step(match active_field {
                AliasField::Name => name.as_str(),
                AliasField::Command => command.as_str(),
            }, cursor, left);
            TextInputState::EditAlias { alias_id, name, command, active_field, cursor: nc, error }
        },
        TextInputState::SubcommandInput { program, pairs, active_pair, active_field, cursor, target, original_key } => {
            let mut cursor = cursor;
            if active_pair < pairs.len() {
                cursor = step(pair_field(&pairs, active_pair, active_field), cursor, left);
            }
            TextInputState::SubcommandInput { program, pairs, active_pair, active_field, cursor, target, original_key }
        },
        other => other,
    }
}

/// One character left or right of the boundary `cursor`.
fn step(s: &str, cursor: usize, left: bool) -> (r: usize)
    requires
        is_boundary(s@, cursor as int),
    ensures
        r == if left {
            left_of(s@, cursor as int)
        } else {
            right_of(s@, cursor as int)
        },
        is_boundary(s@, r as int),
{
    proof {
        law_cursor_right_left_inverse(s@, cursor as int);
        lemma_boundary_ends(s@);
    }
    if left {
        cursor_left(s, cursor)
    } else {
        let _ = utf8_len(s);
        cursor_right(s, cursor)
    }
}

/// The index of the first `c` in `s` (its length when there is none).
fn first_index(s: &str, c: char) -> (r: usize)
    ensures
        r == first_at(s@, c),
        r <= s@.len(),
        s@.contains(c) ==> r < s@.len() && s@[r as int] == c,
{
    let n = s.unicode_len();
    let mut i: usize = 0;
    assert(s@.subrange(0, n as int) =~= s@);
    while i < n
        invariant
            n == s@.len(),
            i <= n,
            forall|j: int| 0 <= j < i ==> s@[j] != c,
            first_at(s@, c) == i + first_at(s@.subrange(i as int, n as int), c),
        decreases n - i,
    {
        if s.get_char(i) == c {
            return i;
        }
        proof {
            assert(s@.subrange(i as int, n as int).drop_first() =~= s@.subrange(i + 1, n as int));
        }
        i = i + 1;
    }
    proof {
        if s@.contains(c) {
            let k = choose|k: int| 0 <= k < s@.len() && s@[k] == c;
            assert(s@[k] != c);
        }
    }
    i
}

proof fn lemma_first_at_zero(s: Seq<char>, c: char)
    ensures
        s.len() == 0 ==> first_at(s, c) == 0,
{
}

/// The alias form with the other field active.
fn alias_form_switched(f: TextInputState) -> (r: TextInputState)
    requires
        f is NewAlias || f is EditAlias,
    ensures
        r@ == alias_fields_switched(f@),
        form_ok(r@),
{
    match f {
        TextInputState::NewAlias { name, command, active_field, cursor, target } => {
            let af = match active_field {
                AliasField::Name => AliasField::Command,
                AliasField::Command => AliasField::Name,
            };
            let nc = match af {
                AliasField::Name => utf8_len(name.as_str()),
                AliasField::Command => utf8_len(command.as_str()),
            };
            proof {
                lemma_boundary_ends(field_text(name@, command@, af));
            }
            TextInputState::NewAlias { name, command, active_field: af, cursor: nc, target }
        },
        TextInputState::EditAlias { alias_id, name, command, active_field, cursor, error } => {
            let af = match active_field {
                AliasField::Name => AliasField::Command,
                AliasField::Command => AliasField::Name,
            };
            let nc = match af {
                AliasField::Name => utf8_len(name.as_str()),
                AliasField::Command => utf8_len(command.as_str()),
            };
            proof {
                lemma_boundary_ends(field_text(name@, command@, af));
            }
            TextInputState::EditAlias { alias_id, name, command, active_field: af, cursor: nc, error }
        },
        other => other,
    }
}

/// The form after Tab.
pub fn switched_form(f: TextInputState) -> (r: TextInputState)
    requires
        form_ok(f@),
    ensures
        r@ == switched_field(f@),
        form_ok(r@),
{
    match f {
        TextInputState::NewAlias { name, command, active_field, cursor, target } => {
            let colon = match active_field {
                AliasField::Name => crate::text::contains_char(name.as_str(), ':'),
                AliasField::Command => false,
            };
            if colon {
                let i = first_index(name.as_str(), ':');
                let _len = name.unicode_len();
                let program = crate::described::trim(crate::text::prefix_to(name.as_str(), i).as_str());
                let short = crate::text::suffix_from(name.as_str(), i + 1);
                let nc = utf8_len(short.as_str());
                proof {
                    lemma_boundary_ends(short@);
                }
                let pairs = vec![(short, String::new())];
                proof {
                    assert(pairs_view(pairs@) =~= seq![(pairs@[0].0@, Seq::<char>::empty())]);
                }
                TextInputState::SubcommandInput {
                    program,
                    pairs,
                    active_pair: 0,
                    active_field: SubcommandField::Short,
                    cursor: nc,
                    target,
                    original_key: None,
                }
            } else {
                alias_form_switched(TextInputState::NewAlias { name, command, active_field, cursor, target })
            }
        },
        TextInputState::EditAlias { .. } => alias_form_switched(f),
        TextInputState::SubcommandInput { program, pairs, active_pair, active_field, cursor, target, original_key } => {
            let mut pairs = pairs;
            let mut active_pair = active_pair;
            let mut active_field = active_field;
            let mut cursor = cursor;
            let ghost pv = pairs_view(pairs@);
            match active_field {
                SubcommandField::Short => {
                    active_field = SubcommandField::Long;
                    cursor = pair_len_exec(&pairs, active_pair, SubcommandField::Long);
                    proof {
                        if active_pair < pv.len() {
                            lemma_boundary_ends(pv[active_pair as int].1);
                        }
                    }
                },
                SubcommandField::Long => {
                    if active_pair < pairs.len() && active_pair + 1 < pairs.len() {
                        active_pair = active_pair + 1;
                        active_field = SubcommandField::Short;
                        cursor = pair_len_exec(&pairs, active_pair, SubcommandField::Short);
                        proof {
                            lemma_boundary_ends(pv[active_pair as int].0);
                        }
                    } else if active_pair < pairs.len() && pairs[active_pair].0.unicode_len() > 0
                        && pairs[active_pair].1.unicode_len() > 0 {
                        pairs.push((String::new(), String::new()));
                        proof {
                            assert(pairs_view(pairs@) =~= pv.push((Seq::<char>::empty(), Seq::<char>::empty())));
                            lemma_boundary_ends(Seq::<char>::empty());
                        }
                        active_pair = pairs.len() - 1;
                        active_field = SubcommandField::Short;
                        cursor = 0;
                    }
                },
            }
            TextInputState::SubcommandInput { program, pairs, active_pair, active_field, cursor, target, original_key }
        },
        other => other,
    }
}

/// The form after Shift-Tab.
pub fn switched_back_form(f: TextInputState) -> (r: TextInputState)
    requires
        form_ok(f@),
    ensures
        r@ == switched_back(f@),
        form_ok(r@),
{
    match f {
        TextInputState::NewAlias { .. } | TextInputState::EditAlias { .. } => alias_form_switched(f),
        TextInputState::SubcommandInput { program, pairs, active_pair, active_field, cursor, target, original_key } => {
            let mut active_pair = active_pair;
            let mut active_field = active_field;
            let mut cursor = cursor;
            let ghost pv = pairs_view(pairs@);
            match active_field {
                SubcommandField::Long => {
                    active_field = SubcommandField::Short;
                    cursor = pair_len_exec(&pairs, active_pair, SubcommandField::Short);
                    proof {
                        if active_pair < pv.len() {
                            lemma_boundary_ends(pv[active_pair as int].0);
                        }
                    }
                },
                SubcommandField::Short => {
                    if active_pair > 0 {
                        active_pair = active_pair - 1;
                        active_field = SubcommandField::Long;
                        cursor = pair_len_exec(&pairs, active_pair, SubcommandField::Long);
                        proof {
                            if active_pair < pv.len() {
                                lemma_boundary_ends(pv[active_pair as int].1);
                            }
                        }
                    }
                },
            }
            TextInputState::SubcommandInput { program, pairs, active_pair, active_field, cursor, target, original_key }
        },
        other => other,
    }
}

/// Escape in a form: a subcommand form drops an empty last pair and
/// stays (`Some`); otherwise the form is left (`None`).
pub fn cancelled_form(f: TextInputState) -> (r: Option<TextInputState>)
    requires
        form_ok(f@),
    ensures
        match cancelled(f@) {
            Some(g) => r matches Some(s) && s@ == g && form_ok(g),
            None => r is None,
        },
{
    match f {
        TextInputState::SubcommandInput { program, pairs, active_pair, active_field, cursor, target, original_key } => {
            let n = pairs.len();
            if n > 1 && pairs[n - 1].0.unicode_len() == 0 && pairs[n - 1].1.unicode_len() == 0 {
                let mut pairs = pairs;
                let ghost pv = pairs_view(pairs@);
                pairs.pop();
                proof {
                    assert(pairs_view(pairs@) =~= pv.drop_last());
                    lemma_boundary_ends(pv.drop_last()[n - 2].1);
                }
                let ap = pairs.len() - 1;
                let nc = pair_len_exec(&pairs, ap, SubcommandField::Long);
                Some(
                    TextInputState::SubcommandInput {
                        program,
                        pairs,
                        active_pair: ap,
                        active_field: SubcommandField::Long,
                        cursor: nc,
                        target,
                        original_key,
                    },
                )
            } else {
                None
            }
        },
        _ => None,
    }
}

/// The target a subcommand scope stands for.
pub open spec fn scope_target(t: TargetSpec) -> TargetView {
    match t {
        TargetSpec::Global => TargetView::Global,
        TargetSpec::Profile(n) => TargetView::Profile(n),
        TargetSpec::Local => TargetView::Project,
    }
}

/// A subcommand form for the pairs down to the cursor row, the last pair
/// active.
pub open spec fn pairs_form(
    program: Seq<char>,
    pairs: Seq<(Seq<char>, Seq<char>)>,
    target: TargetView,
    original_key: Option<Seq<char>>,
) -> FormSpec {
    let ap = if pairs.len() > 0 {
        pairs.len() - 1
    } else {
        0
    };
    FormSpec::SubcommandInput {
        program,
        pairs,
        active_pair: ap,
        active_field: SubcommandField::Short,
        cursor: pair_len(pairs, ap, SubcommandField::Short),
        target,
        original_key,
    }
}

/// The form adding starts at the cursor: a subcommand form on subcommand
/// rows, else an empty alias form for the row's scope.
pub open spec fn add_form(m: TuiModel) -> Option<FormSpec> {
    let t = nodes_view(m.tree@);
    let c = m.cursor as int;
    if c >= t.len() {
        None
    } else {
        let n = t[c];
        let new_alias = |tv: TargetView|
            FormSpec::NewAlias {
                name: Seq::empty(),
                command: Seq::empty(),
                active_field: AliasField::Name,
                cursor: 0,
                target: tv,
            };
        match n.kind {
            NodeKind::SubcommandProgramHeader => Some(
                FormSpec::SubcommandInput {
                    program: first_word(n.label),
                    pairs: seq![(Seq::<char>::empty(), Seq::<char>::empty())],
                    active_pair: 0,
                    active_field: SubcommandField::Short,
                    cursor: 0,
                    target: scope_above(t, c),
                    original_key: None,
                },
            ),
            NodeKind::SubcommandGroupNode | NodeKind::SubcommandItem => Some(
                pairs_form(
                    match program_row(t, c) {
                        Some(h) => first_word(t[h].label),
                        None => Seq::empty(),
                    },
                    pairs_to(t, c),
                    scope_above(t, c),
                    None,
                ),
            ),
            NodeKind::GlobalHeader => Some(new_alias(TargetView::Global)),
            NodeKind::ProjectHeader => Some(new_alias(TargetView::Project)),
            NodeKind::ProfileHeader => Some(new_alias(TargetView::Profile(n.label))),
            NodeKind::AliasItem => match n.alias_id {
                Some(IdSpec::Global(_)) => Some(new_alias(TargetView::Global)),
                Some(IdSpec::Profile(p, _)) => Some(new_alias(TargetView::Profile(p))),
                Some(IdSpec::Project(_)) => Some(new_alias(TargetView::Project)),
                _ => None,
            },
        }
    }
}

/// The form editing starts at the cursor: the profile's name, the alias's
/// name and command, or the subcommand alias's pairs.
pub open spec fn edit_form(m: TuiModel) -> Option<FormSpec> {
    let t = nodes_view(m.tree@);
    let c = m.cursor as int;
    if c >= t.len() {
        None
    } else {
        let n = t[c];
        match n.kind {
            NodeKind::ProfileHeader => Some(FormSpec::EditProfile { original_name: n.label, name: n.label, error: None }),
            NodeKind::AliasItem => match (n.alias_id, n.alias_command) {
                (Some(id), Some(cmd)) => Some(
                    FormSpec::EditAlias {
                        alias_id: id,
                        name: n.label,
                        command: cmd,
                        active_field: AliasField::Name,
                        cursor: byte_len(n.label) as int,
                        error: None,
                    },
                ),
                _ => None,
            },
            NodeKind::SubcommandItem => match n.alias_id {
                Some(IdSpec::Subcommand(scope, key)) => Some(
                    pairs_form(key.take(first_at(key, ':')), pairs_to(t, c), scope_target(scope), Some(key)),
                ),
                _ => None,
            },
            NodeKind::SubcommandGroupNode | NodeKind::SubcommandProgramHeader => add_form(m),
            _ => None,
        }
    }
}

proof fn lemma_pairs_form_ok(
    program: Seq<char>,
    pairs: Seq<(Seq<char>, Seq<char>)>,
    target: TargetView,
    original_key: Option<Seq<char>>,
)
    ensures
        form_ok(pairs_form(program, pairs, target, original_key)),
{
    if pairs.len() > 0 {
        lemma_boundary_ends(pairs[pairs.len() - 1].0);
    }
}

fn pairs_form_exec(
    program: String,
    pairs: Vec<(String, String)>,
    target: AliasTarget,
    original_key: Option<String>,
) -> (r: TextInputState)
    ensures
        r@ == pairs_form(program@, pairs_view(pairs@), target@, crate::alias::opt_view(original_key)),
        form_ok(r@),
{
    proof {
        lemma_pairs_form_ok(program@, pairs_view(pairs@), target@, crate::alias::opt_view(original_key));
    }
    let ap = if pairs.len() > 0 {
        pairs.len() - 1
    } else {
        0
    };
    let cursor = pair_len_exec(&pairs, ap, SubcommandField::Short);
    TextInputState::SubcommandInput {
        program,
        pairs,
        active_pair: ap,
        active_field: SubcommandField::Short,
        cursor,
        target,
        original_key,
    }
}

fn empty_alias_form(target: AliasTarget) -> (r: TextInputState)
    ensures
        r@ == (FormSpec::NewAlias {
            name: Seq::empty(),
            command: Seq::empty(),
            active_field: AliasField::Name,
            cursor: 0,
            target: target@,
        }),
        form_ok(r@),
{
    proof {
        lemma_boundary_ends(Seq::<char>::empty());
    }
    TextInputState::NewAlias {
        name: String::new(),
        command: String::new(),
        active_field: AliasField::Name,
        cursor: 0,
        target,
    }
}

/// The form adding starts at the cursor.
fn start_add_form(model: &TuiModel) -> (r: Option<TextInputState>)
    ensures
        match add_form(*model) {
            Some(f) => r matches Some(s) && s@ == f && form_ok(f),
            None => r is None,
        },
{
    if model.cursor >= model.tree.len() {
        return None;
    }
    let ghost t = nodes_view(model.tree@);
    let c = model.cursor;
    let node = &model.tree[c];
    assert(t[c as int] == node@);
    match node.kind {
        NodeKind::SubcommandProgramHeader => {
            let program = first_word_of(node.label.as_str());
            let target = match resolve_scope_from_ancestors(model) {
                Some(t) => t,
                None => AliasTarget::Global,
            };
            let pairs = vec![(String::new(), String::new())];
            proof {
                assert(pairs_view(pairs@) =~= seq![(Seq::<char>::empty(), Seq::<char>::empty())]);
                lemma_boundary_ends(Seq::<char>::empty());
            }
            Some(
                TextInputState::SubcommandInput {
                    program,
                    pairs,
                    active_pair: 0,
                    active_field: SubcommandField::Short,
                    cursor: 0,
                    target,
                    original_key: None,
                },
            )
        },
        NodeKind::SubcommandGroupNode | NodeKind::SubcommandItem => {
            let target = match resolve_scope_from_ancestors(model) {
                Some(t) => t,
                None => AliasTarget::Global,
            };
            let program = find_parent_program(model);
            let pairs = collect_pairs_to_cursor(model);
            Some(pairs_form_exec(program, pairs, target, None))
        },
        NodeKind::GlobalHeader => Some(empty_alias_form(AliasTarget::Global)),
        NodeKind::ProjectHeader => Some(empty_alias_form(AliasTarget::Project)),
        NodeKind::ProfileHeader => Some(empty_alias_form(AliasTarget::Profile(node.label.clone()))),
        NodeKind::AliasItem => match &node.alias_id {
            Some(AliasId::Global { .. }) => Some(empty_alias_form(AliasTarget::Global)),
            Some(AliasId::Profile { profile_name, .. }) => Some(
                empty_alias_form(AliasTarget::Profile(profile_name.clone())),
            ),
            Some(AliasId::Project { .. }) => Some(empty_alias_form(AliasTarget::Project)),
            _ => None,
        },
    }
}

/// The program of the nearest subcommand program header above the cursor
/// (empty when there is none).
fn find_parent_program(model: &TuiModel) -> (r: String)
    requires
        model.cursor < model.tree@.len(),
    ensures
        r@ == match program_row(nodes_view(model.tree@), model.cursor as int) {
            Some(h) => first_word(nodes_view(model.tree@)[h].label),
            None => Seq::empty(),
        },
{
    let ghost t = nodes_view(model.tree@);
    let _len = model.tree.len();
    let mut i: usize = model.cursor + 1;
    while i > 0
        invariant
            i <= model.cursor + 1,
            model.cursor < model.tree@.len(),
            t == nodes_view(model.tree@),
            program_row(t, model.cursor as int) == program_row(t, i - 1),
        decreases i,
    {
        assert(t[i - 1] == model.tree@[i - 1]@);
        if model.tree[i - 1].kind == NodeKind::SubcommandProgramHeader {
            return first_word_of(model.tree[i - 1].label.as_str());
        }
        i = i - 1;
    }
    String::new()
}

/// The form editing starts at the cursor.
fn start_edit_form(model: &TuiModel) -> (r: Option<TextInputState>)
    ensures
        match edit_form(*model) {
            Some(f) => r matches Some(s) && s@ == f && form_ok(f),
            None => r is None,
        },
{
    if model.cursor >= model.tree.len() {
        return None;
    }
    let ghost t = nodes_view(model.tree@);
    let c = model.cursor;
    let node = &model.tree[c];
    assert(t[c as int] == node@);
    match node.kind {
        NodeKind::ProfileHeader => Some(
            TextInputState::EditProfile {
                original_name: node.label.clone(),
                name: node.label.clone(),
                error: None,
            },
        ),
        NodeKind::AliasItem => match (&node.alias_id, &node.alias_command) {
            (Some(id), Some(cmd)) => {
                let cursor = utf8_len(node.label.as_str());
                proof {
                    lemma_boundary_ends(node.label@);
                }
                Some(
                    TextInputState::EditAlias {
                        alias_id: id.dup(),
                        cursor,
                        name: node.label.clone(),
                        command: cmd.clone(),
                        active_field: AliasField::Name,
                        error: None,
                    },
                )
            },
            _ => None,
        },
        NodeKind::SubcommandItem => match &node.alias_id {
            Some(AliasId::Subcommand { scope, key }) => {
                let target = match scope {
                    SubcommandScope::Global => AliasTarget::Global,
                    SubcommandScope::Profile(n) => AliasTarget::Profile(n.clone()),
                    SubcommandScope::Project => AliasTarget::Project,
                };
                let pairs = collect_pairs_to_cursor(model);
                let i = first_index(key.as_str(), ':');
                let program = crate::text::prefix_to(key.as_str(), i);
                proof {
                    assert(key@.subrange(0, i as int) =~= key@.take(i as int));
                }
                Some(pairs_form_exec(program, pairs, target, Some(key.clone())))
            },
            _ => None,
        },
        NodeKind::SubcommandGroupNode | NodeKind::SubcommandProgramHeader => start_add_form(model),
        _ => None,
    }
}

/// `m` with the mode `mode`.
pub open spec fn in_mode(m: TuiModel, b: TuiModel, mode: ModeSpec) -> bool {
    b.mode@ == mode && b == (TuiModel { mode: b.mode, ..m })
}

/// The form of `m` changed by `g`; other modes stay.
pub open spec fn form_changed(m: TuiModel, b: TuiModel, g: spec_fn(FormSpec) -> FormSpec) -> bool {
    match m.mode@ {
        ModeSpec::TextInput(f) => in_mode(m, b, ModeSpec::TextInput(g(f))),
        _ => b == m,
    }
}

/// The outcome of a text message on `m`.
pub open spec fn text_handled(m: TuiModel, b: TuiModel, msg: TuiMessage, r: TuiRequest) -> bool {
    match msg {
        TuiMessage::StartCreateProfile => r == TuiRequest::Nothing && if m.mode is Normal {
            in_mode(m, b, ModeSpec::TextInput(FormSpec::NewProfile(Seq::empty())))
        } else {
            b == m
        },
        TuiMessage::StartAddAlias => r == TuiRequest::Nothing && if m.mode is Normal && add_form(m) is Some {
            in_mode(m, b, ModeSpec::TextInput(add_form(m)->Some_0))
        } else {
            b == m
        },
        TuiMessage::EditItem => r == TuiRequest::Nothing && if m.mode is Normal && edit_form(m) is Some {
            in_mode(m, b, ModeSpec::TextInput(edit_form(m)->Some_0))
        } else {
            b == m
        },
        TuiMessage::TextInputChar(c) => r == TuiRequest::Nothing && form_changed(m, b, |f: FormSpec| typed(f, c)),
        TuiMessage::TextInputBackspace => r == TuiRequest::Nothing && form_changed(m, b, |f: FormSpec| erased(f)),
        TuiMessage::TextInputSwitchField => r == TuiRequest::Nothing && form_changed(
            m,
            b,
            |f: FormSpec| switched_field(f),
        ),
        TuiMessage::TextInputSwitchFieldBack => r == TuiRequest::Nothing && form_changed(
            m,
            b,
            |f: FormSpec| switched_back(f),
        ),
        TuiMessage::TextInputCursorLeft => r == TuiRequest::Nothing && form_changed(
            m,
            b,
            |f: FormSpec| cursor_moved(f, true),
        ),
        TuiMessage::TextInputCursorRight => r == TuiRequest::Nothing && form_changed(
            m,
            b,
            |f: FormSpec| cursor_moved(f, false),
        ),
        TuiMessage::TextInputCancel => r == TuiRequest::Nothing && match m.mode@ {
            ModeSpec::TextInput(f) => match cancelled(f) {
                Some(g) => in_mode(m, b, ModeSpec::TextInput(g)),
                None => in_mode(m, b, ModeSpec::Normal),
            },
            _ => in_mode(m, b, ModeSpec::Normal),
        },
        TuiMessage::TextInputConfirm => if m.mode is TextInput {
            form_confirmed(m, b, r)
        } else {
            b == m && r == TuiRequest::Nothing
        },
        _ => b == m && r == TuiRequest::Nothing,
    }
}

/// Handles the messages of the text forms: starting a form, typing,
/// erasing, moving the cursor, switching fields, cancelling and
/// confirming.
pub fn handle(model: &mut TuiModel, msg: TuiMessage) -> (r: TuiRequest)
    requires
        mode_ok(old(model).mode@),
    ensures
        mode_ok(final(model).mode@),
        text_handled(*old(model), *final(model), msg, r),
{
    match msg {
        TuiMessage::StartCreateProfile => {
            if matches!(model.mode, Mode::Normal) {
                model.mode = Mode::TextInput(TextInputState::NewProfile(String::new()));
            }
            TuiRequest::Nothing
        },
        TuiMessage::StartAddAlias | TuiMessage::EditItem => {
            if !matches!(model.mode, Mode::Normal) {
                return TuiRequest::Nothing;
            }
            let form = match msg {
                TuiMessage::StartAddAlias => start_add_form(model),
                _ => start_edit_form(model),
            };
            if let Some(f) = form {
                model.mode = Mode::TextInput(f);
            }
            TuiRequest::Nothing
        },
        TuiMessage::TextInputConfirm => {
            if matches!(model.mode, Mode::TextInput(_)) {
                confirm_form(model)
            } else {
                TuiRequest::Nothing
            }
        },
        TuiMessage::TextInputCancel => {
            let mut mode = Mode::Normal;
            std::mem::swap(&mut mode, &mut model.mode);
            if let Mode::TextInput(f) = mode {
                if let Some(g) = cancelled_form(f) {
                    model.mode = Mode::TextInput(g);
                }
            }
            TuiRequest::Nothing
        },
        TuiMessage::TextInputChar(_) | TuiMessage::TextInputBackspace | TuiMessage::TextInputSwitchField
        | TuiMessage::TextInputSwitchFieldBack | TuiMessage::TextInputCursorLeft
        | TuiMessage::TextInputCursorRight => {
            let mut mode = Mode::Normal;
            std::mem::swap(&mut mode, &mut model.mode);
            model.mode = match mode {
                Mode::TextInput(f) => Mode::TextInput(
                    match msg {
                        TuiMessage::TextInputChar(c) => typed_form(f, c),
                        TuiMessage::TextInputBackspace => erased_form(f),
                        TuiMessage::TextInputSwitchField => switched_form(f),
                        TuiMessage::TextInputSwitchFieldBack => switched_back_form(f),
                        TuiMessage::TextInputCursorLeft => moved_form(f, true),
                        _ => moved_form(f, false),
                    },
                ),
                other => other,
            };
            TuiRequest::Nothing
        },
        _ => TuiRequest::Nothing,
    }
}

/// Typing at a boundary and erasing right after gives back the text and
/// the cursor.
proof fn lemma_type_erase_text(t: Seq<char>, cursor: int, c: char)
    requires
        is_boundary(t, cursor),
    ensures
        ({
            let t2 = typed_text(t, cursor, c);
            let c2 = cursor + char_len(c);
            &&& is_boundary(t2, c2)
            &&& c2 > 0
            &&& erased_text(t2, c2) == t
            &&& left_of(t2, c2) == cursor
        }),
{
    let k = char_index(t, cursor);
    let t2 = t.insert(k, c);
    let c2 = cursor + char_len(c);
    assert(t2.take(k + 1) =~= t.take(k).push(c));
    assert(t2.take(k + 1).drop_last() =~= t.take(k));
    assert(byte_len(t2.take(k + 1)) == c2);
    assert(is_boundary(t2, c2));
    crate::tui::text_input::lemma_index_unique(t2, char_index(t2, c2), k + 1);
    assert(t2.remove(k) =~= t);
    assert(t2.take(k) =~= t.take(k));
}

/// Typing a character into a form and erasing it right after gives the
/// form back (an edit form's error, which typing clears, must be clear).
pub proof fn law_type_then_erase(f: FormSpec, c: char)
    requires
        form_ok(f),
        f matches FormSpec::EditProfile { error, .. } ==> error is None,
        f matches FormSpec::EditAlias { error, .. } ==> error is None,
    ensures
        erased(typed(f, c)) == f,
{
    match f {
        FormSpec::NewProfile(b) => {
            assert(b.push(c).drop_last() =~= b);
        },
        FormSpec::NewAlias { name, command, active_field, cursor, target } => {
            lemma_type_erase_text(field_text(name, command, active_field), cursor, c);
        },
        FormSpec::EditProfile { original_name, name, error } => {
            assert(name.push(c).drop_last() =~= name);
        },
        FormSpec::EditAlias { alias_id, name, command, active_field, cursor, error } => {
            lemma_type_erase_text(field_text(name, command, active_field), cursor, c);
        },
        FormSpec::SubcommandInput { program, pairs, active_pair, active_field, cursor, target, original_key } => {
            if 0 <= active_pair < pairs.len() {
                let t = pair_text(pairs, active_pair, active_field);
                lemma_type_erase_text(t, cursor, c);
                let p2 = pair_set(pairs, active_pair, active_field, typed_text(t, cursor, c));
                assert(pair_text(p2, active_pair, active_field) == typed_text(t, cursor, c));
                assert(pair_set(p2, active_pair, active_field, t) =~= pairs);
            }
        },
    }
}

} // verus!
