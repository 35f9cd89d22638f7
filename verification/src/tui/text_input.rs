//! Cursor movement in the text forms. Cursors are byte offsets into the
//! UTF-8 text, always on a character boundary.
use vstd::prelude::*;

use crate::tui::model::SubcommandField;

verus! {

/// The UTF-8 length of a character.
pub open spec fn char_len(c: char) -> nat {
    if (c as u32) < 0x80 {
        1
    } else if (c as u32) < 0x800 {
        2
    } else if (c as u32) < 0x10000 {
        3
    } else {
        4
    }
}

/// The UTF-8 length of a text.
pub open spec fn byte_len(s: Seq<char>) -> nat
    decreases s.len(),
{
    if s.len() == 0 {
        0
    } else {
        byte_len(s.drop_last()) + char_len(s.last())
    }
}

/// Is `b` the byte offset of a character boundary of `s`?
pub open spec fn is_boundary(s: Seq<char>, b: int) -> bool {
    exists|k: int| 0 <= k <= s.len() && byte_len(s.take(k)) == b
}

proof fn lemma_byte_len_mono(s: Seq<char>, i: int, j: int)
    requires
        0 <= i < j <= s.len(),
    ensures
        byte_len(s.take(i)) < byte_len(s.take(j)),
    decreases j - i,
{
    assert(s.take(j).drop_last() =~= s.take(j - 1));
    if i < j - 1 {
        lemma_byte_len_mono(s, i, j - 1);
    }
}

fn char_len_exec(c: char) -> (r: usize)
    ensures
        r == char_len(c),
{
    let u = c as u32;
    if u < 0x80 {
        1
    } else if u < 0x800 {
        2
    } else if u < 0x10000 {
        3
    } else {
        4
    }
}

/// The character index of the boundary at byte offset `b`.
pub open spec fn char_index(s: Seq<char>, b: int) -> int {
    choose|k: int| 0 <= k <= s.len() && byte_len(s.take(k)) == b
}

proof fn lemma_boundary_at(s: Seq<char>, i: int, b: int)
    requires
        0 <= i <= s.len(),
        is_boundary(s, b),
        byte_len(s.take(i)) >= b,
        forall|j: int| 0 <= j < i ==> byte_len(#[trigger] s.take(j)) < b,
    ensures
        char_index(s, b) == i,
        byte_len(s.take(i)) == b,
{
    let k = char_index(s, b);
    if k < i {
        assert(byte_len(s.take(k)) < b);
    } else if k > i {
        lemma_byte_len_mono(s, i, k);
    }
}

/// The UTF-8 length of a text, by counting.
fn text_byte_len(s: &str) -> (r: usize)
    requires
        byte_len(s@) <= usize::MAX,
    ensures
        r == byte_len(s@),
{
    let n = s.unicode_len();
    let mut pos: usize = 0;
    let mut i: usize = 0;
    proof {
        assert(s@.take(0) =~= Seq::<char>::empty());
    }
    while i < n
        invariant
            n == s@.len(),
            i <= n,
            pos == byte_len(s@.take(i as int)),
            byte_len(s@) <= usize::MAX,
        decreases n - i,
    {
        proof {
            assert(s@.take(i + 1).drop_last() =~= s@.take(i as int));
            assert(s@.take(n as int) =~= s@);
            if i + 1 < n {
                lemma_byte_len_mono(s@, i + 1, n as int);
            }
        }
        pos = pos + char_len_exec(s.get_char(i));
        i = i + 1;
    }
    proof {
        assert(s@.take(n as int) =~= s@);
    }
    pos
}

/// One character left: the boundary before `cursor`, or 0 at the start.
pub fn cursor_left(s: &str, cursor: usize) -> (r: usize)
    requires
        is_boundary(s@, cursor as int),
    ensures
        r == if cursor == 0 {
            0
        } else {
            byte_len(s@.take(char_index(s@, cursor as int) - 1)) as int
        },
{
    if cursor == 0 {
        return 0;
    }
    let n = s.unicode_len();
    let mut prev: usize = 0;
    let mut pos: usize = 0;
    let mut i: usize = 0;
    proof {
        assert(s@.take(0) =~= Seq::<char>::empty());
    }
    while i < n && pos < cursor
        invariant
            n == s@.len(),
            i <= n,
            0 < cursor,
            is_boundary(s@, cursor as int),
            pos == byte_len(s@.take(i as int)),
            i > 0 ==> prev == byte_len(s@.take(i - 1)),
            forall|j: int| 0 <= j < i ==> byte_len(#[trigger] s@.take(j)) < cursor,
        decreases n - i,
    {
        proof {
            assert(s@.take(i + 1).drop_last() =~= s@.take(i as int));
            let k = char_index(s@, cursor as int);
            if k <= i {
                if k < i {
                    assert(byte_len(s@.take(k)) < cursor);
                }
            } else if i + 1 < k {
                lemma_byte_len_mono(s@, i + 1, k);
            }
        }
        prev = pos;
        pos = pos + char_len_exec(s.get_char(i));
        i = i + 1;
    }
    proof {
        assert(s@.take(n as int) =~= s@);
        let k = char_index(s@, cursor as int);
        if pos < cursor {
            assert(i == n);
            if k < n {
                lemma_byte_len_mono(s@, k, n as int);
            }
        }
        lemma_boundary_at(s@, i as int, cursor as int);
    }
    prev
}

/// One character right: the boundary after `cursor`, or the end.
pub fn cursor_right(s: &str, cursor: usize) -> (r: usize)
    requires
        byte_len(s@) <= usize::MAX,
        is_boundary(s@, cursor as int) || cursor >= byte_len(s@),
    ensures
        r == if cursor >= byte_len(s@) {
            byte_len(s@) as int
        } else {
            byte_len(s@.take(char_index(s@, cursor as int) + 1)) as int
        },
{
    let total = text_byte_len(s);
    if cursor >= total {
        return total;
    }
    let n = s.unicode_len();
    let mut pos: usize = 0;
    let mut i: usize = 0;
    proof {
        assert(s@.take(0) =~= Seq::<char>::empty());
        assert(s@.take(n as int) =~= s@);
    }
    while i < n && pos < cursor
        invariant
            n == s@.len(),
            i <= n,
            cursor < byte_len(s@),
            byte_len(s@) <= usize::MAX,
            s@.take(n as int) == s@,
            is_boundary(s@, cursor as int),
            pos == byte_len(s@.take(i as int)),
            forall|j: int| 0 <= j < i ==> byte_len(#[trigger] s@.take(j)) < cursor,
        decreases n - i,
    {
        proof {
            assert(s@.take(i + 1).drop_last() =~= s@.take(i as int));
            if i + 1 < n {
                lemma_byte_len_mono(s@, i + 1, n as int);
            }
        }
        pos = pos + char_len_exec(s.get_char(i));
        i = i + 1;
    }
    proof {
        if pos < cursor {
            assert(i == n);
        }
        lemma_boundary_at(s@, i as int, cursor as int);
        if i == n {
            assert(false);
        }
        assert(s@.take(i + 1).drop_last() =~= s@.take(i as int));
        if i + 1 < n {
            lemma_byte_len_mono(s@, i + 1, n as int);
        }
    }
    pos + char_len_exec(s.get_char(i))
}

/// The byte length of the active field of a subcommand pair (0 when there
/// is no such pair).
pub fn active_field_len(pairs: &[(String, String)], pair: usize, field: &SubcommandField) -> (r: usize)
    requires
        forall|i: int| 0 <= i < pairs@.len() ==> byte_len((#[trigger] pairs@[i]).0@) <= usize::MAX && byte_len(
            pairs@[i].1@,
        ) <= usize::MAX,
    ensures
        r == if pair < pairs@.len() {
            match field {
                SubcommandField::Short => byte_len(pairs@[pair as int].0@) as int,
                SubcommandField::Long => byte_len(pairs@[pair as int].1@) as int,
            }
        } else {
            0
        },
{
    if pair < pairs.len() {
        match field {
            SubcommandField::Short => text_byte_len(pairs[pair].0.as_str()),
            SubcommandField::Long => text_byte_len(pairs[pair].1.as_str()),
        }
    } else {
        0
    }
}

pub(crate) proof fn lemma_index_unique(s: Seq<char>, i: int, j: int)
    requires
        0 <= i <= s.len(),
        0 <= j <= s.len(),
        byte_len(s.take(i)) == byte_len(s.take(j)),
    ensures
        i == j,
{
    if i < j {
        lemma_byte_len_mono(s, i, j);
    } else if j < i {
        lemma_byte_len_mono(s, j, i);
    }
}

/// Moving the cursor right and then left brings it back, anywhere before
/// the end of the text; moving left and then right does too, anywhere
/// after the start.
pub proof fn law_cursor_right_left_inverse(s: Seq<char>, c: int)
    requires
        is_boundary(s, c),
    ensures
        c < byte_len(s) ==> ({
            let r = byte_len(s.take(char_index(s, c) + 1)) as int;
            is_boundary(s, r) && r != 0 && byte_len(s.take(char_index(s, r) - 1)) == c
        }),
        c > 0 ==> ({
            let l = byte_len(s.take(char_index(s, c) - 1)) as int;
            is_boundary(s, l) && l < byte_len(s) && byte_len(s.take(char_index(s, l) + 1)) == c
        }),
{
    let k = char_index(s, c);
    assert(s.take(s.len() as int) =~= s);
    if c < byte_len(s) {
        if k == s.len() {
            assert(false);
        }
        let r = byte_len(s.take(k + 1)) as int;
        assert(is_boundary(s, r));
        lemma_index_unique(s, char_index(s, r), k + 1);
        lemma_byte_len_mono(s, 0, k + 1);
    }
    if c > 0 {
        if k == 0 {
            assert(s.take(0) =~= Seq::<char>::empty());
            assert(false);
        }
        let l = byte_len(s.take(k - 1)) as int;
        assert(is_boundary(s, l));
        lemma_index_unique(s, char_index(s, l), k - 1);
        lemma_byte_len_mono(s, k - 1, s.len() as int);
    }
}

/// `str::len`: the length of the text in bytes of its UTF-8 encoding.
#[verifier::external_body]
pub fn utf8_len(s: &str) -> (r: usize)
    ensures
        r == byte_len(s@),
{
    s.len()
}

/// The character index of the boundary at byte offset `cursor`.
pub fn index_at(s: &str, cursor: usize) -> (r: usize)
    requires
        is_boundary(s@, cursor as int),
    ensures
        r == char_index(s@, cursor as int),
        r <= s@.len(),
        byte_len(s@.take(r as int)) == cursor,
{
    let n = s.unicode_len();
    let mut pos: usize = 0;
    let mut i: usize = 0;
    proof {
        assert(s@.take(0) =~= Seq::<char>::empty());
        assert(s@.take(n as int) =~= s@);
    }
    let total = utf8_len(s);
    while i < n && pos < cursor
        invariant
            n == s@.len(),
            i <= n,
            total == byte_len(s@),
            s@.take(n as int) == s@,
            is_boundary(s@, cursor as int),
            pos == byte_len(s@.take(i as int)),
            forall|j: int| 0 <= j < i ==> byte_len(#[trigger] s@.take(j)) < cursor,
        decreases n - i,
    {
        proof {
            assert(s@.take(i + 1).drop_last() =~= s@.take(i as int));
            if i + 1 < n {
                lemma_byte_len_mono(s@, i + 1, n as int);
            }
        }
        pos = pos + char_len_exec(s.get_char(i));
        i = i + 1;
    }
    proof {
        let k = char_index(s@, cursor as int);
        if pos < cursor {
            assert(i == n);
            if k < n {
                lemma_byte_len_mono(s@, k, n as int);
            }
        }
        lemma_boundary_at(s@, i as int, cursor as int);
    }
    i
}

/// The text with `c` inserted at the boundary `cursor`, and the cursor
/// just after it.
pub fn insert_at(s: &str, cursor: usize, c: char) -> (r: (String, usize))
    requires
        is_boundary(s@, cursor as int),
    ensures
        r.0@ == s@.insert(char_index(s@, cursor as int), c),
        r.1 == cursor + char_len(c),
        is_boundary(r.0@, r.1 as int),
{
    let k = index_at(s, cursor);
    let mut t = crate::text::prefix_to(s, k);
    crate::text::push_char(&mut t, c);
    let rest = crate::text::suffix_from(s, k);
    crate::text::push_str(&mut t, rest.as_str());
    let ghost before = s@;
    proof {
        assert(t@ =~= before.insert(k as int, c));
        assert(t@.take(k + 1) =~= before.take(k as int).push(c));
        assert(t@.take(k + 1).drop_last() =~= before.take(k as int));
    }
    let total = utf8_len(t.as_str());
    proof {
        assert(t@.take(t@.len() as int) =~= t@);
        if k + 1 < t@.len() {
            lemma_byte_len_mono(t@, k + 1, t@.len() as int);
        }
    }
    let nc = cursor + char_len_exec(c);
    proof {
        assert(byte_len(t@.take(k + 1)) == nc);
    }
    (t, nc)
}

/// The text with the character before the boundary `cursor` removed, and
/// the cursor where that character was; unchanged at the start.
pub fn remove_before(s: &str, cursor: usize) -> (r: (String, usize))
    requires
        is_boundary(s@, cursor as int),
    ensures
        cursor == 0 ==> r.0@ == s@ && r.1 == 0,
        cursor > 0 ==> r.0@ == s@.remove(char_index(s@, cursor as int) - 1) && r.1 == byte_len(
            s@.take(char_index(s@, cursor as int) - 1),
        ),
        is_boundary(r.0@, r.1 as int),
{
    let k = index_at(s, cursor);
    if k == 0 {
        proof {
            assert(s@.take(0) =~= Seq::<char>::empty());
        }
        return (crate::text::string_from(s), 0);
    }
    let nc = cursor_left(s, cursor);
    let mut t = crate::text::prefix_to(s, k - 1);
    let rest = crate::text::suffix_from(s, k);
    crate::text::push_str(&mut t, rest.as_str());
    proof {
        assert(t@ =~= s@.remove(k - 1));
        assert(t@.take(k - 1) =~= s@.take(k - 1));
    }
    (t, nc)
}

} // verus!
