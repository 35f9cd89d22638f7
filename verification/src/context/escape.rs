//! Escaping for markdown table cells.
use vstd::prelude::*;

use crate::text::{push_char, push_str};

verus! {

/// `s` with each `|` written as `\|`, so it cannot end a table cell.
pub open spec fn escape_md(s: Seq<char>) -> Seq<char>
    decreases s.len(),
{
    if s.len() == 0 {
        Seq::empty()
    } else {
        escape_md(s.drop_last()) + (if s.last() == '|' {
            "\\|"@
        } else {
            seq![s.last()]
        })
    }
}

/// Escapes the characters that would break a markdown table cell: `|`.
pub fn escape_md_cell(s: &str) -> (r: String)
    ensures
        r@ == escape_md(s@),
{
    let n = s.unicode_len();
    let mut out = String::new();
    let mut i: usize = 0;
    proof {
        assert(s@.take(0) =~= Seq::<char>::empty());
    }
    while i < n
        invariant
            n == s@.len(),
            i <= n,
            out@ == escape_md(s@.take(i as int)),
        decreases n - i,
    {
        let c = s.get_char(i);
        proof {
            assert(s@.take(i + 1).drop_last() =~= s@.take(i as int));
            assert(s@.take(i + 1).last() == c);
        }
        if c == '|' {
            push_str(&mut out, "\\|");
        } else {
            push_char(&mut out, c);
            assert(out@ =~= escape_md(s@.take(i as int)) + seq![c]);
        }
        i = i + 1;
    }
    assert(s@.take(n as int) =~= s@);
    out
}

} // verus!
