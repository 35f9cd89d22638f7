//! The verbose-only `## Invalid` section.
use vstd::prelude::*;

use crate::precedence::Diagnostic;
use crate::text::{push_str, string_from};

verus! {

/// The section over the diagnostics accumulated so far.
pub open spec fn invalid_acc(ds: Seq<Diagnostic>) -> Seq<char>
    decreases ds.len(),
{
    if ds.len() == 0 {
        "## Invalid\n"@
    } else {
        invalid_acc(ds.drop_last()) + "- "@ + ds.last().message@ + "\n"@
    }
}

/// The whole section, empty without diagnostics.
pub open spec fn invalid_text(ds: Seq<Diagnostic>) -> Seq<char> {
    if ds.len() == 0 {
        Seq::empty()
    } else {
        invalid_acc(ds)
    }
}

/// The `## Invalid` section: one bullet per diagnostic; empty when there is none.
pub fn render_invalid(diagnostics: &[Diagnostic]) -> (r: String)
    ensures
        r@ == invalid_text(diagnostics@),
{
    if diagnostics.len() == 0 {
        return String::new();
    }
    let mut out = string_from("## Invalid\n");
    let mut i: usize = 0;
    proof {
        assert(diagnostics@.take(0) =~= Seq::<Diagnostic>::empty());
    }
    while i < diagnostics.len()
        invariant
            i <= diagnostics@.len(),
            out@ == invalid_acc(diagnostics@.take(i as int)),
        decreases diagnostics@.len() - i,
    {
        push_str(&mut out, "- ");
        push_str(&mut out, diagnostics[i].message.as_str());
        push_str(&mut out, "\n");
        proof {
            assert(diagnostics@.take(i + 1).drop_last() =~= diagnostics@.take(i as int));
        }
        i = i + 1;
    }
    assert(diagnostics@.take(diagnostics@.len() as int) =~= diagnostics@);
    out
}

} // verus!
