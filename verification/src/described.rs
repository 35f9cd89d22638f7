//! Shared description helpers for items that may carry a human-readable note.
use vstd::prelude::*;
use vstd::string::*;

use crate::text::string_from;

verus! {

/// The view of an optional string slice.
pub open spec fn opt_str_view(o: Option<&str>) -> Option<Seq<char>> {
    match o {
        Some(s) => Some(s@),
        None => None,
    }
}

/// The view of an optional owned string.
pub open spec fn opt_string_view(o: Option<String>) -> Option<Seq<char>> {
    match o {
        Some(s) => Some(s@),
        None => None,
    }
}

/// Implemented by any item that may optionally carry a description.
/// Renderers use it to treat regular and subcommand aliases alike.
pub trait Described {
    spec fn spec_description(&self) -> Option<Seq<char>>;

    fn description(&self) -> (r: Option<&str>)
        ensures
            opt_str_view(r) == self.spec_description();
}

/// Unicode `White_Space` property, the set `char::is_whitespace` tests.
pub open spec fn is_white_space(c: char) -> bool {
    let v = c as int;
    ||| (0x09 <= v && v <= 0x0D)
    ||| v == 0x20
    ||| v == 0x85
    ||| v == 0xA0
    ||| v == 0x1680
    ||| (0x2000 <= v && v <= 0x200A)
    ||| v == 0x2028
    ||| v == 0x2029
    ||| v == 0x202F
    ||| v == 0x205F
    ||| v == 0x3000
}

/// Is `c` white space in the Unicode sense?
pub fn char_is_white_space(c: char) -> (r: bool)
    ensures
        r == is_white_space(c),
{
    let v = c as u32;
    (0x09 <= v && v <= 0x0D) || v == 0x20 || v == 0x85 || v == 0xA0 || v == 0x1680 || (0x2000 <= v
        && v <= 0x200A) || v == 0x2028 || v == 0x2029 || v == 0x202F || v == 0x205F || v == 0x3000
}

/// `s` with leading white space removed.
pub open spec fn trim_front(s: Seq<char>) -> Seq<char>
    decreases s.len(),
{
    if s.len() > 0 && is_white_space(s[0]) {
        trim_front(s.drop_first())
    } else {
        s
    }
}

/// `s` with trailing white space removed.
pub open spec fn trim_back(s: Seq<char>) -> Seq<char>
    decreases s.len(),
{
    if s.len() > 0 && is_white_space(s.last()) {
        trim_back(s.drop_last())
    } else {
        s
    }
}

/// `s` with white space removed at both ends (what `str::trim` gives).
pub open spec fn trim_spec(s: Seq<char>) -> Seq<char> {
    trim_back(trim_front(s))
}

/// The result of normalising a description: trimmed, and `None` when empty.
pub open spec fn normalized(s: Seq<char>) -> Option<Seq<char>> {
    if trim_spec(s).len() == 0 {
        None
    } else {
        Some(trim_spec(s))
    }
}

/// `str::trim`: removes leading and trailing white space.
pub fn trim(s: &str) -> (r: String)
    ensures
        r@ == trim_spec(s@),
{
    let n = s.unicode_len();
    let mut lo: usize = 0;
    assert(s@.subrange(0, n as int) =~= s@);
    while lo < n && char_is_white_space(s.get_char(lo))
        invariant
            n == s@.len(),
            lo <= n,
            trim_front(s@) == trim_front(s@.subrange(lo as int, n as int)),
        decreases n - lo,
    {
        assert(s@.subrange(lo as int, n as int).drop_first() =~= s@.subrange(lo + 1, n as int));
        lo = lo + 1;
    }
    let ghost front = s@.subrange(lo as int, n as int);
    assert(trim_front(front) == front);
    let mut hi: usize = n;
    assert(s@.subrange(lo as int, hi as int) =~= front);
    while hi > lo && char_is_white_space(s.get_char(hi - 1))
        invariant
            n == s@.len(),
            lo <= hi <= n,
            trim_back(front) == trim_back(s@.subrange(lo as int, hi as int)),
        decreases hi - lo,
    {
        assert(s@.subrange(lo as int, hi as int).drop_last() =~= s@.subrange(lo as int, hi - 1));
        hi = hi - 1;
    }
    let r = string_from(s.substring_char(lo, hi));
    r
}

/// Normalise a raw description: trim white space; an empty result is `None`.
pub fn normalize_description(s: &str) -> (r: Option<String>)
    ensures
        opt_string_view(r) == normalized(s@),
{
    let t = trim(s);
    if t.unicode_len() == 0 {
        None
    } else {
        Some(t)
    }
}

/// Three-state description update used by add/edit flows: keep what is
/// there, clear it, or set a new value.
#[derive(Debug, Clone, PartialEq, Eq)]
pub enum DescriptionUpdate {
    /// No description flag: keep any existing description.
    Preserve,
    /// An empty (or white-space only) description: clear it.
    Clear,
    /// Set the description to this value.
    SetTo(String),
}

impl DescriptionUpdate {
    /// From an optional command-line value: absent keeps, blank clears,
    /// anything else sets the normalised text.
    pub fn from_cli_arg(arg: Option<&str>) -> (r: Self)
        ensures
            arg is None ==> r is Preserve,
            arg matches Some(s) ==> (match normalized(s@) {
                None => r is Clear,
                Some(t) => r matches DescriptionUpdate::SetTo(v) && v@ == t,
            }),
    {
        match arg {
            None => DescriptionUpdate::Preserve,
            Some(s) => match normalize_description(s) {
                None => DescriptionUpdate::Clear,
                Some(t) => DescriptionUpdate::SetTo(t),
            },
        }
    }

    /// The final description given the one already on the entry.
    pub fn resolve(self, existing: Option<&str>) -> (r: Option<String>)
        ensures
            opt_string_view(r) == (match self {
                DescriptionUpdate::Preserve => opt_str_view(existing),
                DescriptionUpdate::Clear => None,
                DescriptionUpdate::SetTo(s) => Some(s@),
            }),
    {
        match self {
            DescriptionUpdate::Preserve => match existing {
                Some(e) => Some(string_from(e)),
                None => None,
            },
            DescriptionUpdate::Clear => None,
            DescriptionUpdate::SetTo(s) => Some(s),
        }
    }

    /// An explicit edit: `Some(s)` sets, `None` clears.
    pub fn from_explicit(opt: Option<String>) -> (r: Self)
        ensures
            opt is None ==> r is Clear,
            opt matches Some(s) ==> r == DescriptionUpdate::SetTo(s),
    {
        match opt {
            Some(s) => DescriptionUpdate::SetTo(s),
            None => DescriptionUpdate::Clear,
        }
    }
}

} // verus!
