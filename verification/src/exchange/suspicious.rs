//! Detection and safe display of control characters in imported text.
use vstd::prelude::*;

use crate::text::{digits, digits_string, push_char, push_str, string_from, zero_pad, zero_pad_string};

verus! {

/// A control character that could steer a terminal: C0 controls other than
/// newline, carriage return and tab; DEL; and the C1 range.
pub open spec fn suspicious(c: char) -> bool {
    let cp = c as u32;
    (cp <= 0x1F && cp != 0x0A && cp != 0x0D && cp != 0x09) || cp == 0x7F || (0x80 <= cp && cp
        <= 0x9F)
}

/// Does `s` hold a suspicious character?
pub open spec fn has_suspicious(s: Seq<char>) -> bool {
    exists|i: int| 0 <= i < s.len() && suspicious(#[trigger] s[i])
}

/// `s` with each suspicious character replaced by U+FFFD.
pub open spec fn sanitized(s: Seq<char>) -> Seq<char> {
    s.map_values(|c: char| if suspicious(c) { '\u{FFFD}' } else { c })
}

/// The display form of one character: `\u{XXXX}` (upper-case hex, at least
/// four digits) for a suspicious one, the character itself otherwise.
pub open spec fn escape_char(c: char) -> Seq<char> {
    if suspicious(c) {
        "\\u{"@ + zero_pad(digits((c as u32) as nat, 16), 4) + "}"@
    } else {
        seq![c]
    }
}

/// `s` with each suspicious character written in escape notation.
pub open spec fn escaped(s: Seq<char>) -> Seq<char>
    decreases s.len(),
{
    if s.len() == 0 {
        Seq::empty()
    } else {
        escaped(s.drop_last()) + escape_char(s.last())
    }
}

/// Detection of control characters that could manipulate terminal output.
pub trait SuspiciousChar {
    spec fn spec_suspicious(&self) -> bool;

    /// True for a control character that could manipulate terminal output;
    /// benign white space (`\n`, `\r`, `\t`) is excluded.
    fn is_suspicious(&self) -> (r: bool)
        ensures
            r == self.spec_suspicious();
}

impl SuspiciousChar for char {
    open spec fn spec_suspicious(&self) -> bool {
        suspicious(*self)
    }

    fn is_suspicious(&self) -> (r: bool) {
        let c: char = *self;
        let cp = c as u32;
        (cp <= 0x1F && cp != 0x0A && cp != 0x0D && cp != 0x09) || cp == 0x7F || (0x80 <= cp && cp
            <= 0x9F)
    }
}

/// Does the string hold a suspicious control character?
pub fn has_suspicious_chars(s: &str) -> (r: bool)
    ensures
        r == has_suspicious(s@),
{
    let n = s.unicode_len();
    let mut i: usize = 0;
    while i < n
        invariant
            n == s@.len(),
            i <= n,
            forall|j: int| 0 <= j < i ==> !suspicious(#[trigger] s@[j]),
        decreases n - i,
    {
        let c = s.get_char(i);
        if c.is_suspicious() {
            assert(suspicious(s@[i as int]));
            return true;
        }
        i = i + 1;
    }
    false
}

/// Control characters written as `\u{XXXX}` for safe display.
pub fn escape_for_display(s: &str) -> (r: String)
    ensures
        r@ == escaped(s@),
{
    let n = s.unicode_len();
    let mut out = String::new();
    let mut i: usize = 0;
    proof {
        assert(s@.take(0) =~= Seq::<char>::empty());
    }
    while i < n
        invariant
            n == s@.len(),
            i <= n,
            out@ == escaped(s@.take(i as int)),
        decreases n - i,
    {
        let c = s.get_char(i);
        proof {
            assert(s@.take(i + 1).drop_last() =~= s@.take(i as int));
            assert(s@.take(i + 1).last() == c);
        }
        if c.is_suspicious() {
            push_str(&mut out, "\\u{");
            let hex = zero_pad_string(digits_string(c as u32 as u128, 16), 4);
            push_str(&mut out, hex.as_str());
            push_str(&mut out, "}");
            proof {
                assert(out@ =~= escaped(s@.take(i as int)) + escape_char(c));
            }
        } else {
            push_char(&mut out, c);
            proof {
                assert(out@ =~= escaped(s@.take(i as int)) + escape_char(c));
            }
        }
        i = i + 1;
    }
    proof {
        assert(s@.take(n as int) =~= s@);
    }
    out
}

/// Suspicious control characters replaced by U+FFFD.
pub fn sanitize_for_display(s: &str) -> (r: String)
    ensures
        r@ == sanitized(s@),
{
    let n = s.unicode_len();
    let mut out = String::new();
    let mut i: usize = 0;
    while i < n
        invariant
            n == s@.len(),
            i <= n,
            out@ == sanitized(s@.take(i as int)),
        decreases n - i,
    {
        let c = s.get_char(i);
        if c.is_suspicious() {
            push_char(&mut out, '\u{FFFD}');
        } else {
            push_char(&mut out, c);
        }
        i = i + 1;
        assert(out@ =~= sanitized(s@.take(i as int)));
    }
    assert(s@.take(n as int) =~= s@);
    out
}

/// Sanitising leaves no suspicious character behind, and changes exactly the
/// strings that hold one.
pub proof fn law_sanitize_clean(s: Seq<char>)
    ensures
        !has_suspicious(sanitized(s)),
        (sanitized(s) == s) <==> !has_suspicious(s),
{
    let t = sanitized(s);
    assert forall|i: int| 0 <= i < t.len() implies !suspicious(#[trigger] t[i]) by {
        let fffd = '\u{FFFD}';
        assert(fffd as u32 == 0xFFFD);
    }
    if has_suspicious(s) {
        let i = choose|i: int| 0 <= i < s.len() && suspicious(#[trigger] s[i]);
        assert(t[i] != s[i]);
    } else {
        assert(t =~= s);
    }
}

/// Escaping leaves a string without suspicious characters unchanged.
pub proof fn law_escape_clean_identity(s: Seq<char>)
    requires
        !has_suspicious(s),
    ensures
        escaped(s) == s,
    decreases s.len(),
{
    if s.len() > 0 {
        assert(!suspicious(s[s.len() - 1]));
        assert forall|i: int| 0 <= i < s.drop_last().len() implies !suspicious(
            #[trigger] s.drop_last()[i],
        ) by {
            assert(s.drop_last()[i] == s[i]);
        }
        law_escape_clean_identity(s.drop_last());
        assert(s.drop_last().push(s.last()) =~= s);
    }
}

/// A string sanitised for safe terminal display.
#[derive(Debug, Clone, PartialEq)]
pub struct SanitizedName(String);

impl View for SanitizedName {
    type V = Seq<char>;

    closed spec fn view(&self) -> Seq<char> {
        self.0@
    }
}

impl SanitizedName {
    pub fn new(raw: &str) -> (r: Self)
        ensures
            r@ == sanitized(raw@),
    {
        SanitizedName(sanitize_for_display(raw))
    }

    /// The sanitised text (what `Display` shows).
    pub fn to_string(&self) -> (r: String)
        ensures
            r@ == self@,
    {
        self.0.clone()
    }

    pub fn as_str(&self) -> (r: &str)
        ensures
            r@ == self@,
    {
        self.0.as_str()
    }

    pub fn dup(&self) -> (r: Self)
        ensures
            r@ == self@,
    {
        SanitizedName(self.0.clone())
    }
}

/// A raw value kept for display in escape notation.
#[derive(Debug, Clone)]
pub struct RawValue(String);

impl View for RawValue {
    type V = Seq<char>;

    closed spec fn view(&self) -> Seq<char> {
        self.0@
    }
}

impl RawValue {
    pub fn new(raw: &str) -> (r: Self)
        ensures
            r@ == raw@,
    {
        RawValue(string_from(raw))
    }

    /// Control characters in `\u{XXXX}` notation.
    pub fn escaped(&self) -> (r: String)
        ensures
            r@ == escaped(self@),
    {
        escape_for_display(self.0.as_str())
    }

    /// Control characters replaced by U+FFFD.
    pub fn sanitized(&self) -> (r: String)
        ensures
            r@ == sanitized(self@),
    {
        sanitize_for_display(self.0.as_str())
    }

    /// The display form: the escaped text.
    pub fn to_string(&self) -> (r: String)
        ensures
            r@ == escaped(self@),
    {
        self.escaped()
    }
}

/// Where a finding was made.
#[derive(Debug, Clone, PartialEq)]
pub enum Scope {
    Global,
    Local,
    Profile(SanitizedName),
}

/// What a scope denotes.
pub enum ScopeSpec {
    Global,
    Local,
    Profile(Seq<char>),
}

impl View for Scope {
    type V = ScopeSpec;

    open spec fn view(&self) -> ScopeSpec {
        match self {
            Scope::Global => ScopeSpec::Global,
            Scope::Local => ScopeSpec::Local,
            Scope::Profile(n) => ScopeSpec::Profile(n@),
        }
    }
}

/// The display form of a scope.
pub open spec fn scope_text(s: ScopeSpec) -> Seq<char> {
    match s {
        ScopeSpec::Global => "global"@,
        ScopeSpec::Local => "local"@,
        ScopeSpec::Profile(n) => "profile:"@ + n,
    }
}

impl Scope {
    /// `global`, `local` or `profile:<name>`.
    pub fn to_string(&self) -> (r: String)
        ensures
            r@ == scope_text(self@),
    {
        match self {
            Scope::Global => string_from("global"),
            Scope::Local => string_from("local"),
            Scope::Profile(name) => {
                let mut s = string_from("profile:");
                push_str(&mut s, name.as_str());
                s
            },
        }
    }

    pub fn dup(&self) -> (r: Self)
        ensures
            r@ == self@,
    {
        match self {
            Scope::Global => Scope::Global,
            Scope::Local => Scope::Local,
            Scope::Profile(n) => Scope::Profile(n.dup()),
        }
    }
}

/// Which field of an entry held the suspicious text.
#[derive(Debug, Clone, Copy, PartialEq, Eq)]
pub enum SuspiciousField {
    AliasName,
    AliasCommand,
    ProfileName,
    SubcommandKey,
    SubcommandExpansion,
    VarName,
    VarValue,
}

/// The display form of a field.
pub open spec fn field_text(f: SuspiciousField) -> Seq<char> {
    match f {
        SuspiciousField::AliasName => "name"@,
        SuspiciousField::AliasCommand => "command"@,
        SuspiciousField::ProfileName => "profile_name"@,
        SuspiciousField::SubcommandKey => "subcommand_key"@,
        SuspiciousField::SubcommandExpansion => "subcommand_expansion"@,
        SuspiciousField::VarName => "var_name"@,
        SuspiciousField::VarValue => "var_value"@,
    }
}

impl SuspiciousField {
    pub fn to_string(&self) -> (r: String)
        ensures
            r@ == field_text(*self),
    {
        match self {
            SuspiciousField::AliasName => string_from("name"),
            SuspiciousField::AliasCommand => string_from("command"),
            SuspiciousField::ProfileName => string_from("profile_name"),
            SuspiciousField::SubcommandKey => string_from("subcommand_key"),
            SuspiciousField::SubcommandExpansion => string_from("subcommand_expansion"),
            SuspiciousField::VarName => string_from("var_name"),
            SuspiciousField::VarValue => string_from("var_value"),
        }
    }
}

/// One finding: scope, (sanitised) entry name, field and the raw text.
#[derive(Debug, Clone)]
pub struct SuspiciousAlias {
    pub scope: Scope,
    pub alias_name: SanitizedName,
    pub field: SuspiciousField,
    pub raw_value: RawValue,
}

/// What a finding denotes.
pub struct FindingSpec {
    pub scope: ScopeSpec,
    pub name: Seq<char>,
    pub field: SuspiciousField,
    pub raw: Seq<char>,
}

impl View for SuspiciousAlias {
    type V = FindingSpec;

    open spec fn view(&self) -> FindingSpec {
        FindingSpec {
            scope: self.scope@,
            name: self.alias_name@,
            field: self.field,
            raw: self.raw_value@,
        }
    }
}

/// The finding for `raw` in the given scope, entry and field.
pub open spec fn finding(scope: ScopeSpec, name: Seq<char>, field: SuspiciousField, raw: Seq<char>) -> FindingSpec {
    FindingSpec { scope, name: sanitized(name), field, raw }
}

impl SuspiciousAlias {
    pub fn global_name(name: &str) -> (r: Self)
        ensures
            r@ == finding(ScopeSpec::Global, name@, SuspiciousField::AliasName, name@),
    {
        SuspiciousAlias {
            scope: Scope::Global,
            alias_name: SanitizedName::new(name),
            field: SuspiciousField::AliasName,
            raw_value: RawValue::new(name),
        }
    }

    pub fn global_command(name: &str, command: &str) -> (r: Self)
        ensures
            r@ == finding(ScopeSpec::Global, name@, SuspiciousField::AliasCommand, command@),
    {
        SuspiciousAlias {
            scope: Scope::Global,
            alias_name: SanitizedName::new(name),
            field: SuspiciousField::AliasCommand,
            raw_value: RawValue::new(command),
        }
    }

    pub fn local_name(name: &str) -> (r: Self)
        ensures
            r@ == finding(ScopeSpec::Local, name@, SuspiciousField::AliasName, name@),
    {
        SuspiciousAlias {
            scope: Scope::Local,
            alias_name: SanitizedName::new(name),
            field: SuspiciousField::AliasName,
            raw_value: RawValue::new(name),
        }
    }

    pub fn local_command(name: &str, command: &str) -> (r: Self)
        ensures
            r@ == finding(ScopeSpec::Local, name@, SuspiciousField::AliasCommand, command@),
    {
        SuspiciousAlias {
            scope: Scope::Local,
            alias_name: SanitizedName::new(name),
            field: SuspiciousField::AliasCommand,
            raw_value: RawValue::new(command),
        }
    }

    pub fn profile_name(profile_name: &str) -> (r: Self)
        ensures
            r@ == finding(
                ScopeSpec::Profile(sanitized(profile_name@)),
                Seq::empty(),
                SuspiciousField::ProfileName,
                profile_name@,
            ),
    {
        proof {
            reveal_strlit("");
            assert(""@ =~= Seq::<char>::empty());
            assert(sanitized(""@) =~= Seq::<char>::empty());
            assert(sanitized(Seq::<char>::empty()) =~= Seq::<char>::empty());
        }
        SuspiciousAlias {
            scope: Scope::Profile(SanitizedName::new(profile_name)),
            alias_name: SanitizedName::new(""),
            field: SuspiciousField::ProfileName,
            raw_value: RawValue::new(profile_name),
        }
    }

    pub fn profile_alias_name(profile_name: &str, alias_name: &str) -> (r: Self)
        ensures
            r@ == finding(
                ScopeSpec::Profile(sanitized(profile_name@)),
                alias_name@,
                SuspiciousField::AliasName,
                alias_name@,
            ),
    {
        SuspiciousAlias {
            scope: Scope::Profile(SanitizedName::new(profile_name)),
            alias_name: SanitizedName::new(alias_name),
            field: SuspiciousField::AliasName,
            raw_value: RawValue::new(alias_name),
        }
    }

    pub fn profile_alias_command(profile_name: &str, alias_name: &str, command: &str) -> (r: Self)
        ensures
            r@ == finding(
                ScopeSpec::Profile(sanitized(profile_name@)),
                alias_name@,
                SuspiciousField::AliasCommand,
                command@,
            ),
    {
        SuspiciousAlias {
            scope: Scope::Profile(SanitizedName::new(profile_name)),
            alias_name: SanitizedName::new(alias_name),
            field: SuspiciousField::AliasCommand,
            raw_value: RawValue::new(command),
        }
    }

    pub fn subcommand_key(scope: Scope, key: &str) -> (r: Self)
        ensures
            r@ == finding(scope@, key@, SuspiciousField::SubcommandKey, key@),
    {
        SuspiciousAlias {
            scope,
            alias_name: SanitizedName::new(key),
            field: SuspiciousField::SubcommandKey,
            raw_value: RawValue::new(key),
        }
    }

    pub fn subcommand_expansion(scope: Scope, key: &str, expansion: &str) -> (r: Self)
        ensures
            r@ == finding(scope@, key@, SuspiciousField::SubcommandExpansion, expansion@),
    {
        SuspiciousAlias {
            scope,
            alias_name: SanitizedName::new(key),
            field: SuspiciousField::SubcommandExpansion,
            raw_value: RawValue::new(expansion),
        }
    }

    pub fn var_name(scope: Scope, name: &str) -> (r: Self)
        ensures
            r@ == finding(scope@, name@, SuspiciousField::VarName, name@),
    {
        SuspiciousAlias {
            scope,
            alias_name: SanitizedName::new(name),
            field: SuspiciousField::VarName,
            raw_value: RawValue::new(name),
        }
    }

    pub fn var_value(scope: Scope, name: &str, value: &str) -> (r: Self)
        ensures
            r@ == finding(scope@, name@, SuspiciousField::VarValue, value@),
    {
        SuspiciousAlias {
            scope,
            alias_name: SanitizedName::new(name),
            field: SuspiciousField::VarValue,
            raw_value: RawValue::new(value),
        }
    }
}

/// The opening of the warning.
pub open spec fn warning_header() -> Seq<char> {
    "WARNING: Suspicious characters detected in import\n"@
        + "==================================================\n\n"@
        + "The following entries contain control characters that could be used\n"@
        + "to execute unintended commands or manipulate your terminal:\n\n"@
}

/// The alias line of a finding, absent for an empty name.
pub open spec fn alias_line(name: Seq<char>) -> Seq<char> {
    if name.len() == 0 {
        Seq::empty()
    } else {
        "  alias:        "@ + name + "\n"@
    }
}

/// The lines for one finding.
pub open spec fn finding_block(f: FindingSpec) -> Seq<char> {
    "  scope:        "@ + scope_text(f.scope) + "\n"@ + alias_line(f.name) + "  field:        "@
        + field_text(f.field) + "\n"@ + "  original:     "@ + escaped(f.raw) + "\n"@
        + "  safe-escaped: "@ + sanitized(f.raw) + "\n"@ + "\n"@
}

/// The header followed by the blocks of the findings, in order.
pub open spec fn warning_body(fs: Seq<FindingSpec>) -> Seq<char>
    decreases fs.len(),
{
    if fs.len() == 0 {
        warning_header()
    } else {
        warning_body(fs.drop_last()) + finding_block(fs.last())
    }
}

/// The full warning for a list of findings.
pub open spec fn warning_text(fs: Seq<FindingSpec>) -> Seq<char> {
    warning_body(fs) + "To import anyway, use: am import --yes --trust\n"@
}

fn alias_line_text(name: &str) -> (r: String)
    ensures
        r@ == alias_line(name@),
{
    if name.unicode_len() == 0 {
        String::new()
    } else {
        let mut l = string_from("  alias:        ");
        push_str(&mut l, name);
        push_str(&mut l, "\n");
        l
    }
}

/// The lines for one finding.
fn finding_text(f: &SuspiciousAlias) -> (r: String)
    ensures
        r@ == finding_block(f@),
{
    let mut b = string_from("  scope:        ");
    let scope = f.scope.to_string();
    push_str(&mut b, scope.as_str());
    push_str(&mut b, "\n");
    let alias = alias_line_text(f.alias_name.as_str());
    push_str(&mut b, alias.as_str());
    push_str(&mut b, "  field:        ");
    let field = f.field.to_string();
    push_str(&mut b, field.as_str());
    push_str(&mut b, "\n");
    push_str(&mut b, "  original:     ");
    let esc = f.raw_value.escaped();
    push_str(&mut b, esc.as_str());
    push_str(&mut b, "\n");
    push_str(&mut b, "  safe-escaped: ");
    let san = f.raw_value.sanitized();
    push_str(&mut b, san.as_str());
    push_str(&mut b, "\n");
    push_str(&mut b, "\n");
    b
}

/// A human-readable warning listing suspicious findings.
pub fn render_suspicious_warning(findings: &[SuspiciousAlias]) -> (r: String)
    ensures
        r@ == warning_text(findings@.map_values(|f: SuspiciousAlias| f@)),
{
    let ghost fs = findings@.map_values(|f: SuspiciousAlias| f@);
    let mut out = string_from("WARNING: Suspicious characters detected in import\n");
    push_str(&mut out, "==================================================\n\n");
    push_str(&mut out, "The following entries contain control characters that could be used\n");
    push_str(&mut out, "to execute unintended commands or manipulate your terminal:\n\n");
    proof {
        assert(fs.take(0) =~= Seq::<FindingSpec>::empty());
    }
    let mut i: usize = 0;
    while i < findings.len()
        invariant
            i <= findings@.len(),
            fs == findings@.map_values(|f: SuspiciousAlias| f@),
            out@ == warning_body(fs.take(i as int)),
        decreases findings@.len() - i,
    {
        let block = finding_text(&findings[i]);
        push_str(&mut out, block.as_str());
        proof {
            assert(fs.take(i + 1).drop_last() =~= fs.take(i as int));
            assert(fs.take(i + 1).last() == findings@[i as int]@);
        }
        i = i + 1;
    }
    push_str(&mut out, "To import anyway, use: am import --yes --trust\n");
    proof {
        assert(fs.take(findings@.len() as int) =~= fs);
    }
    out
}

} // verus!
