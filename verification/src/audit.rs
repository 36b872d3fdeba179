use vstd::prelude::*;
use crate::hash::{hex_digit, hex_digit_exec};
use crate::util::{chars_to_string, push_chars, str_to_chars};

verus! {

// ---------------------------------------------------------------------------
// Audit events
// ---------------------------------------------------------------------------

/// The kind of a detected state transition. The first four come from the
/// live dispatcher; the last three from the offline reconciliation scanner.
#[derive(Clone, Copy, PartialEq, Eq, Structural)]
pub enum AuditKind {
    Create,
    Modify,
    Delete,
    Rename,
    Added,
    Changed,
    Missing,
}

/// The wire name of an audit kind.
pub open spec fn kind_name(k: AuditKind) -> Seq<char> {
    match k {
        AuditKind::Create => "create"@,
        AuditKind::Modify => "modify"@,
        AuditKind::Delete => "delete"@,
        AuditKind::Rename => "rename"@,
        AuditKind::Added => "added"@,
        AuditKind::Changed => "changed"@,
        AuditKind::Missing => "missing"@,
    }
}

/// One immutable, append-only audit record. Optional fields are omitted
/// from the rendered line when absent, never written as null.
pub struct AuditEvent {
    pub ts: i128,
    pub kind: AuditKind,
    pub path: String,
    pub old_path: Option<String>,
    pub old_hash: Option<String>,
    pub new_hash: Option<String>,
    pub size: Option<u64>,
}

/// The mathematical shape of an audit event: what the contracts speak of.
pub struct AuditEventV {
    pub ts: int,
    pub kind: AuditKind,
    pub path: Seq<char>,
    pub old_path: Option<Seq<char>>,
    pub old_hash: Option<Seq<char>>,
    pub new_hash: Option<Seq<char>>,
    pub size: Option<u64>,
}

/// The view of an optional string.
pub open spec fn opt_view(o: Option<String>) -> Option<Seq<char>> {
    match o {
        Option::Some(s) => Option::Some(s@),
        Option::None => Option::None,
    }
}

impl View for AuditEvent {
    type V = AuditEventV;

    open spec fn view(&self) -> AuditEventV {
        AuditEventV {
            ts: self.ts as int,
            kind: self.kind,
            path: self.path@,
            old_path: opt_view(self.old_path),
            old_hash: opt_view(self.old_hash),
            new_hash: opt_view(self.new_hash),
            size: self.size,
        }
    }
}

/// The live `create` event for a newly tracked path.
pub open spec fn create_event_v(ts: i128, path: Seq<char>, new_hash: Seq<char>, size: u64) -> AuditEventV {
    AuditEventV {
        ts: ts as int,
        kind: AuditKind::Create,
        path: path,
        old_path: Option::None,
        old_hash: Option::None,
        new_hash: Option::Some(new_hash),
        size: Option::Some(size),
    }
}

/// The live `modify` event for a tracked path whose content hash changed.
pub open spec fn modify_event_v(
    ts: i128,
    path: Seq<char>,
    old_hash: Seq<char>,
    new_hash: Seq<char>,
    size: u64,
) -> AuditEventV {
    AuditEventV {
        ts: ts as int,
        kind: AuditKind::Modify,
        path: path,
        old_path: Option::None,
        old_hash: Option::Some(old_hash),
        new_hash: Option::Some(new_hash),
        size: Option::Some(size),
    }
}

/// The live `delete` event for a tracked path that went away.
pub open spec fn delete_event_v(ts: i128, path: Seq<char>) -> AuditEventV {
    AuditEventV {
        ts: ts as int,
        kind: AuditKind::Delete,
        path: path,
        old_path: Option::None,
        old_hash: Option::None,
        new_hash: Option::None,
        size: Option::None,
    }
}

/// The live `rename` event: about the identity change itself, so it
/// carries both endpoints and no hashes.
pub open spec fn rename_event_v(ts: i128, to: Seq<char>, from: Seq<char>) -> AuditEventV {
    AuditEventV {
        ts: ts as int,
        kind: AuditKind::Rename,
        path: to,
        old_path: Option::Some(from),
        old_hash: Option::None,
        new_hash: Option::None,
        size: Option::None,
    }
}

/// The scanner's `added` finding: on disk but not in the baseline.
pub open spec fn added_event_v(ts: i128, path: Seq<char>, new_hash: Seq<char>, size: u64) -> AuditEventV {
    AuditEventV {
        ts: ts as int,
        kind: AuditKind::Added,
        path: path,
        old_path: Option::None,
        old_hash: Option::None,
        new_hash: Option::Some(new_hash),
        size: Option::Some(size),
    }
}

/// The scanner's `changed` finding: tracked, but hash, size or mtime
/// disagree with the baseline.
pub open spec fn changed_event_v(
    ts: i128,
    path: Seq<char>,
    old_hash: Seq<char>,
    new_hash: Seq<char>,
    size: u64,
) -> AuditEventV {
    AuditEventV {
        ts: ts as int,
        kind: AuditKind::Changed,
        path: path,
        old_path: Option::None,
        old_hash: Option::Some(old_hash),
        new_hash: Option::Some(new_hash),
        size: Option::Some(size),
    }
}

/// The scanner's `missing` finding: in the baseline but not on disk.
pub open spec fn missing_event_v(ts: i128, path: Seq<char>) -> AuditEventV {
    AuditEventV {
        ts: ts as int,
        kind: AuditKind::Missing,
        path: path,
        old_path: Option::None,
        old_hash: Option::None,
        new_hash: Option::None,
        size: Option::None,
    }
}

// ---------------------------------------------------------------------------
// Decimal rendering (verified)
// ---------------------------------------------------------------------------

/// The decimal digits of a non-negative integer, most significant first.
pub open spec fn dec_nat(n: nat) -> Seq<char>
    decreases n,
{
    if n < 10 {
        seq![hex_digit(n as int)]
    } else {
        dec_nat(n / 10) + seq![hex_digit((n % 10) as int)]
    }
}

/// The decimal spelling of an integer: a leading minus sign when negative.
pub open spec fn dec_int(n: int) -> Seq<char> {
    if n < 0 {
        seq!['-'] + dec_nat((-n) as nat)
    } else {
        dec_nat(n as nat)
    }
}

/// Appends the decimal digits of `n` to `out`.
fn push_dec_u128(out: &mut Vec<char>, n: u128)
    ensures
        final(out)@ == old(out)@ + dec_nat(n as nat),
{
    let mut digits: Vec<char> = Vec::new();
    let mut m: u128 = n;
    while m >= 10
        invariant
            dec_nat(n as nat) == dec_nat(m as nat) + digits@,
        decreases m,
    {
        let d: u8 = (m % 10) as u8;
        let prev = Ghost(digits@);
        let mprev = Ghost(m);
        digits.insert(0, hex_digit_exec(d));
        m = m / 10;
        proof {
            assert(digits@ =~= seq![hex_digit(mprev@ as int % 10)] + prev@);
            assert(dec_nat(mprev@ as nat) == dec_nat(m as nat) + seq![
                hex_digit((mprev@ as nat % 10) as int),
            ]);
            assert(dec_nat(m as nat) + digits@ =~= dec_nat(mprev@ as nat) + prev@);
        }
    }
    let prev = Ghost(digits@);
    digits.insert(0, hex_digit_exec(m as u8));
    proof {
        assert(digits@ =~= seq![hex_digit(m as int)] + prev@);
        assert(dec_nat(m as nat) == seq![hex_digit(m as int)]);
        assert(digits@ =~= dec_nat(n as nat));
    }
    let mut i: usize = 0;
    while i < digits.len()
        invariant
            i <= digits.len(),
            digits@ == dec_nat(n as nat),
            out@ == old(out)@ + digits@.take(i as int),
        decreases digits.len() - i,
    {
        out.push(digits[i]);
        i = i + 1;
        proof {
            assert(digits@.take(i as int) == digits@.take(i as int - 1).push(
                digits@[i as int - 1],
            ));
        }
    }
    proof {
        assert(digits@.take(digits@.len() as int) == digits@);
    }
}

/// Appends the decimal digits of a u64 to `out`.
pub(crate) fn push_dec_u64_digits(out: &mut Vec<char>, n: u64)
    ensures
        final(out)@ == old(out)@ + dec_nat(n as nat),
{
    push_dec_u128(out, n as u128);
}

/// Appends the decimal spelling of `n` to `out`.
fn push_dec_i128(out: &mut Vec<char>, n: i128)
    ensures
        final(out)@ == old(out)@ + dec_int(n as int),
{
    if n < 0 {
        out.push('-');
        let mag: u128 = ((-(n + 1)) as u128) + 1;
        proof {
            assert(mag as nat == (-(n as int)) as nat);
        }
        push_dec_u128(out, mag);
        proof {
            assert(old(out)@ + seq!['-'] + dec_nat(mag as nat) =~= old(out)@ + dec_int(n as int));
        }
    } else {
        push_dec_u128(out, n as u128);
    }
}

// ---------------------------------------------------------------------------
// JSON string escaping (verified)
// ---------------------------------------------------------------------------

/// How one char is spelled inside a JSON string: quote and backslash are
/// escaped, the common control chars get their short forms, the remaining
/// control chars a `\u00..` form, and everything else stands as itself.
pub open spec fn escape_char(c: char) -> Seq<char> {
    if c == '"' {
        "\\\""@
    } else if c == '\\' {
        "\\\\"@
    } else if c == '\u{8}' {
        "\\b"@
    } else if c == '\t' {
        "\\t"@
    } else if c == '\n' {
        "\\n"@
    } else if c == '\u{c}' {
        "\\f"@
    } else if c == '\r' {
        "\\r"@
    } else if (c as u32) < 32 {
        "\\u00"@ + seq![hex_digit((c as u32) as int / 16), hex_digit((c as u32) as int % 16)]
    } else {
        seq![c]
    }
}

/// The JSON escaping of a whole char sequence.
pub open spec fn json_escape(s: Seq<char>) -> Seq<char>
    decreases s.len(),
{
    if s.len() == 0 {
        Seq::<char>::empty()
    } else {
        json_escape(s.drop_last()) + escape_char(s.last())
    }
}

/// A JSON string literal: the escaped chars between double quotes.
pub open spec fn json_str(s: Seq<char>) -> Seq<char> {
    seq!['"'] + json_escape(s) + seq!['"']
}

fn push_escape_char(out: &mut Vec<char>, c: char)
    ensures
        final(out)@ == old(out)@ + escape_char(c),
{
    if c == '"' {
        push_chars(out, "\\\"");
    } else if c == '\\' {
        push_chars(out, "\\\\");
    } else if c == '\u{8}' {
        push_chars(out, "\\b");
    } else if c == '\t' {
        push_chars(out, "\\t");
    } else if c == '\n' {
        push_chars(out, "\\n");
    } else if c == '\u{c}' {
        push_chars(out, "\\f");
    } else if c == '\r' {
        push_chars(out, "\\r");
    } else if (c as u32) < 32 {
        let v = c as u32;
        push_chars(out, "\\u00");
        out.push(hex_digit_exec((v / 16) as u8));
        out.push(hex_digit_exec((v % 16) as u8));
        proof {
            assert(out@ =~= old(out)@ + escape_char(c));
        }
    } else {
        out.push(c);
        proof {
            assert(out@ =~= old(out)@ + escape_char(c));
        }
    }
}

/// Appends `json_str(s@)`: the quoted, escaped spelling of `s`.
fn push_json_str(out: &mut Vec<char>, s: &String)
    ensures
        final(out)@ == old(out)@ + json_str(s@),
{
    out.push('"');
    let cs = str_to_chars(s.as_str());
    let mut i: usize = 0;
    while i < cs.len()
        invariant
            i <= cs.len(),
            cs@ == s@,
            out@ == old(out)@ + seq!['"'] + json_escape(s@.take(i as int)),
        decreases cs.len() - i,
    {
        push_escape_char(out, cs[i]);
        i = i + 1;
        proof {
            assert(s@.take(i as int).drop_last() == s@.take(i as int - 1));
            assert(s@.take(i as int).last() == s@[i as int - 1]);
        }
    }
    out.push('"');
    proof {
        assert(s@.take(cs@.len() as int) == s@);
        assert(out@ =~= old(out)@ + json_str(s@));
    }
}

// ---------------------------------------------------------------------------
// One event, one JSON line (verified)
// ---------------------------------------------------------------------------

/// The rendering of an optional string field: nothing when absent.
pub open spec fn opt_str_json(prefix: Seq<char>, v: Option<Seq<char>>) -> Seq<char> {
    match v {
        Option::Some(s) => prefix + json_str(s),
        Option::None => Seq::<char>::empty(),
    }
}

/// The rendering of the optional size field: nothing when absent.
pub open spec fn opt_u64_json(prefix: Seq<char>, v: Option<u64>) -> Seq<char> {
    match v {
        Option::Some(n) => prefix + dec_nat(n as nat),
        Option::None => Seq::<char>::empty(),
    }
}

/// The exact JSON object for one audit event, fields in a fixed order,
/// optional fields omitted when absent.
pub open spec fn audit_json(e: AuditEventV) -> Seq<char> {
    "{\"ts\":"@ + dec_int(e.ts) + ",\"kind\":\""@ + kind_name(e.kind) + "\",\"path\":"@
        + json_str(e.path) + opt_str_json(",\"old_path\":"@, e.old_path) + opt_str_json(
        ",\"old_hash\":"@,
        e.old_hash,
    ) + opt_str_json(",\"new_hash\":"@, e.new_hash) + opt_u64_json(",\"size\":"@, e.size) + "}"@
}

fn push_kind(out: &mut Vec<char>, k: AuditKind)
    ensures
        final(out)@ == old(out)@ + kind_name(k),
{
    match k {
        AuditKind::Create => push_chars(out, "create"),
        AuditKind::Modify => push_chars(out, "modify"),
        AuditKind::Delete => push_chars(out, "delete"),
        AuditKind::Rename => push_chars(out, "rename"),
        AuditKind::Added => push_chars(out, "added"),
        AuditKind::Changed => push_chars(out, "changed"),
        AuditKind::Missing => push_chars(out, "missing"),
    }
}

impl AuditEvent {
    /// Renders this event as the one-line JSON object the audit log and
    /// the diff report hold, without a trailing newline.
    pub fn to_json(&self) -> (r: String)
        ensures
            r@ == audit_json(self@),
    {
        let mut out: Vec<char> = Vec::new();
        push_chars(&mut out, "{\"ts\":");
        push_dec_i128(&mut out, self.ts);
        push_chars(&mut out, ",\"kind\":\"");
        push_kind(&mut out, self.kind);
        push_chars(&mut out, "\",\"path\":");
        push_json_str(&mut out, &self.path);
        match &self.old_path {
            Option::Some(s) => {
                push_chars(&mut out, ",\"old_path\":");
                push_json_str(&mut out, s);
            },
            Option::None => {},
        }
        match &self.old_hash {
            Option::Some(s) => {
                push_chars(&mut out, ",\"old_hash\":");
                push_json_str(&mut out, s);
            },
            Option::None => {},
        }
        match &self.new_hash {
            Option::Some(s) => {
                push_chars(&mut out, ",\"new_hash\":");
                push_json_str(&mut out, s);
            },
            Option::None => {},
        }
        match &self.size {
            Option::Some(n) => {
                push_chars(&mut out, ",\"size\":");
                push_dec_u128(&mut out, *n as u128);
            },
            Option::None => {},
        }
        push_chars(&mut out, "}");
        proof {
            assert(out@ =~= audit_json(self@));
        }
        chars_to_string(&out)
    }
}

} // verus!
