//! Text that the tracer produces: decimal numbers, the `/proc` paths it
//! opens, and the JSON document that lists the observed files.
use vstd::prelude::*;

use crate::pipeline::{Entry, EventInfo};

verus! {

/// The decimal digit for `d < 10`.
pub open spec fn digit(d: nat) -> char {
    seq!['0', '1', '2', '3', '4', '5', '6', '7', '8', '9'][d as int]
}

/// Decimal text of a natural number, without leading zeros.
pub open spec fn decimal(n: nat) -> Seq<char>
    decreases n,
{
    if n < 10 {
        seq![digit(n)]
    } else {
        decimal(n / 10).push(digit(n % 10))
    }
}

/// Decimal text of an integer, with a leading `-` when it is negative.
pub open spec fn signed_decimal(i: int) -> Seq<char> {
    if i < 0 {
        seq!['-'] + decimal((-i) as nat)
    } else {
        decimal(i as nat)
    }
}

fn digit_str(d: u128) -> (r: &'static str)
    requires
        d < 10,
    ensures
        r@ == seq![digit(d as nat)],
{
    proof {
        reveal_strlit("0");
        reveal_strlit("1");
        reveal_strlit("2");
        reveal_strlit("3");
        reveal_strlit("4");
        reveal_strlit("5");
        reveal_strlit("6");
        reveal_strlit("7");
        reveal_strlit("8");
        reveal_strlit("9");
    }
    let r = if d == 0 {
        "0"
    } else if d == 1 {
        "1"
    } else if d == 2 {
        "2"
    } else if d == 3 {
        "3"
    } else if d == 4 {
        "4"
    } else if d == 5 {
        "5"
    } else if d == 6 {
        "6"
    } else if d == 7 {
        "7"
    } else if d == 8 {
        "8"
    } else {
        "9"
    };
    assert(r@ =~= seq![digit(d as nat)]);
    r
}

/// Appends the decimal text of `n` to `out`.
pub fn push_decimal(out: &mut String, n: u128)
    ensures
        final(out)@ == old(out)@ + decimal(n as nat),
    decreases n,
{
    if n >= 10 {
        push_decimal(out, n / 10);
        out.append(digit_str(n % 10));
        assert(decimal(n as nat) == decimal((n / 10) as nat).push(digit((n % 10) as nat)));
        assert(final(out)@ =~= old(out)@ + decimal(n as nat));
    } else {
        out.append(digit_str(n));
    }
}

/// Decimal text of `n`.
pub fn decimal_string(n: u128) -> (r: String)
    ensures
        r@ == decimal(n as nat),
{
    let mut s = String::new();
    push_decimal(&mut s, n);
    assert(s@ =~= decimal(n as nat));
    s
}

/// Appends the decimal text of `i`, signed, to `out`.
pub fn push_signed(out: &mut String, i: i64)
    ensures
        final(out)@ == old(out)@ + signed_decimal(i as int),
{
    if i < 0 {
        proof {
            reveal_strlit("-");
        }
        out.append("-");
        let m: i128 = -(i as i128);
        push_decimal(out, m as u128);
        assert(final(out)@ =~= old(out)@ + signed_decimal(i as int));
    } else {
        push_decimal(out, i as u128);
    }
}

/// The link under `/proc/self/fd` that names what descriptor `fd` refers to.
pub open spec fn spec_fd_link_path(fd: int) -> Seq<char> {
    "/proc/self/fd/"@ + signed_decimal(fd)
}

pub fn fd_link_path(fd: i32) -> (r: String)
    ensures
        r@ == spec_fd_link_path(fd as int),
{
    let mut s = String::from_str("/proc/self/fd/");
    push_signed(&mut s, fd as i64);
    s
}

/// The two namespaces that the tracer joins.
#[derive(Debug, Clone, Copy, PartialEq, Eq)]
pub enum NamespaceKind {
    Pid,
    Mount,
}

/// The file name of a namespace under `/proc/<pid>/ns`.
pub open spec fn spec_ns_name(kind: NamespaceKind) -> Seq<char> {
    match kind {
        NamespaceKind::Pid => "pid"@,
        NamespaceKind::Mount => "mnt"@,
    }
}

/// The file that refers to namespace `kind` of process `pid`.
pub open spec fn spec_namespace_path(pid: Seq<char>, kind: NamespaceKind) -> Seq<char> {
    "/proc/"@ + pid + "/ns/"@ + spec_ns_name(kind)
}

pub fn namespace_path(pid: &str, kind: NamespaceKind) -> (r: String)
    ensures
        r@ == spec_namespace_path(pid@, kind),
{
    let mut s = String::from_str("/proc/");
    s.append(pid);
    s.append("/ns/");
    match kind {
        NamespaceKind::Pid => s.append("pid"),
        NamespaceKind::Mount => s.append("mnt"),
    }
    s
}

/// A lowercase hexadecimal digit, for `d < 16`.
pub open spec fn hex_digit(d: nat) -> char {
    seq!['0', '1', '2', '3', '4', '5', '6', '7', '8', '9', 'a', 'b', 'c', 'd', 'e', 'f'][d as int]
}

/// How one character stands inside a JSON string literal: `"` and `\` take
/// a backslash, the usual control characters their short escapes, the other
/// control characters a `\u00XX` escape, and everything else stands as it is.
pub open spec fn escape_char(c: char) -> Seq<char> {
    if c == '"' {
        seq!['\\', '"']
    } else if c == '\\' {
        seq!['\\', '\\']
    } else if c == '\x08' {
        seq!['\\', 'b']
    } else if c == '\t' {
        seq!['\\', 't']
    } else if c == '\n' {
        seq!['\\', 'n']
    } else if c == '\x0c' {
        seq!['\\', 'f']
    } else if c == '\r' {
        seq!['\\', 'r']
    } else if (c as u32) < 0x20 {
        seq!['\\', 'u', '0', '0', hex_digit((c as u32 / 16) as nat), hex_digit((c as u32 % 16) as nat)]
    } else {
        seq![c]
    }
}

/// The characters of `s`, each escaped for a JSON string literal.
pub open spec fn escaped(s: Seq<char>) -> Seq<char>
    decreases s.len(),
{
    if s.len() == 0 {
        Seq::empty()
    } else {
        escaped(s.drop_last()) + escape_char(s.last())
    }
}

/// The JSON string literal for `s`: its escaped characters in double quotes.
pub open spec fn json_quoted(s: Seq<char>) -> Seq<char> {
    seq!['"'] + escaped(s) + seq!['"']
}

#[verifier::external_type_specification]
#[verifier::external_body]
pub struct ExJsonError(serde_json::Error);

/// Relies on serde_json::to_string applied to a string: it writes the JSON
/// string literal (quoted, escaped with serde_json's escape table and compact
/// formatter) into a `Vec`, which cannot fail, so it always succeeds.
#[verifier::external_body]
fn quote_json(s: &str) -> (r: Result<String, serde_json::Error>)
    ensures
        r is Ok,
        match r {
            Ok(q) => q@ == json_quoted(s@),
            Err(_) => true,
        },
{
    serde_json::to_string(s)
}

/// The JSON object for one entry, given its path already quoted.
pub open spec fn entry_json(quoted: Seq<char>, size: u64, elapsed: u128) -> Seq<char> {
    "{\"path\":"@ + quoted + ",\"size\":"@ + decimal(size as nat) + ",\"elapsed\":"@ + decimal(
        elapsed as nat,
    ) + "}"@
}

/// The comma-separated objects for the entries `s`, with their paths quoted
/// as `quoted` gives them.
pub open spec fn entries_json(s: Seq<Entry>, quoted: Seq<Seq<char>>) -> Seq<char>
    decreases s.len(),
{
    if s.len() == 0 {
        Seq::empty()
    } else {
        let prev = entries_json(s.drop_last(), quoted);
        let obj = entry_json(quoted[s.len() - 1], s.last().1, s.last().2);
        if s.len() == 1 {
            obj
        } else {
            prev + ","@ + obj
        }
    }
}

/// The JSON array of the entries `s`, with their paths quoted as `quoted`
/// gives them.
pub open spec fn document_with(s: Seq<Entry>, quoted: Seq<Seq<char>>) -> Seq<char> {
    "["@ + entries_json(s, quoted) + "]"@
}

/// The JSON array of the entries `s`: one object per entry, in order, each
/// with its `path`, `size` and `elapsed` fields.
pub open spec fn document(s: Seq<Entry>) -> Seq<char> {
    document_with(s, s.map_values(|e: Entry| json_quoted(e.0)))
}

/// Writes the JSON array of `entries`, where `quoted[i]` is the JSON string
/// literal to use for the path of `entries[i]`.
pub fn render_document(entries: &Vec<EventInfo>, quoted: &Vec<String>) -> (r: String)
    requires
        quoted@.len() == entries@.len(),
    ensures
        r@ == document_with(
            entries@.map_values(|e: EventInfo| e@),
            quoted@.map_values(|q: String| q@),
        ),
{
    let ghost es = entries@.map_values(|e: EventInfo| e@);
    let ghost qs = quoted@.map_values(|q: String| q@);
    let mut out = String::from_str("[");
    let mut i: usize = 0;
    while i < entries.len()
        invariant
            i <= entries@.len(),
            quoted@.len() == entries@.len(),
            es == entries@.map_values(|e: EventInfo| e@),
            qs == quoted@.map_values(|q: String| q@),
            out@ == "["@ + entries_json(es.take(i as int), qs),
        decreases entries@.len() - i,
    {
        let ghost before = out@;
        if i > 0 {
            out.append(",");
        }
        out.append("{\"path\":");
        out.append(quoted[i].as_str());
        out.append(",\"size\":");
        push_decimal(&mut out, entries[i].size as u128);
        out.append(",\"elapsed\":");
        push_decimal(&mut out, entries[i].elapsed);
        out.append("}");
        proof {
            let t = es.take(i + 1);
            assert(t.drop_last() =~= es.take(i as int));
            assert(t.last() == es[i as int]);
            if i > 0 {
                assert(out@ =~= before + ","@ + entry_json(qs[i as int], es[i as int].1, es[i as int].2));
            } else {
                assert(out@ =~= before + entry_json(qs[i as int], es[i as int].1, es[i as int].2));
            }
        }
        i += 1;
    }
    assert(es.take(i as int) =~= es);
    out.append("]");
    out
}

/// Serializes `entries` as a JSON array, every path quoted by serde_json.
pub fn serialize_entries(entries: &Vec<EventInfo>) -> (r: String)
    ensures
        r@ == document(entries@.map_values(|e: EventInfo| e@)),
{
    let ghost es = entries@.map_values(|e: EventInfo| e@);
    let mut quoted: Vec<String> = Vec::new();
    let mut i: usize = 0;
    while i < entries.len()
        invariant
            i <= entries@.len(),
            es == entries@.map_values(|e: EventInfo| e@),
            quoted@.len() == i,
            forall|k: int| 0 <= k < i ==> #[trigger] quoted@[k]@ == json_quoted(es[k].0),
        decreases entries@.len() - i,
    {
        match quote_json(entries[i].path.as_str()) {
            Ok(q) => quoted.push(q),
            Err(_) => {
                proof {
                    assert(false);
                }
            },
        }
        i += 1;
    }
    let d = render_document(entries, &quoted);
    assert(quoted@.map_values(|q: String| q@) =~= es.map_values(|e: Entry| json_quoted(e.0)));
    d
}

} // verus!
