//! The system DNS takeover on Windows: the adapters as PowerShell lists them
//! (`Get-DnsClientServerAddress` as JSON, one row per interface and address family), and
//! the PowerShell script that sets or resets an interface's DNS servers.
use crate::desktop::{texts_of, SystemDnsAdapter};
use crate::system_dns::{is_virtual_spec, virtual_adapter};
use crate::text::{append_str, chars_of, decimal, decimal_string, string_from_chars, trim, trim_str};
use vstd::prelude::*;

verus! {

/// One row of `Get-DnsClientServerAddress`, as the JSON names it.
#[derive(Clone, Debug)]
pub struct WindowsDnsRow {
    pub interface_index: u32,
    pub interface_alias: String,
    pub interface_guid: Option<String>,
    /// 2 for IPv4, 23 for IPv6.
    pub address_family: u8,
    pub server_addresses: Option<Vec<String>>,
}

/// The IPv4 address family in PowerShell's rows.
pub const ADDRESS_FAMILY_IPV4: u8 = 2;

/// The rows that describe IPv4 settings, in order.
pub open spec fn ipv4_rows(rows: Seq<WindowsDnsRow>) -> Seq<WindowsDnsRow> {
    rows.filter(|r: WindowsDnsRow| r.address_family == ADDRESS_FAMILY_IPV4)
}

/// The adapter id of a row: its interface GUID when it has a non-empty one, else its
/// interface index in decimal.
pub open spec fn row_id(r: WindowsDnsRow) -> Seq<char> {
    match r.interface_guid {
        Some(g) => if g@.len() > 0 { g@ } else { decimal(r.interface_index as nat) },
        None => decimal(r.interface_index as nat),
    }
}

/// Whether an adapter is the one a row describes: named by its alias, of kind `windows`,
/// status `unknown`, with the row's DNS servers (none when the row has none), its
/// interface index, and nothing selected, managed or remembered.
pub open spec fn adapter_of_row(a: SystemDnsAdapter, r: WindowsDnsRow) -> bool {
    &&& a.id@ == row_id(r)
    &&& a.name@ == r.interface_alias@
    &&& a.description@ == r.interface_alias@
    &&& a.status@ == "unknown"@
    &&& a.kind@ == "windows"@
    &&& texts_of(a.dns_servers@) == match r.server_addresses {
        Some(v) => texts_of(v@),
        None => Seq::empty(),
    }
    &&& !a.selected
    &&& !a.managed
    &&& a.virtual_adapter == is_virtual_spec(r.interface_alias@, Seq::empty())
    &&& a.interface_index == Some(r.interface_index)
    &&& a.original_dns is None
    &&& a.last_applied_at is None
    &&& a.last_restored_at is None
    &&& a.last_error is None
}

fn copy_strings(v: &Vec<String>) -> (r: Vec<String>)
    ensures
        texts_of(r@) == texts_of(v@),
{
    let mut r: Vec<String> = Vec::new();
    let mut i: usize = 0;
    while i < v.len()
        invariant
            i <= v@.len(),
            texts_of(r@) == texts_of(v@).take(i as int),
        decreases v@.len() - i,
    {
        let ghost before = texts_of(r@);
        r.push(v[i].clone());
        proof {
            assert(texts_of(r@) =~= before.push(v@[i as int]@));
            assert(texts_of(v@).take(i + 1) =~= texts_of(v@).take(i as int).push(v@[i as int]@));
        }
        i = i + 1;
    }
    assert(texts_of(v@).take(v@.len() as int) =~= texts_of(v@));
    r
}

fn adapter_from_row(r: &WindowsDnsRow) -> (a: SystemDnsAdapter)
    ensures
        adapter_of_row(a, *r),
{
    let id = match &r.interface_guid {
        Some(g) => if g.as_str().is_empty() {
            decimal_string(r.interface_index as u64)
        } else {
            g.clone()
        },
        None => decimal_string(r.interface_index as u64),
    };
    let dns_servers = match &r.server_addresses {
        Some(v) => copy_strings(v),
        None => Vec::new(),
    };
    proof {
        assert(texts_of(Seq::<String>::empty()) =~= Seq::<Seq<char>>::empty());
    }
    let status = string_from_chars(&['u', 'n', 'k', 'n', 'o', 'w', 'n']);
    let kind = string_from_chars(&['w', 'i', 'n', 'd', 'o', 'w', 's']);
    proof {
        reveal_strlit("unknown");
        reveal_strlit("windows");
    }
    assert(status@ =~= "unknown"@);
    assert(kind@ =~= "windows"@);
    let virt = virtual_adapter(r.interface_alias.as_str(), "");
    proof {
        reveal_strlit("");
    }
    SystemDnsAdapter {
        id,
        name: r.interface_alias.clone(),
        description: r.interface_alias.clone(),
        status,
        kind,
        dns_servers,
        selected: false,
        managed: false,
        virtual_adapter: virt,
        interface_index: Some(r.interface_index),
        original_dns: None,
        last_applied_at: None,
        last_restored_at: None,
        last_error: None,
    }
}

/// The adapters of PowerShell's rows: one per IPv4 row, in order.
pub fn windows_adapters(rows: &Vec<WindowsDnsRow>) -> (r: Vec<SystemDnsAdapter>)
    ensures
        r@.len() == ipv4_rows(rows@).len(),
        forall|i: int| 0 <= i < r@.len() ==> adapter_of_row(#[trigger] r@[i], ipv4_rows(rows@)[i]),
{
    let mut out: Vec<SystemDnsAdapter> = Vec::new();
    let mut i: usize = 0;
    assert(rows@.take(0) =~= Seq::<WindowsDnsRow>::empty());
    while i < rows.len()
        invariant
            i <= rows@.len(),
            out@.len() == ipv4_rows(rows@.take(i as int)).len(),
            forall|k: int| 0 <= k < out@.len() ==> adapter_of_row(#[trigger] out@[k], ipv4_rows(rows@.take(i as int))[k]),
        decreases rows@.len() - i,
    {
        let ghost pre = rows@.take(i as int);
        assert(rows@.take(i + 1) =~= pre.push(rows@[i as int]));
        proof {
            pre.lemma_filter_push(rows@[i as int], |r: WindowsDnsRow| r.address_family == ADDRESS_FAMILY_IPV4);
        }
        if rows[i].address_family == ADDRESS_FAMILY_IPV4 {
            let a = adapter_from_row(&rows[i]);
            out.push(a);
        }
        i = i + 1;
    }
    assert(rows@.take(rows@.len() as int) =~= rows@);
    out
}

/// How the JSON text of PowerShell's output is to be read.
#[derive(Clone, Copy, Debug, PartialEq, Eq, Structural)]
pub enum JsonShape {
    /// Nothing but blanks: no adapters.
    Empty,
    /// A JSON array of rows.
    List,
    /// A single row object.
    Single,
}

/// The trimmed text and how to read it: an array when it starts with `[`.
pub fn adapter_json_shape(raw: &str) -> (r: (JsonShape, String))
    ensures
        r.1@ == trim(raw@),
        r.0 == if trim(raw@).len() == 0 {
            JsonShape::Empty
        } else if trim(raw@)[0] == '[' {
            JsonShape::List
        } else {
            JsonShape::Single
        },
{
    let t = trim_str(raw);
    let c = chars_of(t.as_str());
    if c.len() == 0 {
        (JsonShape::Empty, t)
    } else if c[0] == '[' {
        (JsonShape::List, t)
    } else {
        (JsonShape::Single, t)
    }
}

/// The lower-case hexadecimal digit of a value below 16.
pub open spec fn hex_digit(n: nat) -> char {
    if n < 10 {
        (('0' as nat) + n) as char
    } else {
        (('a' as nat) + n - 10) as char
    }
}

/// The escape of one character inside a JSON string, as `serde_json` writes it: `"` and
/// `\` and the control characters escaped, the short forms for backspace, tab, line
/// feed, form feed and carriage return, `\u00xx` for the other control characters.
pub open spec fn json_escape_char(c: char) -> Seq<char> {
    if c == '"' {
        seq!['\\', '"']
    } else if c == '\\' {
        seq!['\\', '\\']
    } else if c == '\x08' {
        seq!['\\', 'b']
    } else if c == '\t' {
        seq!['\\', 't']
    } else if c == '\n' {
        seq!['\\', 'n']
    } else if c == '\x0c' {
        seq!['\\', 'f']
    } else if c == '\r' {
        seq!['\\', 'r']
    } else if (c as nat) < 0x20 {
        seq!['\\', 'u', '0', '0', hex_digit((c as nat) / 16), hex_digit((c as nat) % 16)]
    } else {
        seq![c]
    }
}

/// A text as a JSON string.
pub open spec fn json_escape(s: Seq<char>) -> Seq<char>
    decreases s.len(),
{
    if s.len() == 0 {
        Seq::empty()
    } else {
        json_escape(s.drop_last()) + json_escape_char(s.last())
    }
}

/// The items of a JSON array of strings, separated by commas.
pub open spec fn json_items(items: Seq<Seq<char>>) -> Seq<char>
    decreases items.len(),
{
    if items.len() == 0 {
        Seq::empty()
    } else if items.len() == 1 {
        seq!['"'] + json_escape(items[0]) + seq!['"']
    } else {
        json_items(items.drop_last()) + seq![','] + seq!['"'] + json_escape(items.last()) + seq!['"']
    }
}

/// A list of texts as a compact JSON array of strings.
pub open spec fn json_string_array(items: Seq<Seq<char>>) -> Seq<char> {
    seq!['['] + json_items(items) + seq![']']
}

/// `serde_json::to_string` on a list of strings: a compact JSON array whose strings are
/// escaped as `json_escape_char` says (the escape table of `serde_json`'s serializer).
/// Serializing a list of strings does not fail; an error would give the empty text.
#[verifier::external_body]
fn json_string_list(items: &Vec<String>) -> (r: String)
    ensures
        r@ == json_string_array(texts_of(items@)),
{
    serde_json::to_string(items).unwrap_or_default()
}

/// The lines that make PowerShell read and write UTF-8.
pub open spec fn utf8_preamble() -> Seq<char> {
    "\n[Console]::OutputEncoding = [System.Text.UTF8Encoding]::new($false)\n$OutputEncoding = [System.Text.UTF8Encoding]::new($false)\n"@
}

/// The script that gives an interface the DNS servers `servers`, or, with none, resets
/// it to the servers it gets automatically; the servers are handed over as JSON.
pub open spec fn dns_script_spec(interface_index: u32, servers: Seq<Seq<char>>) -> Seq<char> {
    if servers.len() == 0 {
        utf8_preamble() + "Set-DnsClientServerAddress -InterfaceIndex "@ + decimal(interface_index as nat)
            + " -ResetServerAddresses\n"@
    } else {
        utf8_preamble() + "$servers = ConvertFrom-Json -InputObject '"@ + json_string_array(servers)
            + "'\nSet-DnsClientServerAddress -InterfaceIndex "@ + decimal(interface_index as nat)
            + " -ServerAddresses $servers\n"@
    }
}

/// Builds the PowerShell script that sets (or, with no servers, resets) the DNS servers
/// of an interface.
pub fn set_dns_script(interface_index: u32, servers: &Vec<String>) -> (s: String)
    ensures
        s@ == dns_script_spec(interface_index, texts_of(servers@)),
{
    let mut out: Vec<char> = Vec::new();
    append_str(
        &mut out,
        "\n[Console]::OutputEncoding = [System.Text.UTF8Encoding]::new($false)\n$OutputEncoding = [System.Text.UTF8Encoding]::new($false)\n",
    );
    let index = decimal_string(interface_index as u64);
    if servers.len() == 0 {
        append_str(&mut out, "Set-DnsClientServerAddress -InterfaceIndex ");
        append_str(&mut out, index.as_str());
        append_str(&mut out, " -ResetServerAddresses\n");
    } else {
        let json = json_string_list(servers);
        append_str(&mut out, "$servers = ConvertFrom-Json -InputObject '");
        append_str(&mut out, json.as_str());
        append_str(&mut out, "'\nSet-DnsClientServerAddress -InterfaceIndex ");
        append_str(&mut out, index.as_str());
        append_str(&mut out, " -ServerAddresses $servers\n");
    }
    string_from_chars(out.as_slice())
}

} // verus!
