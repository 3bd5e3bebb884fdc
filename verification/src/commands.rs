//! The errors the front end receives: a message, and a localization code with named values
//! recovered from the message text.
use crate::text::{
    chars_of, contains_seq, find_seq, is_space, is_space_char, occurs_at, slice_chars, string_from_chars,
    str_eq,
};
use crate::runtime::{bind_error_text, BindErrorKind};
use vstd::prelude::*;

verus! {

/// An error as the front end receives it. The values are named, each name once.
#[derive(Clone, Debug)]
pub struct CommandError {
    pub code: String,
    pub message: String,
    pub values: Vec<(String, String)>,
}

/// The named values as texts.
pub open spec fn pairs_view(v: Seq<(String, String)>) -> Seq<(Seq<char>, Seq<char>)> {
    v.map_values(|p: (String, String)| (p.0@, p.1@))
}

impl CommandError {
    /// The value named `key`, if the error has one.
    pub fn value(&self, key: &str) -> (r: Option<String>)
        ensures
            match r {
                Some(v) => exists|k: int| 0 <= k < self.values@.len() && #[trigger] pairs_view(self.values@)[k] == (key@, v@),
                None => forall|k: int| 0 <= k < self.values@.len() ==> #[trigger] pairs_view(self.values@)[k].0 != key@,
            },
    {
        let mut i: usize = 0;
        while i < self.values.len()
            invariant
                i <= self.values@.len(),
                forall|k: int| 0 <= k < i ==> #[trigger] pairs_view(self.values@)[k].0 != key@,
            decreases self.values@.len() - i,
        {
            if str_eq(self.values[i].0.as_str(), key) {
                let v = self.values[i].1.clone();
                assert(pairs_view(self.values@)[i as int] == (key@, v@));
                return Some(v);
            }
            i = i + 1;
        }
        None
    }
}

/// The first position at which `p` occurs in `s`.
#[verifier::opaque]
pub open spec fn first_occurrence(s: Seq<char>, p: Seq<char>) -> Option<int> {
    if contains_seq(s, p) {
        Some(choose|at: int| occurs_at(s, p, at) && forall|k: int| 0 <= k < at ==> !occurs_at(s, p, k))
    } else {
        None
    }
}

proof fn lemma_first_occurrence(s: Seq<char>, p: Seq<char>, at: int)
    requires
        occurs_at(s, p, at),
        forall|k: int| 0 <= k < at ==> !occurs_at(s, p, k),
    ensures
        first_occurrence(s, p) == Some(at),
{
    reveal(first_occurrence);
    assert(contains_seq(s, p));
    let w = choose|w: int| occurs_at(s, p, w) && forall|k: int| 0 <= k < w ==> !occurs_at(s, p, k);
    if w < at {
        assert(!occurs_at(s, p, w));
    }
    if at < w {
        assert(!occurs_at(s, p, at));
    }
}

/// `str::split_once` with a text pattern: the text before its first occurrence and after it.
pub open spec fn split_once_text(s: Seq<char>, p: Seq<char>) -> Option<(Seq<char>, Seq<char>)> {
    match first_occurrence(s, p) {
        Some(at) => Some((s.take(at), s.skip(at + p.len()))),
        None => None,
    }
}

fn split_once_text_exec(s: &Vec<char>, p: &Vec<char>) -> (r: Option<(Vec<char>, Vec<char>)>)
    ensures
        match r {
            Some((a, b)) => split_once_text(s@, p@) == Some((a@, b@)),
            None => split_once_text(s@, p@) is None,
        },
{
    match find_seq(s, p) {
        None => {
            proof {
                reveal(first_occurrence);
            }
            None
        },
        Some(at) => {
            let n = s.len();
            proof {
                lemma_first_occurrence(s@, p@, at as int);
            }
            let a = slice_chars(s, 0, at);
            let b = slice_chars(s, at + p.len(), s.len());
            assert(a@ =~= s@.take(at as int));
            assert(b@ =~= s@.skip(at + p@.len()));
            Some((a, b))
        },
    }
}

/// A separator before the protocol name: `:` or white space.
pub open spec fn is_protocol_sep(c: char) -> bool {
    c == ':' || is_space(c)
}

/// The last piece of a text split at separators.
pub open spec fn last_piece(s: Seq<char>) -> Seq<char>
    decreases s.len(),
{
    if s.len() == 0 {
        s
    } else if is_protocol_sep(s.last()) {
        Seq::empty()
    } else {
        last_piece(s.drop_last()).push(s.last())
    }
}

/// `s` without the suffix `suf`, if it ends with it.
pub open spec fn strip_suffix(s: Seq<char>, suf: Seq<char>) -> Option<Seq<char>> {
    if suf.len() <= s.len() && s.skip(s.len() - suf.len()) == suf {
        Some(s.take(s.len() - suf.len()))
    } else {
        None
    }
}

/// The protocol and listen address of a listener error `message` built as
/// `<protocol><middle><listen><suffix>`; the protocol is the last word before `middle`.
pub open spec fn listener_error_spec(message: Seq<char>, middle: Seq<char>, suffix: Seq<char>) -> Option<(Seq<char>, Seq<char>)> {
    match split_once_text(message, middle) {
        None => None,
        Some((head, rest)) => match strip_suffix(rest, suffix) {
            None => None,
            Some(listen) => Some((last_piece(head), listen)),
        },
    }
}

fn last_piece_exec(s: &Vec<char>) -> (r: Vec<char>)
    ensures
        r@ == last_piece(s@),
{
    let mut start: usize = 0;
    let mut i: usize = 0;
    while i < s.len()
        invariant
            start <= i <= s@.len(),
            last_piece(s@.take(i as int)) == s@.subrange(start as int, i as int),
        decreases s@.len() - i,
    {
        assert(s@.take(i + 1).drop_last() =~= s@.take(i as int));
        let c = s[i];
        if c == ':' || is_space_char(c) {
            start = i + 1;
            assert(s@.subrange(start as int, i + 1) =~= Seq::<char>::empty());
        } else {
            assert(s@.subrange(start as int, i + 1) =~= s@.subrange(start as int, i as int).push(c));
        }
        i = i + 1;
    }
    assert(s@.take(i as int) =~= s@);
    slice_chars(s, start, s.len())
}

/// Reads the protocol and listen address from a listener error message.
pub fn parse_listener_error(message: &str, middle: &str, suffix: &str) -> (r: Option<(String, String)>)
    ensures
        match r {
            Some((p, l)) => listener_error_spec(message@, middle@, suffix@) == Some((p@, l@)),
            None => listener_error_spec(message@, middle@, suffix@) is None,
        },
{
    let m = chars_of(message);
    let mid = chars_of(middle);
    let suf = chars_of(suffix);
    let (head, rest) = match split_once_text_exec(&m, &mid) {
        None => return None,
        Some(x) => x,
    };
    if suf.len() > rest.len() {
        return None;
    }
    let tail = slice_chars(&rest, rest.len() - suf.len(), rest.len());
    assert(tail@ =~= rest@.skip(rest@.len() - suf@.len()));
    if !crate::text::chars_eq(&tail, &suf) {
        return None;
    }
    let listen = slice_chars(&rest, 0, rest.len() - suf.len());
    assert(listen@ =~= rest@.take(rest@.len() - suf@.len()));
    let protocol = last_piece_exec(&head);
    Some((string_from_chars(protocol.as_slice()), string_from_chars(listen.as_slice())))
}

/// The code of the five messages that map to a code without values.
pub open spec fn fixed_code_spec(message: Seq<char>) -> Option<Seq<char>> {
    if message == "server.listen is required"@ {
        Some("config.serverListenRequired"@)
    } else if message == "DNS service is not running"@ {
        Some("dns.serviceNotRunning"@)
    } else if message == "system DNS takeover is disabled"@ {
        Some("systemDns.takeoverDisabled"@)
    } else if message == "no network adapter is selected"@ {
        Some("systemDns.noAdapterSelected"@)
    } else if message == "target DNS server is empty"@ {
        Some("systemDns.emptyTargetServer"@)
    } else {
        None
    }
}

/// The protocol, address and reason of a bind failure message.
pub open spec fn bind_failed_spec(message: Seq<char>) -> Option<(Seq<char>, Seq<char>, Seq<char>)> {
    match split_once_text(message, " listen address "@) {
        None => None,
        Some((protocol, rest)) => match split_once_text(rest, " bind failed: "@) {
            None => None,
            Some((listen, reason)) => Some((protocol, listen, reason)),
        },
    }
}

/// The code and named values a message maps to: five fixed messages, `upstream not found:`
/// with the name, and the three listener errors with protocol and address (and the reason
/// of a bind failure); any other message is `command.unknown`.
pub open spec fn command_code_spec(message: Seq<char>) -> (Seq<char>, Seq<(Seq<char>, Seq<char>)>) {
    match fixed_code_spec(message) {
        Some(c) => (c, Seq::empty()),
        None => match strip_prefix(message, "upstream not found: "@) {
            Some(name) => ("dns.upstreamNotFound"@, seq![("name"@, name)]),
            None => match listener_error_spec(message, " listen address "@, " is already in use"@) {
                Some((p, l)) => ("dns.listenerAddressInUse"@, seq![("protocol"@, p), ("listen"@, l)]),
                None => match listener_error_spec(message, " listen address "@, " permission denied"@) {
                    Some((p, l)) => ("dns.listenerPermissionDenied"@, seq![("protocol"@, p), ("listen"@, l)]),
                    None => match bind_failed_spec(message) {
                        Some((p, l, r)) => (
                            "dns.listenerBindFailed"@,
                            seq![("protocol"@, p), ("listen"@, l), ("reason"@, r)],
                        ),
                        None => ("command.unknown"@, Seq::empty()),
                    },
                },
            },
        },
    }
}

/// `s` without the prefix `pre`, if it starts with it.
pub open spec fn strip_prefix(s: Seq<char>, pre: Seq<char>) -> Option<Seq<char>> {
    if pre.len() <= s.len() && s.take(pre.len() as int) == pre {
        Some(s.skip(pre.len() as int))
    } else {
        None
    }
}

fn text(s: &str) -> (r: String)
    ensures
        r@ == s@,
{
    String::from_str(s)
}

fn pair(k: &str, v: String) -> (r: (String, String))
    ensures
        r.0@ == k@,
        r.1@ == v@,
{
    (text(k), v)
}

fn fixed_code(message: &str) -> (r: Option<&'static str>)
    ensures
        match r {
            Some(c) => fixed_code_spec(message@) == Some(c@),
            None => fixed_code_spec(message@) is None,
        },
{
    if str_eq(message, "server.listen is required") {
        Some("config.serverListenRequired")
    } else if str_eq(message, "DNS service is not running") {
        Some("dns.serviceNotRunning")
    } else if str_eq(message, "system DNS takeover is disabled") {
        Some("systemDns.takeoverDisabled")
    } else if str_eq(message, "no network adapter is selected") {
        Some("systemDns.noAdapterSelected")
    } else if str_eq(message, "target DNS server is empty") {
        Some("systemDns.emptyTargetServer")
    } else {
        None
    }
}

fn strip_prefix_exec(message: &str, prefix: &str) -> (r: Option<String>)
    ensures
        match r {
            Some(v) => strip_prefix(message@, prefix@) == Some(v@),
            None => strip_prefix(message@, prefix@) is None,
        },
{
    let m = chars_of(message);
    let pre = chars_of(prefix);
    if crate::text::starts_with_chars(&m, &pre) {
        let name = slice_chars(&m, pre.len(), m.len());
        assert(name@ =~= m@.skip(pre@.len() as int));
        Some(string_from_chars(name.as_slice()))
    } else {
        None
    }
}

fn bind_failed(message: &str) -> (r: Option<(String, String, String)>)
    ensures
        match r {
            Some((p, l, x)) => bind_failed_spec(message@) == Some((p@, l@, x@)),
            None => bind_failed_spec(message@) is None,
        },
{
    let m = chars_of(message);
    let mid = chars_of(" listen address ");
    let (protocol, rest) = match split_once_text_exec(&m, &mid) {
        None => return None,
        Some(x) => x,
    };
    let bf = chars_of(" bind failed: ");
    match split_once_text_exec(&rest, &bf) {
        None => None,
        Some((listen, reason)) => Some((
            string_from_chars(protocol.as_slice()),
            string_from_chars(listen.as_slice()),
            string_from_chars(reason.as_slice()),
        )),
    }
}

/// The error the front end receives for a message.
#[verifier::rlimit(40)]
pub fn command_error_from_message(message: &str) -> (e: CommandError)
    ensures
        e.message@ == message@,
        (e.code@, pairs_view(e.values@)) == command_code_spec(message@),
{
    let mut values: Vec<(String, String)> = Vec::new();
    let code: &str = match fixed_code(message) {
        Some(c) => c,
        None => match strip_prefix_exec(message, "upstream not found: ") {
            Some(name) => {
                values.push(pair("name", name));
                "dns.upstreamNotFound"
            },
            None => match parse_listener_error(message, " listen address ", " is already in use") {
                Some((p, l)) => {
                    values.push(pair("protocol", p));
                    values.push(pair("listen", l));
                    "dns.listenerAddressInUse"
                },
                None => match parse_listener_error(message, " listen address ", " permission denied") {
                    Some((p, l)) => {
                        values.push(pair("protocol", p));
                        values.push(pair("listen", l));
                        "dns.listenerPermissionDenied"
                    },
                    None => match bind_failed(message) {
                        Some((p, l, r)) => {
                            values.push(pair("protocol", p));
                            values.push(pair("listen", l));
                            values.push(pair("reason", r));
                            "dns.listenerBindFailed"
                        },
                        None => "command.unknown",
                    },
                },
            },
        },
    };
    let e = CommandError { code: text(code), message: text(message), values };
    assert(pairs_view(e.values@) =~= command_code_spec(message@).1);
    e
}

proof fn lemma_last_piece_plain(s: Seq<char>)
    requires
        forall|i: int| 0 <= i < s.len() ==> !is_protocol_sep(#[trigger] s[i]),
    ensures
        last_piece(s) == s,
    decreases s.len(),
{
    if s.len() > 0 {
        lemma_last_piece_plain(s.drop_last());
        assert(s.drop_last().push(s.last()) =~= s);
    }
}

/// The code of a listener bind error that the address is in use or was refused.
pub open spec fn bind_error_code(kind: BindErrorKind) -> Seq<char> {
    match kind {
        BindErrorKind::AddrInUse => "dns.listenerAddressInUse"@,
        BindErrorKind::PermissionDenied => "dns.listenerPermissionDenied"@,
        BindErrorKind::Other => "dns.listenerBindFailed"@,
    }
}

/// The explanation of a bind that failed because the address is in use, or because
/// permission was denied, reads back as the front end receives it: the matching code, with
/// the protocol and the listen address as its values. The protocol is one word, without
/// white space or `:`.
pub proof fn law_bind_error_reads_back(protocol: Seq<char>, listen: Seq<char>, kind: BindErrorKind, detail: Seq<char>)
    requires
        protocol.len() > 0,
        forall|i: int| 0 <= i < protocol.len() ==> !is_protocol_sep(#[trigger] protocol[i]),
        kind != BindErrorKind::Other,
    ensures
        command_code_spec(bind_error_text(protocol, listen, kind, detail)) == (
            bind_error_code(kind),
            seq![("protocol"@, protocol), ("listen"@, listen)],
        ),
{
    let p = protocol;
    let mid = " listen address "@;
    let in_use = " is already in use"@;
    let denied = " permission denied"@;
    let suf = if kind == BindErrorKind::AddrInUse { in_use } else { denied };
    let m = bind_error_text(p, listen, kind, detail);
    reveal_strlit(" listen address ");
    reveal_strlit(" is already in use");
    reveal_strlit(" permission denied");
    assert(m =~= p + mid + listen + suf);
    assert(forall|k: int| 0 <= k < p.len() ==> m[k] == p[k]);
    assert(forall|j: int| 0 <= j < mid.len() ==> m[p.len() + j] == mid[j]);
    let n = m.len();
    assert(n >= 18);
    assert(forall|j: int| 0 <= j < 18 ==> m[n - 18 + j] == suf[j]);
    // None of the five fixed messages.
    reveal_strlit("server.listen is required");
    reveal_strlit("DNS service is not running");
    reveal_strlit("system DNS takeover is disabled");
    reveal_strlit("no network adapter is selected");
    reveal_strlit("target DNS server is empty");
    assert(m[n - 1] == suf[17]);
    assert(m[n - 6] == suf[12]);
    assert(fixed_code_spec(m) is None);
    // Not an unknown upstream.
    let u = "upstream not found: "@;
    reveal_strlit("upstream not found: ");
    if u.len() <= m.len() && m.take(u.len() as int) == u {
        if p.len() < 8 {
            assert(m.take(20)[p.len() as int] == u[p.len() as int]);
        } else if p.len() > 8 {
            assert(m.take(20)[8] == u[8]);
            assert(!is_protocol_sep(p[8]));
        } else {
            assert(m.take(20)[9] == u[9]);
        }
        assert(false);
    }
    assert(strip_prefix(m, u) is None);
    // The listen address follows the first " listen address ", right after the protocol.
    assert(occurs_at(m, mid, p.len() as int)) by {
        assert(m.subrange(p.len() as int, (p.len() + mid.len()) as int) =~= mid);
    }
    assert forall|k: int| 0 <= k < p.len() implies !occurs_at(m, mid, k) by {
        if occurs_at(m, mid, k) {
            assert(m.subrange(k, k + mid.len())[0] == m[k]);
            assert(!is_protocol_sep(p[k]));
        }
    }
    lemma_first_occurrence(m, mid, p.len() as int);
    assert(m.take(p.len() as int) =~= p);
    let rest = m.skip((p.len() + mid.len()) as int);
    assert(rest =~= listen + suf);
    assert(rest.skip(rest.len() - 18) =~= suf);
    assert(rest.take(rest.len() - 18) =~= listen);
    lemma_last_piece_plain(p);
    if kind == BindErrorKind::PermissionDenied {
        assert(rest.skip(rest.len() - 18)[1] != in_use[1]);
        assert(strip_suffix(rest, in_use) is None);
    }
}

} // verus!
