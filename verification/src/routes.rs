//! Route rules (`exact:`, `suffix:` and `wildcard:` domains mapped to upstream names) and
//! the choice of upstreams for a query: an exact rule first, then the suffix or wildcard
//! rule that matches the most labels of the domain, else the defaults.
use crate::text::{
    chars_eq, chars_of, count_char, count_char_chars, split_all, split_chars, split_once,
    split_once_chars, string_from_chars, trim, trim_chars,
};
use crate::wire::{normalize_domain, normalize_domain_spec, WireError};
use crate::text::{decimal, decimal_string};
use crate::text::{debug_quoted, debug_text};
use vstd::prelude::*;
use vstd::utf8::*;

verus! {

/// The three kinds of route rule.
#[derive(Clone, Copy, Debug, PartialEq, Eq, Structural)]
pub enum MatchType {
    Exact,
    Suffix,
    Wildcard,
}

/// One compiled rule: its id (its position in the rule list, from 1), its normalized
/// domain (for a wildcard rule, without the leading `*.`) and its upstream names.
#[derive(Clone, Debug)]
pub struct RouteEntry {
    pub id: i32,
    pub domain: String,
    pub upstreams: Vec<String>,
}

/// A route entry as values.
pub struct RouteView {
    pub id: i32,
    pub domain: Seq<char>,
    pub upstreams: Seq<Seq<char>>,
}

/// The names in a list of strings.
pub open spec fn names_view(v: Seq<String>) -> Seq<Seq<char>> {
    v.map_values(|s: String| s@)
}

impl View for RouteEntry {
    type V = RouteView;

    open spec fn view(&self) -> RouteView {
        RouteView { id: self.id, domain: self.domain@, upstreams: names_view(self.upstreams@) }
    }
}

/// The entries of a list, as values.
pub open spec fn entries_view(v: Seq<RouteEntry>) -> Seq<RouteView> {
    v.map_values(|e: RouteEntry| e@)
}

/// The suffix or wildcard rules, keyed by their domain labels read from the right.
#[derive(Clone, Debug)]
pub struct RouteTrie {
    entries: Vec<RouteEntry>,
}

/// Compiled rules.
#[derive(Clone, Debug)]
pub struct Routes {
    exact: Vec<RouteEntry>,
    suffix: RouteTrie,
    wildcard: RouteTrie,
}

/// Compiled rules as values.
pub struct RouteTable {
    pub exact: Seq<RouteView>,
    pub suffix: Seq<RouteView>,
    pub wildcard: Seq<RouteView>,
}

impl View for RouteTrie {
    type V = Seq<RouteView>;

    closed spec fn view(&self) -> Seq<RouteView> {
        entries_view(self.entries@)
    }
}

impl View for Routes {
    type V = RouteTable;

    closed spec fn view(&self) -> RouteTable {
        RouteTable { exact: entries_view(self.exact@), suffix: self.suffix@, wildcard: self.wildcard@ }
    }
}

/// The labels of a domain, split at every dot.
pub open spec fn labels(d: Seq<char>) -> Seq<Seq<char>> {
    split_all(d, '.')
}

/// Whether a rule domain covers a query domain: its labels are the last labels of the
/// query; without `include_exact` the query must have more labels than the rule.
pub open spec fn covers(rule: Seq<char>, query: Seq<char>, include_exact: bool) -> bool {
    let lr = labels(rule);
    let lq = labels(query);
    &&& lr.len() <= lq.len()
    &&& lq.skip(lq.len() - lr.len()) == lr
    &&& include_exact || lr.len() < lq.len()
}

/// Among the first `k` entries, the position of the covering entry with the most labels
/// (the earliest of equals).
pub open spec fn best_cover(entries: Seq<RouteView>, query: Seq<char>, include_exact: bool, k: int) -> Option<int>
    decreases k,
{
    if k <= 0 {
        None
    } else {
        let prev = best_cover(entries, query, include_exact, k - 1);
        let e = entries[k - 1];
        if covers(e.domain, query, include_exact) && (prev is None || labels(e.domain).len()
            > labels(entries[prev->Some_0].domain).len()) {
            Some(k - 1)
        } else {
            prev
        }
    }
}

/// The entry of a trie that matches the most labels of the query.
pub open spec fn longest_match_spec(entries: Seq<RouteView>, query: Seq<char>, include_exact: bool) -> Option<int> {
    best_cover(entries, query, include_exact, entries.len() as int)
}

pub proof fn lemma_best_cover_props(entries: Seq<RouteView>, query: Seq<char>, include_exact: bool, k: int)
    requires
        0 <= k <= entries.len(),
    ensures
        best_cover(entries, query, include_exact, k) matches Some(i) ==> 0 <= i < k && covers(
            entries[i].domain,
            query,
            include_exact,
        ) && forall|j: int|
            0 <= j < k && covers(entries[j].domain, query, include_exact) ==> labels(
                #[trigger] entries[j].domain,
            ).len() <= labels(entries[i].domain).len(),
        best_cover(entries, query, include_exact, k) is None ==> forall|j: int|
            0 <= j < k ==> !covers(#[trigger] entries[j].domain, query, include_exact),
    decreases k,
{
    if k > 0 {
        lemma_best_cover_props(entries, query, include_exact, k - 1);
    }
}

/// Whether two label lists end the same way: `short` is the tail of `long`.
fn labels_tail_eq(long: &Vec<Vec<char>>, short: &Vec<Vec<char>>) -> (b: bool)
    requires
        short@.len() <= long@.len(),
    ensures
        b == (long@.map_values(|x: Vec<char>| x@).skip(long@.len() - short@.len())
            == short@.map_values(|x: Vec<char>| x@)),
{
    let off = long.len() - short.len();
    let ghost lv = long@.map_values(|x: Vec<char>| x@);
    let ghost sv = short@.map_values(|x: Vec<char>| x@);
    let mut i: usize = 0;
    while i < short.len()
        invariant
            off == long@.len() - short@.len(),
            off + short@.len() == long.len(),
            short@.len() <= long@.len(),
            lv == long@.map_values(|x: Vec<char>| x@),
            sv == short@.map_values(|x: Vec<char>| x@),
            i <= short@.len(),
            forall|j: int| 0 <= j < i ==> lv[off + j] == sv[j],
        decreases short@.len() - i,
    {
        if !chars_eq(&long[off + i], &short[i]) {
            assert(lv.skip(off as int)[i as int] != sv[i as int]);
            return false;
        }
        i = i + 1;
    }
    assert(lv.skip(off as int) =~= sv);
    true
}

impl RouteTrie {
    pub fn new() -> (t: RouteTrie)
        ensures
            t@ == Seq::<RouteView>::empty(),
    {
        let t = RouteTrie { entries: Vec::new() };
        assert(t@ =~= Seq::<RouteView>::empty());
        t
    }

    /// Puts `entry` under `domain`, replacing the entry with the same domain.
    pub fn insert(&mut self, domain: &str, entry: RouteEntry)
        requires
            entry.domain@ == domain@,
        ensures
            match exact_index(old(self)@, domain@) {
                Some(i) => final(self)@ == old(self)@.update(i, entry@),
                None => final(self)@ == old(self)@.push(entry@),
            },
    {
        let d = chars_of(domain);
        let mut i: usize = 0;
        while i < self.entries.len()
            invariant
                self.entries@ == old(self).entries@,
                d@ == domain@,
                i <= self.entries@.len(),
                forall|j: int| 0 <= j < i ==> self.entries@[j].domain@ != domain@,
            decreases self.entries@.len() - i,
        {
            let e = chars_of(self.entries[i].domain.as_str());
            if chars_eq(&e, &d) {
                proof {
                    assert forall|j: int| 0 <= j < i implies old(self)@[j].domain != domain@ by {
                        assert(self.entries@[j].domain@ != domain@);
                    }
                    lemma_exact_index(old(self)@, domain@, i as int);
                }
                self.entries.set(i, entry);
                proof {
                    assert(self@ =~= old(self)@.update(i as int, entry@));
                }
                return ;
            }
            i = i + 1;
        }
        assert(!(exists|k: int| 0 <= k < old(self)@.len() && #[trigger] old(self)@[k].domain
            == domain@)) by {
            assert forall|k: int| 0 <= k < old(self)@.len() implies #[trigger] old(self)@[k].domain
                != domain@ by {
                assert(self.entries@[k].domain@ != domain@);
            }
        }
        self.entries.push(entry);
        assert(self@ =~= old(self)@.push(entry@));
    }

    /// The entry that matches the most labels of `domain`; with `include_exact` unset the
    /// domain itself does not match.
    pub fn longest_match(&self, domain: &str, include_exact: bool) -> (r: Option<&RouteEntry>)
        ensures
            match longest_match_spec(self@, domain@, include_exact) {
                Some(i) => r matches Some(e) && e@ == self@[i],
                None => r is None,
            },
    {
        let d = chars_of(domain);
        let dl = split_chars(&d, '.');
        let mut best: Option<usize> = None;
        let mut best_len: usize = 0;
        let mut i: usize = 0;
        while i < self.entries.len()
            invariant
                d@ == domain@,
                dl@.map_values(|x: Vec<char>| x@) == labels(domain@),
                i <= self.entries@.len(),
                best matches Some(k) ==> k < i && best_cover(self@, domain@, include_exact, i as int)
                    == Some(k as int) && best_len == labels(self@[k as int].domain).len(),
                best is None ==> best_cover(self@, domain@, include_exact, i as int) is None,
            decreases self.entries@.len() - i,
        {
            let e = chars_of(self.entries[i].domain.as_str());
            let el = split_chars(&e, '.');
            assert(self@[i as int].domain == e@);
            let matched = el.len() <= dl.len() && labels_tail_eq(&dl, &el) && (include_exact
                || el.len() < dl.len());
            assert(matched == covers(self@[i as int].domain, domain@, include_exact));
            if matched && (best.is_none() || el.len() > best_len) {
                best = Some(i);
                best_len = el.len();
            }
            i = i + 1;
        }
        match best {
            Some(k) => Some(&self.entries[k]),
            None => None,
        }
    }
}

/// The route chosen for a query domain (already normalized): an exact rule for the domain,
/// else the longer-domained of the best suffix rule and the best wildcard rule (the
/// wildcard on a tie), else id 0 and the defaults.
pub open spec fn select_spec(t: RouteTable, domain: Seq<char>, defaults: Seq<Seq<char>>) -> (i32, Seq<Seq<char>>) {
    let ex = exact_index(t.exact, domain);
    if ex is Some {
        (t.exact[ex->Some_0].id, t.exact[ex->Some_0].upstreams)
    } else {
        let s = longest_match_spec(t.suffix, domain, true);
        let w = longest_match_spec(t.wildcard, domain, false);
        match (s, w) {
            (Some(a), Some(b)) => if byte_len(t.suffix[a].domain) > byte_len(t.wildcard[b].domain) {
                (t.suffix[a].id, t.suffix[a].upstreams)
            } else {
                (t.wildcard[b].id, t.wildcard[b].upstreams)
            },
            (Some(a), None) => (t.suffix[a].id, t.suffix[a].upstreams),
            (None, Some(b)) => (t.wildcard[b].id, t.wildcard[b].upstreams),
            (None, None) => (0, defaults),
        }
    }
}

/// The length in bytes of a text, as `str::len` gives it.
pub open spec fn byte_len(s: Seq<char>) -> usize {
    encode_utf8(s).len() as usize
}

/// The position of the first exact rule for the domain.
pub open spec fn exact_index(exact: Seq<RouteView>, domain: Seq<char>) -> Option<int> {
    if exists|i: int| 0 <= i < exact.len() && #[trigger] exact[i].domain == domain {
        Some(
            choose|i: int|
                0 <= i < exact.len() && #[trigger] exact[i].domain == domain && forall|j: int|
                    0 <= j < i ==> exact[j].domain != domain,
        )
    } else {
        None
    }
}

/// Whether a rule covers a query domain and has the most labels among the rules of its
/// list that cover it.
pub open spec fn longest_cover(entries: Seq<RouteView>, i: int, domain: Seq<char>, include_exact: bool) -> bool {
    &&& 0 <= i < entries.len()
    &&& covers(entries[i].domain, domain, include_exact)
    &&& forall|j: int|
        0 <= j < entries.len() && covers(#[trigger] entries[j].domain, domain, include_exact) ==> labels(
            entries[j].domain,
        ).len() <= labels(entries[i].domain).len()
}

/// How a query domain picks its route: the first exact rule for the domain when there is
/// one; else a suffix rule (which may equal the domain) or a wildcard rule (which must be
/// shorter) that covers the domain with the most labels of its kind; else route 0 with the
/// default upstreams.
pub proof fn law_select_prefers_exact_then_longest(t: RouteTable, domain: Seq<char>, defaults: Seq<Seq<char>>)
    ensures
        (exists|i: int| 0 <= i < t.exact.len() && #[trigger] t.exact[i].domain == domain) ==> exists|i: int|
            0 <= i < t.exact.len() && #[trigger] t.exact[i].domain == domain && (forall|j: int|
                0 <= j < i ==> t.exact[j].domain != domain) && select_spec(t, domain, defaults) == (
                t.exact[i].id,
                t.exact[i].upstreams,
            ),
        (forall|i: int| 0 <= i < t.exact.len() ==> #[trigger] t.exact[i].domain != domain) ==> {
            ||| exists|a: int|
                longest_cover(t.suffix, a, domain, true) && select_spec(t, domain, defaults) == (
                    t.suffix[a].id,
                    t.suffix[a].upstreams,
                )
            ||| exists|b: int|
                longest_cover(t.wildcard, b, domain, false) && select_spec(t, domain, defaults) == (
                    t.wildcard[b].id,
                    t.wildcard[b].upstreams,
                )
            ||| (forall|j: int| 0 <= j < t.suffix.len() ==> !covers(#[trigger] t.suffix[j].domain, domain, true))
                && (forall|j: int|
                0 <= j < t.wildcard.len() ==> !covers(#[trigger] t.wildcard[j].domain, domain, false))
                && select_spec(t, domain, defaults) == (0i32, defaults)
        },
{
    lemma_best_cover_props(t.suffix, domain, true, t.suffix.len() as int);
    lemma_best_cover_props(t.wildcard, domain, false, t.wildcard.len() as int);
    if exists|i: int| 0 <= i < t.exact.len() && #[trigger] t.exact[i].domain == domain {
        let w = choose|i: int| 0 <= i < t.exact.len() && #[trigger] t.exact[i].domain == domain;
        lemma_first_exact(t.exact, domain, w);
        let k = choose|k: int|
            0 <= k < t.exact.len() && #[trigger] t.exact[k].domain == domain && forall|j: int|
                0 <= j < k ==> t.exact[j].domain != domain;
        lemma_exact_index(t.exact, domain, k);
    } else {
        assert(exact_index(t.exact, domain) is None);
        let s = longest_match_spec(t.suffix, domain, true);
        let w = longest_match_spec(t.wildcard, domain, false);
        match (s, w) {
            (Some(a), Some(b)) => {
                assert(longest_cover(t.suffix, a, domain, true));
                assert(longest_cover(t.wildcard, b, domain, false));
            },
            (Some(a), None) => {
                assert(longest_cover(t.suffix, a, domain, true));
            },
            (None, Some(b)) => {
                assert(longest_cover(t.wildcard, b, domain, false));
            },
            (None, None) => {},
        }
    }
}

/// With no exact rule for the domain, where both a suffix rule and a wildcard rule cover it,
/// the longest covering rule of each kind is weighed: the suffix rule wins only when its
/// domain is longer in bytes; the wildcard rule wins a tie.
pub proof fn law_select_wildcard_wins_ties(t: RouteTable, domain: Seq<char>, defaults: Seq<Seq<char>>)
    requires
        forall|i: int| 0 <= i < t.exact.len() ==> #[trigger] t.exact[i].domain != domain,
        exists|j: int| 0 <= j < t.suffix.len() && covers(#[trigger] t.suffix[j].domain, domain, true),
        exists|j: int| 0 <= j < t.wildcard.len() && covers(#[trigger] t.wildcard[j].domain, domain, false),
    ensures
        exists|a: int, b: int|
            longest_cover(t.suffix, a, domain, true) && longest_cover(t.wildcard, b, domain, false)
                && select_spec(t, domain, defaults) == if byte_len(t.suffix[a].domain) > byte_len(
                t.wildcard[b].domain,
            ) {
                (t.suffix[a].id, t.suffix[a].upstreams)
            } else {
                (t.wildcard[b].id, t.wildcard[b].upstreams)
            },
{
    lemma_best_cover_props(t.suffix, domain, true, t.suffix.len() as int);
    lemma_best_cover_props(t.wildcard, domain, false, t.wildcard.len() as int);
    assert(exact_index(t.exact, domain) is None);
    let a = longest_match_spec(t.suffix, domain, true)->Some_0;
    let b = longest_match_spec(t.wildcard, domain, false)->Some_0;
    assert(longest_cover(t.suffix, a, domain, true));
    assert(longest_cover(t.wildcard, b, domain, false));
}

/// Where some exact rule names the domain, a first one does.
proof fn lemma_first_exact(exact: Seq<RouteView>, domain: Seq<char>, w: int)
    requires
        0 <= w < exact.len(),
        exact[w].domain == domain,
    ensures
        exists|k: int|
            0 <= k < exact.len() && #[trigger] exact[k].domain == domain && forall|j: int|
                0 <= j < k ==> exact[j].domain != domain,
    decreases w,
{
    if exists|j: int| 0 <= j < w && #[trigger] exact[j].domain == domain {
        let j = choose|j: int| 0 <= j < w && #[trigger] exact[j].domain == domain;
        lemma_first_exact(exact, domain, j);
    } else {
        assert(forall|j: int| 0 <= j < w ==> exact[j].domain != domain);
    }
}

proof fn lemma_exact_index(exact: Seq<RouteView>, domain: Seq<char>, i: int)
    requires
        0 <= i < exact.len(),
        exact[i].domain == domain,
        forall|j: int| 0 <= j < i ==> exact[j].domain != domain,
    ensures
        exact_index(exact, domain) == Some(i),
{
    let k = choose|k: int|
        0 <= k < exact.len() && #[trigger] exact[k].domain == domain && forall|j: int|
            0 <= j < k ==> exact[j].domain != domain;
    assert(exact[k].domain == domain);
    if k < i {
    }
    if i < k {
        assert(exact[i].domain != domain);
    }
}

impl Routes {
    /// The route id and upstream names for a normalized query domain.
    pub fn select<'a>(&'a self, domain: &str, defaults: &'a [String]) -> (r: (i32, &'a [String]))
        ensures
            r.0 == select_spec(self@, domain@, names_view(defaults@)).0,
            names_view(r.1@) == select_spec(self@, domain@, names_view(defaults@)).1,
    {
        let d = chars_of(domain);
        let mut i: usize = 0;
        while i < self.exact.len()
            invariant
                d@ == domain@,
                i <= self.exact@.len(),
                forall|j: int| 0 <= j < i ==> self.exact@[j].domain@ != domain@,
            decreases self.exact@.len() - i,
        {
            let e = chars_of(self.exact[i].domain.as_str());
            if chars_eq(&e, &d) {
                proof {
                    lemma_exact_index(self@.exact, domain@, i as int);
                }
                return (self.exact[i].id, self.exact[i].upstreams.as_slice());
            }
            i = i + 1;
        }
        assert(!(exists|k: int|
            0 <= k < self@.exact.len() && #[trigger] self@.exact[k].domain == domain@)) by {
            assert forall|k: int| 0 <= k < self@.exact.len() implies #[trigger] self@.exact[k].domain
                != domain@ by {
                assert(self.exact@[k].domain@ != domain@);
            }
        }
        let s = self.suffix.longest_match(domain, true);
        let w = self.wildcard.longest_match(domain, false);
        match (s, w) {
            (Some(a), Some(b)) => {
                if a.domain.as_str().len() > b.domain.as_str().len() {
                    (a.id, a.upstreams.as_slice())
                } else {
                    (b.id, b.upstreams.as_slice())
                }
            },
            (Some(a), None) => (a.id, a.upstreams.as_slice()),
            (None, Some(b)) => (b.id, b.upstreams.as_slice()),
            (None, None) => (0, defaults),
        }
    }
}

/// Why a route rule was refused; the index is the rule's position in the list.
#[derive(Clone, Debug)]
pub enum RouteError {
    Empty(usize),
    ColonCount(usize),
    EqualsCount(usize),
    UnsupportedMatchType(usize, String),
    InvalidDomain(usize, String),
    EmptyDomain(usize),
    WildcardPrefix(usize),
    WildcardInvalid(usize),
    WildcardRequiresType(usize),
    Duplicate(String),
    EmptyUpstream(usize),
    UnknownUpstream(usize, String),
    DuplicateUpstream(usize, String),
}

/// A refused rule, as values.
pub enum RouteErrorView {
    Empty(usize),
    ColonCount(usize),
    EqualsCount(usize),
    UnsupportedMatchType(usize, Seq<char>),
    InvalidDomain(usize, Seq<char>),
    EmptyDomain(usize),
    WildcardPrefix(usize),
    WildcardInvalid(usize),
    WildcardRequiresType(usize),
    Duplicate(Seq<char>),
    EmptyUpstream(usize),
    UnknownUpstream(usize, Seq<char>),
    DuplicateUpstream(usize, Seq<char>),
}

impl View for RouteError {
    type V = RouteErrorView;

    open spec fn view(&self) -> RouteErrorView {
        match self {
            RouteError::Empty(i) => RouteErrorView::Empty(*i),
            RouteError::ColonCount(i) => RouteErrorView::ColonCount(*i),
            RouteError::EqualsCount(i) => RouteErrorView::EqualsCount(*i),
            RouteError::UnsupportedMatchType(i, s) => RouteErrorView::UnsupportedMatchType(*i, s@),
            RouteError::InvalidDomain(i, s) => RouteErrorView::InvalidDomain(*i, s@),
            RouteError::EmptyDomain(i) => RouteErrorView::EmptyDomain(*i),
            RouteError::WildcardPrefix(i) => RouteErrorView::WildcardPrefix(*i),
            RouteError::WildcardInvalid(i) => RouteErrorView::WildcardInvalid(*i),
            RouteError::WildcardRequiresType(i) => RouteErrorView::WildcardRequiresType(*i),
            RouteError::Duplicate(s) => RouteErrorView::Duplicate(s@),
            RouteError::EmptyUpstream(i) => RouteErrorView::EmptyUpstream(*i),
            RouteError::UnknownUpstream(i, s) => RouteErrorView::UnknownUpstream(*i, s@),
            RouteError::DuplicateUpstream(i, s) => RouteErrorView::DuplicateUpstream(*i, s@),
        }
    }
}

/// `s` with every leading copy of the two characters `a b` removed.
pub open spec fn strip_leading_pair(s: Seq<char>, a: char, b: char) -> Seq<char>
    decreases s.len(),
{
    if s.len() >= 2 && s[0] == a && s[1] == b {
        strip_leading_pair(s.skip(2), a, b)
    } else {
        s
    }
}

/// The match type, domain and upstream part of rule `i`, before the duplicate check.
pub open spec fn rule_head_spec(i: usize, raw: Seq<char>) -> Result<
    (MatchType, Seq<char>, Seq<char>),
    RouteErrorView,
> {
    let raw = trim(raw);
    if raw.len() == 0 {
        Err(RouteErrorView::Empty(i))
    } else if count_char(raw, ':') != 1 {
        Err(RouteErrorView::ColonCount(i))
    } else if count_char(raw, '=') != 1 {
        Err(RouteErrorView::EqualsCount(i))
    } else {
        match split_once(raw, ':') {
            None => Err(RouteErrorView::ColonCount(i)),
            Some((match_part, rest)) => match split_once(rest, '=') {
                None => Err(RouteErrorView::EqualsCount(i)),
                Some((domain_part, upstream_part)) => {
                    let m = trim(match_part);
                    match match_type_spec(m) {
                        None => Err(RouteErrorView::UnsupportedMatchType(i, m)),
                        Some(mt) => match normalize_domain_spec(domain_part) {
                            Err(_) => Err(RouteErrorView::InvalidDomain(i, trim(domain_part))),
                            Ok(domain) => match rule_domain_spec(i, mt, domain) {
                                Err(e) => Err(e),
                                Ok(d) => Ok((mt, d, upstream_part)),
                            },
                        },
                    }
                },
            },
        }
    }
}

/// The match type a rule names.
pub open spec fn match_type_spec(m: Seq<char>) -> Option<MatchType> {
    if m == seq!['e', 'x', 'a', 'c', 't'] {
        Some(MatchType::Exact)
    } else if m == seq!['s', 'u', 'f', 'f', 'i', 'x'] {
        Some(MatchType::Suffix)
    } else if m == seq!['w', 'i', 'l', 'd', 'c', 'a', 'r', 'd'] {
        Some(MatchType::Wildcard)
    } else {
        None
    }
}

/// The domain a rule of type `mt` stands for, from its normalized domain: nonempty; a
/// wildcard domain starts with `*.`, which is removed (as often as it repeats) and leaves a
/// nonempty domain without `*`; any other domain holds no `*`.
pub open spec fn rule_domain_spec(i: usize, mt: MatchType, domain: Seq<char>) -> Result<Seq<char>, RouteErrorView> {
    if domain.len() == 0 {
        Err(RouteErrorView::EmptyDomain(i))
    } else if mt == MatchType::Wildcard {
        if !(domain.len() >= 2 && domain[0] == '*' && domain[1] == '.') {
            Err(RouteErrorView::WildcardPrefix(i))
        } else {
            let d = strip_leading_pair(domain, '*', '.');
            if d.len() == 0 || d.contains('*') {
                Err(RouteErrorView::WildcardInvalid(i))
            } else {
                Ok(d)
            }
        }
    } else if domain.contains('*') {
        Err(RouteErrorView::WildcardRequiresType(i))
    } else {
        Ok(domain)
    }
}

/// The upstream names of rule `i`: the comma-separated part, each name trimmed, each
/// nonempty, known and listed once.
pub open spec fn rule_names_spec(i: usize, part: Seq<char>, known: Seq<Seq<char>>) -> Result<
    Seq<Seq<char>>,
    RouteErrorView,
> {
    names_from(i, split_all(part, ','), known, Seq::empty())
}

/// Reading the names `pieces` after the names `seen` have been read.
pub open spec fn names_from(i: usize, pieces: Seq<Seq<char>>, known: Seq<Seq<char>>, seen: Seq<Seq<char>>) -> Result<
    Seq<Seq<char>>,
    RouteErrorView,
>
    decreases pieces.len(),
{
    if pieces.len() == 0 {
        Ok(seen)
    } else {
        let name = trim(pieces[0]);
        if name.len() == 0 {
            Err(RouteErrorView::EmptyUpstream(i))
        } else if !known.contains(name) {
            Err(RouteErrorView::UnknownUpstream(i, name))
        } else if seen.contains(name) {
            Err(RouteErrorView::DuplicateUpstream(i, name))
        } else {
            names_from(i, pieces.drop_first(), known, seen.push(name))
        }
    }
}

/// Whether a list of entries holds one for the domain.
pub open spec fn list_has(list: Seq<RouteView>, domain: Seq<char>) -> bool {
    exists|k: int| 0 <= k < list.len() && #[trigger] list[k].domain == domain
}

/// Whether the table already holds a rule of this type for the domain.
pub open spec fn table_has(t: RouteTable, mt: MatchType, domain: Seq<char>) -> bool {
    match mt {
        MatchType::Exact => list_has(t.exact, domain),
        MatchType::Suffix => list_has(t.suffix, domain),
        MatchType::Wildcard => list_has(t.wildcard, domain),
    }
}

/// The table with a new rule of the given type.
pub open spec fn table_push(t: RouteTable, mt: MatchType, e: RouteView) -> RouteTable {
    match mt {
        MatchType::Exact => RouteTable { exact: t.exact.push(e), ..t },
        MatchType::Suffix => RouteTable { suffix: t.suffix.push(e), ..t },
        MatchType::Wildcard => RouteTable { wildcard: t.wildcard.push(e), ..t },
    }
}

/// Adding rule `i` (read from `raw`) to the table compiled from the rules before it.
pub open spec fn compile_step(t: RouteTable, i: usize, raw: Seq<char>, known: Seq<Seq<char>>) -> Result<
    RouteTable,
    RouteErrorView,
> {
    match rule_head_spec(i, raw) {
        Err(e) => Err(e),
        Ok((mt, domain, part)) => if table_has(t, mt, domain) {
            Err(RouteErrorView::Duplicate(domain))
        } else {
            match rule_names_spec(i, part, known) {
                Err(e) => Err(e),
                Ok(names) => Ok(
                    table_push(t, mt, RouteView { id: (i + 1) as i32, domain, upstreams: names }),
                ),
            }
        },
    }
}

/// Compiling the rules one after the other, each given the id of its position plus one.
pub open spec fn compile_routes_spec(rules: Seq<Seq<char>>, known: Seq<Seq<char>>) -> Result<
    RouteTable,
    RouteErrorView,
>
    decreases rules.len(),
{
    if rules.len() == 0 {
        Ok(RouteTable { exact: Seq::empty(), suffix: Seq::empty(), wildcard: Seq::empty() })
    } else {
        match compile_routes_spec(rules.drop_last(), known) {
            Err(e) => Err(e),
            Ok(t) => compile_step(t, (rules.len() - 1) as usize, rules.last(), known),
        }
    }
}

/// An entry compiled from one of `n` rules: its id counts rules from one, and its
/// upstream list is nonempty, names each upstream once and only known ones.
pub open spec fn entry_ok(e: RouteView, n: nat, known: Seq<Seq<char>>) -> bool {
    &&& 1 <= e.id <= n
    &&& e.upstreams.len() > 0
    &&& e.upstreams.no_duplicates()
    &&& forall|k: int| 0 <= k < e.upstreams.len() ==> known.contains(#[trigger] e.upstreams[k])
}

/// A list of entries each compiled from one of `n` rules, in the order of the rules.
pub open spec fn list_ok(l: Seq<RouteView>, n: nat, known: Seq<Seq<char>>) -> bool {
    &&& forall|k: int| 0 <= k < l.len() ==> entry_ok(#[trigger] l[k], n, known)
    &&& forall|a: int, b: int| 0 <= a < b < l.len() ==> #[trigger] l[a].id < #[trigger] l[b].id
}

/// Whether one of the table's entries has the id.
pub open spec fn table_has_id(t: RouteTable, id: int) -> bool {
    ||| exists|k: int| 0 <= k < t.exact.len() && #[trigger] t.exact[k].id == id
    ||| exists|k: int| 0 <= k < t.suffix.len() && #[trigger] t.suffix[k].id == id
    ||| exists|k: int| 0 <= k < t.wildcard.len() && #[trigger] t.wildcard[k].id == id
}

/// A table compiled from `n` rules: one entry per rule, the entry of rule `i` having the
/// id `i + 1`, each list in the order of the rules.
pub open spec fn table_ok(t: RouteTable, n: nat, known: Seq<Seq<char>>) -> bool {
    &&& list_ok(t.exact, n, known)
    &&& list_ok(t.suffix, n, known)
    &&& list_ok(t.wildcard, n, known)
    &&& t.exact.len() + t.suffix.len() + t.wildcard.len() == n
    &&& forall|i: int| 0 <= i < n ==> #[trigger] table_has_id(t, i + 1)
}

proof fn lemma_names_from(i: usize, pieces: Seq<Seq<char>>, known: Seq<Seq<char>>, seen: Seq<Seq<char>>)
    requires
        seen.no_duplicates(),
        forall|k: int| 0 <= k < seen.len() ==> known.contains(#[trigger] seen[k]),
        names_from(i, pieces, known, seen) is Ok,
    ensures
        ({
            let names = names_from(i, pieces, known, seen)->Ok_0;
            &&& names.no_duplicates()
            &&& forall|k: int| 0 <= k < names.len() ==> known.contains(#[trigger] names[k])
            &&& names.len() == seen.len() + pieces.len()
        }),
    decreases pieces.len(),
{
    if pieces.len() > 0 {
        let name = trim(pieces[0]);
        let s2 = seen.push(name);
        assert forall|a: int, b: int| 0 <= a < s2.len() && 0 <= b < s2.len() && a != b implies s2[a] != s2[b] by {
            if b == seen.len() {
                assert(seen.contains(seen[a]));
            } else if a == seen.len() {
                assert(seen.contains(seen[b]));
            }
        }
        assert forall|k: int| 0 <= k < s2.len() implies known.contains(#[trigger] s2[k]) by {
            if k < seen.len() {
                assert(s2[k] == seen[k]);
            }
        }
        lemma_names_from(i, pieces.drop_first(), known, s2);
    }
}

proof fn lemma_list_push_ok(l: Seq<RouteView>, n: nat, known: Seq<Seq<char>>, e: RouteView)
    requires
        list_ok(l, n, known),
        entry_ok(e, n + 1, known),
        e.id == n + 1,
    ensures
        list_ok(l.push(e), n + 1, known),
{
    let l2 = l.push(e);
    assert forall|k: int| 0 <= k < l2.len() implies entry_ok(#[trigger] l2[k], n + 1, known) by {
        if k < l.len() {
            assert(l2[k] == l[k]);
            assert(entry_ok(l[k], n, known));
        }
    }
    assert forall|a: int, b: int| 0 <= a < b < l2.len() implies #[trigger] l2[a].id < #[trigger] l2[b].id by {
        assert(l2[a] == l[a]);
        assert(entry_ok(l[a], n, known));
        if b < l.len() {
            assert(l2[b] == l[b]);
        }
    }
}

proof fn lemma_has_id_push(t: RouteTable, mt: MatchType, e: RouteView, id: int)
    requires
        table_has_id(t, id),
    ensures
        table_has_id(table_push(t, mt, e), id),
{
    let t2 = table_push(t, mt, e);
    if exists|k: int| 0 <= k < t.exact.len() && #[trigger] t.exact[k].id == id {
        let k = choose|k: int| 0 <= k < t.exact.len() && #[trigger] t.exact[k].id == id;
        assert(t2.exact[k] == t.exact[k]);
    } else if exists|k: int| 0 <= k < t.suffix.len() && #[trigger] t.suffix[k].id == id {
        let k = choose|k: int| 0 <= k < t.suffix.len() && #[trigger] t.suffix[k].id == id;
        assert(t2.suffix[k] == t.suffix[k]);
    } else {
        let k = choose|k: int| 0 <= k < t.wildcard.len() && #[trigger] t.wildcard[k].id == id;
        assert(t2.wildcard[k] == t.wildcard[k]);
    }
}

proof fn lemma_list_widen(l: Seq<RouteView>, n: nat, known: Seq<Seq<char>>)
    requires
        list_ok(l, n, known),
    ensures
        list_ok(l, n + 1, known),
{
    assert forall|k: int| 0 <= k < l.len() implies entry_ok(#[trigger] l[k], n + 1, known) by {
        assert(entry_ok(l[k], n, known));
    }
}

/// Rules that compile give one entry per rule: the rule at position `i` has the id
/// `i + 1`, every list of upstreams is nonempty, names each upstream once and names only
/// known upstreams, and each of the three lists keeps the order of the rules.
pub proof fn law_compiled_routes_well_formed(rules: Seq<Seq<char>>, known: Seq<Seq<char>>)
    requires
        rules.len() <= i32::MAX,
        compile_routes_spec(rules, known) is Ok,
    ensures
        table_ok(compile_routes_spec(rules, known)->Ok_0, rules.len(), known),
    decreases rules.len(),
{
    let e0 = RouteTable { exact: Seq::empty(), suffix: Seq::empty(), wildcard: Seq::empty() };
    if rules.len() > 0 {
        let n = (rules.len() - 1) as nat;
        let i = n as usize;
        law_compiled_routes_well_formed(rules.drop_last(), known);
        let t = compile_routes_spec(rules.drop_last(), known)->Ok_0;
        let raw = rules.last();
        let (mt, domain, part) = rule_head_spec(i, raw)->Ok_0;
        let pieces = split_all(part, ',');
        crate::text::lemma_split_all_unfold(part, ',');
        assert(pieces.len() >= 1);
        lemma_names_from(i, pieces, known, Seq::empty());
        let names = rule_names_spec(i, part, known)->Ok_0;
        let e = RouteView { id: (i + 1) as i32, domain, upstreams: names };
        assert(entry_ok(e, n + 1, known));
        let t2 = table_push(t, mt, e);
        assert(compile_routes_spec(rules, known) == Ok::<RouteTable, RouteErrorView>(t2));
        lemma_list_widen(t.exact, n, known);
        lemma_list_widen(t.suffix, n, known);
        lemma_list_widen(t.wildcard, n, known);
        match mt {
            MatchType::Exact => lemma_list_push_ok(t.exact, n, known, e),
            MatchType::Suffix => lemma_list_push_ok(t.suffix, n, known, e),
            MatchType::Wildcard => lemma_list_push_ok(t.wildcard, n, known, e),
        }
        assert forall|j: int| 0 <= j < n + 1 implies #[trigger] table_has_id(t2, j + 1) by {
            if j < n {
                assert(table_has_id(t, j + 1));
                lemma_has_id_push(t, mt, e, j + 1);
            } else {
                match mt {
                    MatchType::Exact => assert(t2.exact[t.exact.len() as int].id == j + 1),
                    MatchType::Suffix => assert(t2.suffix[t.suffix.len() as int].id == j + 1),
                    MatchType::Wildcard => assert(t2.wildcard[t.wildcard.len() as int].id == j + 1),
                }
            }
        }
    } else {
        assert(compile_routes_spec(rules, known) == Ok::<RouteTable, RouteErrorView>(e0));
    }
}

fn contains_name(list: &Vec<Vec<char>>, name: &Vec<char>) -> (b: bool)
    ensures
        b == list@.map_values(|x: Vec<char>| x@).contains(name@),
{
    let ghost lv = list@.map_values(|x: Vec<char>| x@);
    let mut i: usize = 0;
    while i < list.len()
        invariant
            lv == list@.map_values(|x: Vec<char>| x@),
            i <= list@.len(),
            forall|j: int| 0 <= j < i ==> lv[j] != name@,
        decreases list@.len() - i,
    {
        if chars_eq(&list[i], name) {
            assert(lv[i as int] == name@);
            return true;
        }
        i = i + 1;
    }
    false
}

fn literal(s: &str) -> (v: Vec<char>)
    ensures
        v@ == s@,
{
    chars_of(s)
}

/// Reads the head of rule `i`.
fn rule_head(i: usize, raw: &str) -> (r: Result<(MatchType, Vec<char>, Vec<char>), RouteError>)
    ensures
        match r {
            Ok((mt, d, p)) => rule_head_spec(i, raw@) == Ok::<_, RouteErrorView>((mt, d@, p@)),
            Err(e) => rule_head_spec(i, raw@) == Err::<(MatchType, Seq<char>, Seq<char>), _>(e@),
        },
{
    let raw = trim_chars(&chars_of(raw));
    if raw.len() == 0 {
        return Err(RouteError::Empty(i));
    }
    if count_char_chars(&raw, ':') != 1 {
        return Err(RouteError::ColonCount(i));
    }
    if count_char_chars(&raw, '=') != 1 {
        return Err(RouteError::EqualsCount(i));
    }
    let (match_part, rest) = match split_once_chars(&raw, ':') {
        Some(p) => p,
        None => {
            return Err(RouteError::ColonCount(i));
        },
    };
    let (domain_part, upstream_part) = match split_once_chars(&rest, '=') {
        Some(p) => p,
        None => {
            return Err(RouteError::EqualsCount(i));
        },
    };
    let m = trim_chars(&match_part);
    let mt = match match_type_of(&m) {
        Some(t) => t,
        None => {
            return Err(RouteError::UnsupportedMatchType(i, string_from_chars(m.as_slice())));
        },
    };
    let dtext = string_from_chars(domain_part.as_slice());
    let domain = match normalize_domain(dtext.as_str()) {
        Ok(d) => chars_of(d.as_str()),
        Err(_) => {
            let t = trim_chars(&domain_part);
            return Err(RouteError::InvalidDomain(i, string_from_chars(t.as_slice())));
        },
    };
    match rule_domain(i, mt, &domain) {
        Ok(d) => Ok((mt, d, upstream_part)),
        Err(e) => Err(e),
    }
}

fn match_type_of(m: &Vec<char>) -> (r: Option<MatchType>)
    ensures
        r == match_type_spec(m@),
{
    let exact = literal("exact");
    let suffix = literal("suffix");
    let wildcard = literal("wildcard");
    proof {
        reveal_strlit("exact");
        reveal_strlit("suffix");
        reveal_strlit("wildcard");
        assert(exact@ =~= seq!['e', 'x', 'a', 'c', 't']);
        assert(suffix@ =~= seq!['s', 'u', 'f', 'f', 'i', 'x']);
        assert(wildcard@ =~= seq!['w', 'i', 'l', 'd', 'c', 'a', 'r', 'd']);
    }
    if chars_eq(m, &exact) {
        Some(MatchType::Exact)
    } else if chars_eq(m, &suffix) {
        Some(MatchType::Suffix)
    } else if chars_eq(m, &wildcard) {
        Some(MatchType::Wildcard)
    } else {
        None
    }
}

fn rule_domain(i: usize, mt: MatchType, domain: &Vec<char>) -> (r: Result<Vec<char>, RouteError>)
    ensures
        match r {
            Ok(d) => rule_domain_spec(i, mt, domain@) == Ok::<Seq<char>, RouteErrorView>(d@),
            Err(e) => rule_domain_spec(i, mt, domain@) == Err::<Seq<char>, RouteErrorView>(e@),
        },
{
    if domain.len() == 0 {
        return Err(RouteError::EmptyDomain(i));
    }
    if mt == MatchType::Wildcard {
        if !(domain.len() >= 2 && domain[0] == '*' && domain[1] == '.') {
            return Err(RouteError::WildcardPrefix(i));
        }
        let mut lo: usize = 0;
        assert(domain@.skip(0) =~= domain@);
        while lo < domain.len() && domain.len() - lo >= 2 && domain[lo] == '*' && domain[lo + 1]
            == '.'
            invariant
                lo <= domain@.len(),
                strip_leading_pair(domain@, '*', '.') == strip_leading_pair(
                    domain@.skip(lo as int),
                    '*',
                    '.',
                ),
            decreases domain@.len() - lo,
        {
            assert(domain@.skip(lo as int).skip(2) =~= domain@.skip(lo + 2));
            lo = lo + 2;
        }
        let d = crate::text::slice_chars(domain, lo, domain.len());
        assert(d@ =~= domain@.skip(lo as int));
        if d.len() == 0 || crate::text::contains_char(&d, '*') {
            return Err(RouteError::WildcardInvalid(i));
        }
        return Ok(d);
    }
    if crate::text::contains_char(domain, '*') {
        return Err(RouteError::WildcardRequiresType(i));
    }
    Ok(slice_all(domain))
}

fn slice_all(v: &Vec<char>) -> (r: Vec<char>)
    ensures
        r@ == v@,
{
    let r = crate::text::slice_chars(v, 0, v.len());
    assert(r@ =~= v@);
    r
}

/// Reads the upstream names of rule `i`.
fn rule_names(i: usize, part: &Vec<char>, known: &Vec<Vec<char>>) -> (r: Result<Vec<String>, RouteError>)
    ensures
        match r {
            Ok(names) => rule_names_spec(i, part@, known@.map_values(|x: Vec<char>| x@)) == Ok::<
                _,
                RouteErrorView,
            >(names_view(names@)),
            Err(e) => rule_names_spec(i, part@, known@.map_values(|x: Vec<char>| x@)) == Err::<
                Seq<Seq<char>>,
                _,
            >(e@),
        },
{
    let ghost kv = known@.map_values(|x: Vec<char>| x@);
    let pieces = split_chars(part, ',');
    let ghost pv = pieces@.map_values(|x: Vec<char>| x@);
    let mut seen: Vec<Vec<char>> = Vec::new();
    let mut names: Vec<String> = Vec::new();
    let mut k: usize = 0;
    assert(pv.skip(0) =~= pv);
    assert(seen@.map_values(|x: Vec<char>| x@) =~= Seq::<Seq<char>>::empty());
    while k < pieces.len()
        invariant
            kv == known@.map_values(|x: Vec<char>| x@),
            pv == pieces@.map_values(|x: Vec<char>| x@),
            pv == split_all(part@, ','),
            k <= pieces@.len(),
            names_view(names@) == seen@.map_values(|x: Vec<char>| x@),
            rule_names_spec(i, part@, kv) == names_from(
                i,
                pv.skip(k as int),
                kv,
                seen@.map_values(|x: Vec<char>| x@),
            ),
        decreases pieces@.len() - k,
    {
        let ghost rest = pv.skip(k as int);
        assert(rest[0] == pieces@[k as int]@);
        assert(rest.drop_first() =~= pv.skip(k + 1));
        let name = trim_chars(&pieces[k]);
        if name.len() == 0 {
            return Err(RouteError::EmptyUpstream(i));
        }
        if !contains_name(known, &name) {
            return Err(RouteError::UnknownUpstream(i, string_from_chars(name.as_slice())));
        }
        if contains_name(&seen, &name) {
            return Err(RouteError::DuplicateUpstream(i, string_from_chars(name.as_slice())));
        }
        let ghost old_seen = seen@.map_values(|x: Vec<char>| x@);
        let ghost old_names = names_view(names@);
        let text = string_from_chars(name.as_slice());
        seen.push(name);
        names.push(text);
        proof {
            assert(seen@.map_values(|x: Vec<char>| x@) =~= old_seen.push(name@));
            assert(names_view(names@) =~= old_names.push(text@));
        }
        k = k + 1;
    }
    assert(pv.skip(k as int) =~= Seq::<Seq<char>>::empty());
    Ok(names)
}

/// Whether a list holds an entry for the domain.
fn has_domain(list: &Vec<RouteEntry>, domain: &Vec<char>) -> (b: bool)
    ensures
        b == list_has(entries_view(list@), domain@),
{
    let ghost lv = entries_view(list@);
    let mut k: usize = 0;
    while k < list.len()
        invariant
            lv == entries_view(list@),
            k <= list@.len(),
            forall|j: int| 0 <= j < k ==> lv[j].domain != domain@,
        decreases list@.len() - k,
    {
        let e = chars_of(list[k].domain.as_str());
        if chars_eq(&e, domain) {
            assert(lv[k as int].domain == domain@);
            return true;
        }
        k = k + 1;
    }
    false
}

impl Routes {
    fn empty() -> (r: Routes)
        ensures
            r@ == (RouteTable { exact: Seq::empty(), suffix: Seq::empty(), wildcard: Seq::empty() }),
    {
        let r = Routes { exact: Vec::new(), suffix: RouteTrie::new(), wildcard: RouteTrie::new() };
        assert(r@.exact =~= Seq::<RouteView>::empty());
        r
    }

    /// Adds rule `i` to the rules compiled so far.
    fn add_rule(&mut self, i: usize, raw: &str, known: &Vec<Vec<char>>) -> (r: Result<(), RouteError>)
        requires
            i < usize::MAX,
        ensures
            match r {
                Ok(()) => compile_step(old(self)@, i, raw@, known@.map_values(|x: Vec<char>| x@))
                    == Ok::<RouteTable, RouteErrorView>(final(self)@),
                Err(e) => compile_step(old(self)@, i, raw@, known@.map_values(|x: Vec<char>| x@))
                    == Err::<RouteTable, RouteErrorView>(e@),
            },
    {
        let (mt, domain, part) = match rule_head(i, raw) {
            Ok(h) => h,
            Err(e) => {
                return Err(e);
            },
        };
        let dup = match mt {
            MatchType::Exact => has_domain(&self.exact, &domain),
            MatchType::Suffix => has_domain(&self.suffix.entries, &domain),
            MatchType::Wildcard => has_domain(&self.wildcard.entries, &domain),
        };
        assert(dup == table_has(self@, mt, domain@));
        if dup {
            return Err(RouteError::Duplicate(string_from_chars(domain.as_slice())));
        }
        let names = match rule_names(i, &part, known) {
            Ok(n) => n,
            Err(e) => {
                return Err(e);
            },
        };
        let dstring = string_from_chars(domain.as_slice());
        let entry = RouteEntry { id: (i + 1) as i32, domain: dstring, upstreams: names };
        let ghost before = self@;
        let ghost ev = entry@;
        match mt {
            MatchType::Exact => {
                self.exact.push(entry);
                assert(self@.exact =~= before.exact.push(ev));
            },
            MatchType::Suffix => {
                let d2 = string_from_chars(domain.as_slice());
                self.suffix.insert(d2.as_str(), entry);
                assert(exact_index(before.suffix, domain@) is None);
            },
            MatchType::Wildcard => {
                let d2 = string_from_chars(domain.as_slice());
                self.wildcard.insert(d2.as_str(), entry);
                assert(exact_index(before.wildcard, domain@) is None);
            },
        }
        assert(self@ == table_push(before, mt, ev));
        Ok(())
    }
}

/// Compiles route rules against the known upstream names.
pub fn compile_routes(raw_rules: &[String], upstreams: &[String]) -> (r: Result<Routes, RouteError>)
    ensures
        match r {
            Ok(routes) => compile_routes_spec(names_view(raw_rules@), names_view(upstreams@))
                == Ok::<RouteTable, RouteErrorView>(routes@),
            Err(e) => compile_routes_spec(names_view(raw_rules@), names_view(upstreams@)) == Err::<
                RouteTable,
                RouteErrorView,
            >(e@),
        },
{
    let mut known: Vec<Vec<char>> = Vec::new();
    let mut u: usize = 0;
    while u < upstreams.len()
        invariant
            u <= upstreams@.len(),
            known@.map_values(|x: Vec<char>| x@) == names_view(upstreams@.take(u as int)),
        decreases upstreams@.len() - u,
    {
        let ghost before = known@.map_values(|x: Vec<char>| x@);
        let c = chars_of(upstreams[u].as_str());
        known.push(c);
        proof {
            assert(known@.map_values(|x: Vec<char>| x@) =~= before.push(c@));
            assert(upstreams@.take(u + 1) =~= upstreams@.take(u as int).push(upstreams@[u as int]));
        }
        u = u + 1;
        assert(known@.map_values(|x: Vec<char>| x@) =~= names_view(upstreams@.take(u as int)));
    }
    assert(upstreams@.take(upstreams@.len() as int) =~= upstreams@);
    let mut routes = Routes::empty();
    let ghost rv = names_view(raw_rules@);
    let mut i: usize = 0;
    assert(rv.take(0) =~= Seq::<Seq<char>>::empty());
    while i < raw_rules.len()
        invariant
            rv == names_view(raw_rules@),
            rv.len() == raw_rules@.len(),
            known@.map_values(|x: Vec<char>| x@) == names_view(upstreams@),
            i <= raw_rules@.len(),
            compile_routes_spec(rv.take(i as int), names_view(upstreams@)) == Ok::<
                RouteTable,
                RouteErrorView,
            >(routes@),
        decreases raw_rules@.len() - i,
    {
        assert(rv.take(i + 1).drop_last() =~= rv.take(i as int));
        assert(rv.take(i + 1).last() == raw_rules@[i as int]@);
        match routes.add_rule(i, raw_rules[i].as_str(), &known) {
            Ok(()) => {},
            Err(e) => {
                proof {
                    lemma_compile_prefix_err(rv, names_view(upstreams@), i as int + 1);
                }
                return Err(e);
            },
        }
        i = i + 1;
    }
    assert(rv.take(raw_rules@.len() as int) =~= rv);
    Ok(routes)
}

/// Once a prefix of the rules fails to compile, the whole list fails the same way.
proof fn lemma_compile_prefix_err(rules: Seq<Seq<char>>, known: Seq<Seq<char>>, k: int)
    requires
        0 <= k <= rules.len(),
        compile_routes_spec(rules.take(k), known) is Err,
    ensures
        compile_routes_spec(rules, known) == compile_routes_spec(rules.take(k), known),
    decreases rules.len() - k,
{
    if k < rules.len() {
        assert(rules.take(k + 1).drop_last() =~= rules.take(k));
        lemma_compile_prefix_err(rules, known, k + 1);
    } else {
        assert(rules.take(k) =~= rules);
    }
}

/// The text of a refused route rule.
pub open spec fn route_error_text(e: RouteErrorView) -> Seq<char> {
    match e {
        RouteErrorView::Empty(i) => "route["@ + decimal(i as nat) + "] must not be empty"@,
        RouteErrorView::ColonCount(i) => "route["@ + decimal(i as nat) + "] must contain exactly one ':'"@,
        RouteErrorView::EqualsCount(i) => "route["@ + decimal(i as nat) + "] must contain exactly one '='"@,
        RouteErrorView::UnsupportedMatchType(i, s) => "route["@ + decimal(i as nat) + "] has unsupported match type "@ + debug_quoted(s),
        RouteErrorView::InvalidDomain(i, s) => "route["@ + decimal(i as nat) + "] contains invalid domain "@ + debug_quoted(s),
        RouteErrorView::EmptyDomain(i) => "route["@ + decimal(i as nat) + "] domain must not be empty"@,
        RouteErrorView::WildcardPrefix(i) => "route["@ + decimal(i as nat) + "] wildcard domain must start with '*.'"@,
        RouteErrorView::WildcardInvalid(i) => "route["@ + decimal(i as nat) + "] wildcard domain is invalid"@,
        RouteErrorView::WildcardRequiresType(i) => "route["@ + decimal(i as nat) + "] wildcard domain requires wildcard match type"@,
        RouteErrorView::Duplicate(s) => "duplicate route for "@ + debug_quoted(s),
        RouteErrorView::EmptyUpstream(i) => "route["@ + decimal(i as nat) + "] upstream name must not be empty"@,
        RouteErrorView::UnknownUpstream(i, s) => "route["@ + decimal(i as nat) + "] references unknown upstream "@ + debug_quoted(s),
        RouteErrorView::DuplicateUpstream(i, s) => "route["@ + decimal(i as nat) + "] contains duplicate upstream "@ + debug_quoted(s),
    }
}

impl RouteError {
    /// The text of the error.
    pub fn message(&self) -> (m: String)
        ensures
            m@ == route_error_text(self@),
    {
        match self {
            RouteError::Empty(i) => {
                let mut out = String::new();
                out.append("route[");
                out.append(decimal_string(*i as u64).as_str());
                out.append("] must not be empty");
                out
            },
            RouteError::ColonCount(i) => {
                let mut out = String::new();
                out.append("route[");
                out.append(decimal_string(*i as u64).as_str());
                out.append("] must contain exactly one ':'");
                out
            },
            RouteError::EqualsCount(i) => {
                let mut out = String::new();
                out.append("route[");
                out.append(decimal_string(*i as u64).as_str());
                out.append("] must contain exactly one '='");
                out
            },
            RouteError::UnsupportedMatchType(i, s) => {
                let mut out = String::new();
                out.append("route[");
                out.append(decimal_string(*i as u64).as_str());
                out.append("] has unsupported match type ");
                out.append(debug_text(s.as_str()).as_str());
                out
            },
            RouteError::InvalidDomain(i, s) => {
                let mut out = String::new();
                out.append("route[");
                out.append(decimal_string(*i as u64).as_str());
                out.append("] contains invalid domain ");
                out.append(debug_text(s.as_str()).as_str());
                out
            },
            RouteError::EmptyDomain(i) => {
                let mut out = String::new();
                out.append("route[");
                out.append(decimal_string(*i as u64).as_str());
                out.append("] domain must not be empty");
                out
            },
            RouteError::WildcardPrefix(i) => {
                let mut out = String::new();
                out.append("route[");
                out.append(decimal_string(*i as u64).as_str());
                out.append("] wildcard domain must start with '*.'");
                out
            },
            RouteError::WildcardInvalid(i) => {
                let mut out = String::new();
                out.append("route[");
                out.append(decimal_string(*i as u64).as_str());
                out.append("] wildcard domain is invalid");
                out
            },
            RouteError::WildcardRequiresType(i) => {
                let mut out = String::new();
                out.append("route[");
                out.append(decimal_string(*i as u64).as_str());
                out.append("] wildcard domain requires wildcard match type");
                out
            },
            RouteError::Duplicate(s) => {
                let mut out = String::new();
                out.append("duplicate route for ");
                out.append(debug_text(s.as_str()).as_str());
                out
            },
            RouteError::EmptyUpstream(i) => {
                let mut out = String::new();
                out.append("route[");
                out.append(decimal_string(*i as u64).as_str());
                out.append("] upstream name must not be empty");
                out
            },
            RouteError::UnknownUpstream(i, s) => {
                let mut out = String::new();
                out.append("route[");
                out.append(decimal_string(*i as u64).as_str());
                out.append("] references unknown upstream ");
                out.append(debug_text(s.as_str()).as_str());
                out
            },
            RouteError::DuplicateUpstream(i, s) => {
                let mut out = String::new();
                out.append("route[");
                out.append(decimal_string(*i as u64).as_str());
                out.append("] contains duplicate upstream ");
                out.append(debug_text(s.as_str()).as_str());
                out
            },
        }
    }
}


} // verus!
