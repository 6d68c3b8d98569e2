//! KiNET power supply discovery and addressing.

use std::collections::{HashMap, HashSet};

use vstd::prelude::*;

use crate::packet::KinetPacketHeader;
use crate::config::IpAddress;
use crate::error::KinetError;
use crate::payload::{c_string_text, DmxOutHeader, HeartBeatPayload, KinetPayload, PollReplyPayload};
use crate::renderer::LightStageFrame;
use crate::state::TickResult;
use vstd::string::StringSliceAdditionalSpecFns;
use vstd::utf8::decode_utf8;

verus! {

/// `c` has the Unicode `White_Space` property (what `char::is_whitespace` tests).
pub open spec fn is_whitespace(c: char) -> bool {
    ||| ('\u{9}' <= c <= '\u{d}')
    ||| c == ' '
    ||| c == '\u{85}'
    ||| c == '\u{a0}'
    ||| c == '\u{1680}'
    ||| ('\u{2000}' <= c <= '\u{200a}')
    ||| c == '\u{2028}'
    ||| c == '\u{2029}'
    ||| c == '\u{202f}'
    ||| c == '\u{205f}'
    ||| c == '\u{3000}'
}

/// `char::is_whitespace`.
fn char_is_whitespace(c: char) -> (b: bool)
    ensures
        b == is_whitespace(c),
{
    ('\u{9}' <= c && c <= '\u{d}') || c == ' ' || c == '\u{85}' || c == '\u{a0}' || c == '\u{1680}'
        || ('\u{2000}' <= c && c <= '\u{200a}') || c == '\u{2028}' || c == '\u{2029}' || c
        == '\u{202f}' || c == '\u{205f}' || c == '\u{3000}'
}

/// The whitespace-separated words of `s`, in order (what `str::split_whitespace` yields).
pub open spec fn words(s: Seq<char>) -> Seq<Seq<char>>
    decreases s.len(),
{
    if s.len() == 0 {
        seq![]
    } else {
        let w = words(s.drop_last());
        let c = s.last();
        if is_whitespace(c) {
            w
        } else if s.len() >= 2 && !is_whitespace(s[s.len() - 2]) {
            w.update(w.len() - 1, w.last().push(c))
        } else {
            w.push(seq![c])
        }
    }
}

/// The number that the decimal digits `s` stand for.
pub open spec fn digits_value(s: Seq<char>) -> nat
    decreases s.len(),
{
    if s.len() == 0 {
        0
    } else {
        digits_value(s.drop_last()) * 10 + (s.last() as nat - '0' as nat) as nat
    }
}

/// Every character of `s` is an ASCII decimal digit.
pub open spec fn all_digits(s: Seq<char>) -> bool {
    forall|i: int| 0 <= i < s.len() ==> '0' <= #[trigger] s[i] <= '9'
}

/// What `s.parse::<usize>()` gives: an optional `+` followed by at least one
/// decimal digit, whose value fits in a `usize`.
pub open spec fn parse_usize(s: Seq<char>) -> Option<usize> {
    let digits = if s.len() > 0 && s[0] == '+' {
        s.drop_first()
    } else {
        s
    };
    if digits.len() > 0 && all_digits(digits) && digits_value(digits) <= usize::MAX {
        Some(digits_value(digits) as usize)
    } else {
        None
    }
}

/// The characters of `s`.
fn chars_of(s: &str) -> (v: Vec<char>)
    ensures
        v@ == s@,
{
    broadcast use vstd::string::axiom_spec_iter;

    let mut v: Vec<char> = Vec::new();
    for c in it: s.chars()
        invariant
            it.seq() == s@,
            v@ == it.seq().take(it.index()),
    {
        v.push(c);
    }
    v
}

/// A string whose last character is not whitespace has a word.
proof fn lemma_words_nonempty(s: Seq<char>)
    requires
        s.len() > 0,
        !is_whitespace(s.last()),
    ensures
        words(s).len() > 0,
    decreases s.len(),
{
    if s.len() >= 2 && !is_whitespace(s[s.len() - 2]) {
        assert(s.drop_last().last() == s[s.len() - 2]);
        lemma_words_nonempty(s.drop_last());
    }
}

/// `v` split into its whitespace-separated words.
fn split_words(v: &Vec<char>) -> (r: Vec<Vec<char>>)
    ensures
        r@.len() == words(v@).len(),
        forall|k: int| 0 <= k < r@.len() ==> (#[trigger] r@[k])@ == words(v@)[k],
{
    let mut r: Vec<Vec<char>> = Vec::new();
    let mut i: usize = 0;
    while i < v.len()
        invariant
            i <= v@.len(),
            r@.len() == words(v@.take(i as int)).len(),
            forall|k: int| 0 <= k < r@.len() ==> (#[trigger] r@[k])@ == words(v@.take(i as int))[k],
        decreases v@.len() - i,
    {
        let c = v[i];
        let ghost pre = v@.take(i as int);
        let ghost next = v@.take(i + 1);
        assert(next.drop_last() =~= pre);
        assert(next.last() == c);
        if char_is_whitespace(c) {
        } else if i >= 1 && !char_is_whitespace(v[i - 1]) {
            assert(next[next.len() - 2] == v@[i - 1]);
            proof {
                assert(pre.last() == v@[i - 1]);
                lemma_words_nonempty(pre);
            }
            let last = r.len() - 1;
            r[last].push(c);
            assert(r@[last as int]@ =~= words(pre).last().push(c));
            assert forall|k: int| 0 <= k < r@.len() implies (#[trigger] r@[k])@ == words(next)[k] by {
                if k != last {
                    assert(words(next)[k] == words(pre)[k]);
                }
            }
        } else {
            r.push(vec![c]);
            assert(r@[r@.len() - 1]@ =~= seq![c]);
            assert forall|k: int| 0 <= k < r@.len() implies (#[trigger] r@[k])@ == words(next)[k] by {
                if k < r@.len() - 1 {
                    assert(words(next)[k] == words(pre)[k]);
                }
            }
        }
        i = i + 1;
    }
    assert(v@.take(i as int) =~= v@);
    r
}

/// A prefix of digits stands for no more than the whole.
proof fn lemma_digits_value_prefix(s: Seq<char>, j: int)
    requires
        0 <= j <= s.len(),
        all_digits(s),
    ensures
        digits_value(s.take(j)) <= digits_value(s),
    decreases s.len(),
{
    if j < s.len() {
        assert(s.drop_last().take(j) =~= s.take(j));
        lemma_digits_value_prefix(s.drop_last(), j);
    } else {
        assert(s.take(j) =~= s);
    }
}

/// `s.parse::<usize>()`, as `Some` on success.
fn parse_usize_chars(s: &[char]) -> (r: Option<usize>)
    ensures
        r == parse_usize(s@),
{
    let len = s.len();
    let start: usize = if len > 0 && s[0] == '+' {
        1
    } else {
        0
    };
    let ghost digits = s@.skip(start as int);
    assert(digits =~= if s@.len() > 0 && s@[0] == '+' {
        s@.drop_first()
    } else {
        s@
    });
    if start >= len {
        return None;
    }
    let mut value: usize = 0;
    let mut i: usize = start;
    while i < len
        invariant
            start <= i <= len == s@.len(),
            digits == s@.skip(start as int),
            digits == (if s@.len() > 0 && s@[0] == '+' {
                s@.drop_first()
            } else {
                s@
            }),
            all_digits(digits.take(i - start)),
            value == digits_value(digits.take(i - start)),
        decreases len - i,
    {
        let c = s[i];
        let ghost pre = digits.take(i - start);
        let ghost next = digits.take(i + 1 - start);
        assert(next.drop_last() =~= pre);
        assert(next.last() == c);
        if !('0' <= c && c <= '9') {
            assert(!all_digits(digits)) by {
                assert(digits[i - start] == c);
            }
            return None;
        }
        let d = (c as u32 - '0' as u32) as usize;
        if value > (usize::MAX - d) / 10 {
            proof {
                assert(value * 10 + d > usize::MAX) by (nonlinear_arith)
                    requires
                        value > (usize::MAX - d) / 10,
                        0 <= d <= 9,
                ;
                assert(digits_value(next) == value * 10 + d);
                if all_digits(digits) {
                    lemma_digits_value_prefix(digits, i + 1 - start);
                }
            }
            return None;
        }
        value = value * 10 + d;
        i = i + 1;
    }
    assert(digits.take(len - start) =~= digits);
    Some(value)
}

/// The first address of `addrs` that is an IPv4 address in `10.0.0.0/8`.
pub open spec fn first_kinet_ip(addrs: Seq<IpAddress>) -> Option<[u8; 4]>
    decreases addrs.len(),
{
    if addrs.len() == 0 {
        None
    } else {
        match addrs[0] {
            IpAddress::V4(o) if o[0] == 10 => Some(o),
            _ => first_kinet_ip(addrs.drop_first()),
        }
    }
}

/// The local address to bind to for KiNET when there are multiple
/// interfaces: the first IPv4 address in `10.0.0.0/8` among the interface
/// addresses `addrs`.
pub fn select_kinet_ip(addrs: &Vec<IpAddress>) -> (r: Option<[u8; 4]>)
    ensures
        r == first_kinet_ip(addrs@),
{
    let mut i: usize = 0;
    assert(addrs@.skip(0) =~= addrs@);
    while i < addrs.len()
        invariant
            i <= addrs@.len(),
            first_kinet_ip(addrs@) == first_kinet_ip(addrs@.skip(i as int)),
        decreases addrs@.len() - i,
    {
        assert(addrs@.skip(i as int).drop_first() =~= addrs@.skip(i + 1));
        assert(addrs@.skip(i as int)[0] == addrs@[i as int]);
        match addrs[i] {
            IpAddress::V4(o) => {
                if o[0] == 10 {
                    return Some(o);
                }
            },
            IpAddress::V6(_) => {},
        }
        i = i + 1;
    }
    None
}

/// `a` is an IPv4 address in `10.0.0.0/8`.
pub open spec fn is_kinet_address(a: IpAddress) -> bool {
    a matches IpAddress::V4(o) && o[0] == 10
}

/// The KiNET address chosen among `addrs` is an IPv4 address of the list whose
/// first octet is 10, and no address before it is one; none is chosen only
/// when the list has no such address at all.
pub proof fn law_kinet_ip_is_first_in_range(addrs: Seq<IpAddress>)
    ensures
        match first_kinet_ip(addrs) {
            Some(o) => {
                &&& o[0] == 10
                &&& exists|i: int|
                    0 <= i < addrs.len() && addrs[i] == IpAddress::V4(o) && forall|j: int|
                        0 <= j < i ==> !is_kinet_address(#[trigger] addrs[j])
            },
            None => forall|i: int| 0 <= i < addrs.len() ==> !is_kinet_address(#[trigger] addrs[i]),
        },
    decreases addrs.len(),
{
    if addrs.len() > 0 {
        let rest = addrs.drop_first();
        law_kinet_ip_is_first_in_range(rest);
        match addrs[0] {
            IpAddress::V4(o) if o[0] == 10 => {
                assert(addrs[0] == IpAddress::V4(o));
            },
            _ => {
                assert(!is_kinet_address(addrs[0]));
                match first_kinet_ip(rest) {
                    Some(o) => {
                        let i = choose|i: int|
                            0 <= i < rest.len() && rest[i] == IpAddress::V4(o) && forall|j: int|
                                0 <= j < i ==> !is_kinet_address(#[trigger] rest[j]);
                        assert(addrs[i + 1] == IpAddress::V4(o));
                        assert forall|j: int| 0 <= j < i + 1 implies !is_kinet_address(
                            #[trigger] addrs[j],
                        ) by {
                            if j > 0 {
                                assert(addrs[j] == rest[j - 1]);
                            }
                        }
                    },
                    None => {
                        assert forall|i: int| 0 <= i < addrs.len() implies !is_kinet_address(
                            #[trigger] addrs[i],
                        ) by {
                            if i > 0 {
                                assert(addrs[i] == rest[i - 1]);
                            }
                        }
                    },
                }
            },
        }
    }
}

/// The arc, and whether it is the colour supply, that a power supply label
/// of the form `"Arc <n>C"` (colour) or `"Arc <n>W"` (white) names: exactly
/// two words, the second a number followed by `C` or `W`.
pub open spec fn label_target(label: Seq<char>) -> Option<(usize, bool)> {
    let w = words(label);
    if w.len() == 2 && w[1].len() > 0 && (w[1].last() == 'C' || w[1].last() == 'W') {
        match parse_usize(w[1].drop_last()) {
            Some(n) => Some((n, w[1].last() == 'C')),
            None => None,
        }
    } else {
        None
    }
}

/// The arc, and whether it is the colour supply, that a power supply label names.
pub fn parse_pds_label(label: &str) -> (r: Option<(usize, bool)>)
    ensures
        r == label_target(label@),
{
    let chars = chars_of(label);
    let w = split_words(&chars);
    if w.len() != 2 {
        return None;
    }
    let id = &w[1];
    let n = id.len();
    if n == 0 {
        return None;
    }
    let last = id[n - 1];
    if last != 'C' && last != 'W' {
        return None;
    }
    let digits = &id.as_slice()[0..n - 1];
    assert(digits@ =~= id@.drop_last());
    match parse_usize_chars(digits) {
        Some(arc) => Some((arc, last == 'C')),
        None => None,
    }
}

/// The text of a null-padded label: its bytes up to the first null, as
/// UTF-8; empty if it has no null byte or is not valid UTF-8.
pub open spec fn label_text(label: Seq<u8>) -> Seq<char> {
    match c_string_text(label) {
        Some(t) => decode_utf8(t),
        None => seq![],
    }
}

/// Network address of a power supply: IPv4 octets and UDP port.
#[derive(Debug, Clone, Copy, PartialEq, Eq)]
pub struct PdsAddress {
    pub ip: [u8; 4],
    pub port: u16,
}

/// One of our discovered power supplies (PDS) on the network.
#[derive(Debug, Clone, Copy, PartialEq, Eq)]
pub struct KinetPowerSupply {
    pub remote_adr: PdsAddress,
    pub serial: u32,
    pub arc_index: usize,
    pub is_rgb: bool,
}

/// The two addresses are the same.
fn same_address(a: &PdsAddress, b: &PdsAddress) -> (r: bool)
    ensures
        r == (*a == *b),
{
    let r = a.ip[0] == b.ip[0] && a.ip[1] == b.ip[1] && a.ip[2] == b.ip[2] && a.ip[3] == b.ip[3]
        && a.port == b.port;
    if r {
        assert(a.ip =~= b.ip);
    }
    r
}

/// What a discovery reply led to.
#[derive(Debug, Clone, Copy, PartialEq, Eq)]
pub enum ReplyOutcome {
    /// A reply from this serial was processed before.
    AlreadySeen,
    /// The label does not name an arc (`"Arc <n>C"` or `"Arc <n>W"`).
    Unlabelled,
    /// A power supply for an arc was found.
    Found(KinetPowerSupply),
}

/// Discovery of power supplies from their replies to a poll.
pub struct Discovery {
    port: u16,
    seen_serials: HashSet<u32>,
    targets: Vec<KinetPowerSupply>,
}

impl Discovery {
    /// The UDP port that found supplies are addressed on.
    pub closed spec fn spec_port(&self) -> u16 {
        self.port
    }

    /// Serials of the replies processed so far.
    pub closed spec fn spec_seen(&self) -> Set<u32> {
        self.seen_serials@
    }

    /// Power supplies found so far, in order.
    pub closed spec fn spec_targets(&self) -> Seq<KinetPowerSupply> {
        self.targets@
    }

    /// A discovery that has seen nothing yet, addressing supplies on `port`.
    pub fn new(port: u16) -> (d: Self)
        ensures
            d.spec_port() == port,
            d.spec_seen() == Set::<u32>::empty(),
            d.spec_targets() == Seq::<KinetPowerSupply>::empty(),
    {
        Self { port, seen_serials: HashSet::new(), targets: Vec::new() }
    }

    /// Processes a reply to the poll. Each serial is processed once; a reply
    /// whose label names an arc adds a power supply at the reply's source
    /// address.
    pub fn on_reply(&mut self, reply: &PollReplyPayload) -> (r: ReplyOutcome)
        ensures
            final(self).spec_port() == old(self).spec_port(),
            old(self).spec_seen().contains(reply.serial) ==> r == ReplyOutcome::AlreadySeen
                && final(self).spec_seen() == old(self).spec_seen() && final(self).spec_targets()
                == old(self).spec_targets(),
            !old(self).spec_seen().contains(reply.serial) ==> {
                &&& final(self).spec_seen() == old(self).spec_seen().insert(reply.serial)
                &&& match label_target(label_text(reply.node_label@)) {
                    Some((arc, is_rgb)) => {
                        let pds = KinetPowerSupply {
                            remote_adr: PdsAddress { ip: reply.src_ip, port: old(self).spec_port() },
                            serial: reply.serial,
                            arc_index: arc,
                            is_rgb,
                        };
                        &&& r == ReplyOutcome::Found(pds)
                        &&& final(self).spec_targets() == old(self).spec_targets().push(pds)
                    },
                    None => r == ReplyOutcome::Unlabelled && final(self).spec_targets() == old(
                        self,
                    ).spec_targets(),
                }
            },
    {
        broadcast use vstd::std_specs::hash::group_hash_axioms;

        if !self.seen_serials.insert(reply.serial) {
            return ReplyOutcome::AlreadySeen;
        }
        let target = match reply.node_label_as_str() {
            Some(label) => {
                proof {
                    vstd::utf8::encode_utf8_decode_utf8(label@);
                }
                parse_pds_label(label)
            },
            None => None,
        };
        match target {
            Some((arc_index, is_rgb)) => {
                let pds = KinetPowerSupply {
                    remote_adr: PdsAddress { ip: reply.src_ip, port: self.port },
                    serial: reply.serial,
                    arc_index,
                    is_rgb,
                };
                self.targets.push(pds);
                ReplyOutcome::Found(pds)
            },
            None => ReplyOutcome::Unlabelled,
        }
    }

    /// Number of power supplies found so far.
    pub fn found(&self) -> (n: usize)
        ensures
            n == self.spec_targets().len(),
    {
        self.targets.len()
    }

    /// The power supplies found, in order.
    pub fn into_targets(self) -> (v: Vec<KinetPowerSupply>)
        ensures
            v@ == self.spec_targets(),
    {
        self.targets
    }
}

/// The key of a power supply: its arc, and whether it is the colour supply.
pub open spec fn key_of(p: KinetPowerSupply) -> (usize, bool) {
    (p.arc_index, p.is_rgb)
}

/// The last power supply of `ps` with key `k`, if any: what a map filled
/// from `ps` in order holds for `k`.
pub open spec fn lookup(ps: Seq<KinetPowerSupply>, k: (usize, bool)) -> Option<KinetPowerSupply>
    decreases ps.len(),
{
    if ps.len() == 0 {
        None
    } else if key_of(ps.last()) == k {
        Some(ps.last())
    } else {
        lookup(ps.drop_last(), k)
    }
}

/// The pairs (earlier, later) of power supplies of `ps` with the same key
/// but different addresses, where `earlier` is the one a map filled from
/// `ps` in order held when `later` replaced it; in the order of `later`.
pub open spec fn duplicates(ps: Seq<KinetPowerSupply>) -> Seq<(KinetPowerSupply, KinetPowerSupply)>
    decreases ps.len(),
{
    if ps.len() == 0 {
        seq![]
    } else {
        let p = ps.last();
        let d = duplicates(ps.drop_last());
        match lookup(ps.drop_last(), key_of(p)) {
            Some(e) => if e.remote_adr != p.remote_adr {
                d.push((e, p))
            } else {
                d
            },
            None => d,
        }
    }
}

/// The power supplies of `ps` whose arc is not below `num_arcs`, in order.
pub open spec fn out_of_bounds(ps: Seq<KinetPowerSupply>, num_arcs: usize) -> Seq<KinetPowerSupply>
    decreases ps.len(),
{
    if ps.len() == 0 {
        seq![]
    } else if ps.last().arc_index >= num_arcs {
        out_of_bounds(ps.drop_last(), num_arcs).push(ps.last())
    } else {
        out_of_bounds(ps.drop_last(), num_arcs)
    }
}

/// The supplies reported out of bounds are exactly those of `ps` whose arc
/// is not below `num_arcs`, colour and white alike, in the order of `ps`.
pub proof fn law_out_of_bounds_are_high_arcs(ps: Seq<KinetPowerSupply>, num_arcs: usize)
    ensures
        out_of_bounds(ps, num_arcs) == ps.filter(|p: KinetPowerSupply| p.arc_index >= num_arcs),
        forall|p: KinetPowerSupply|
            out_of_bounds(ps, num_arcs).contains(p) <==> ps.contains(p) && p.arc_index
                >= num_arcs,
    decreases ps.len(),
{
    reveal_with_fuel(Seq::filter, 1);
    let pred = |p: KinetPowerSupply| p.arc_index >= num_arcs;
    if ps.len() > 0 {
        law_out_of_bounds_are_high_arcs(ps.drop_last(), num_arcs);
        assert(ps.filter(pred) == if pred(ps.last()) {
            ps.drop_last().filter(pred).push(ps.last())
        } else {
            ps.drop_last().filter(pred)
        });
    } else {
        assert(ps.filter(pred) =~= ps);
    }
    assert forall|p: KinetPowerSupply|
        out_of_bounds(ps, num_arcs).contains(p) <==> ps.contains(p) && p.arc_index >= num_arcs by {
        if out_of_bounds(ps, num_arcs).contains(p) {
            ps.lemma_filter_contains_rev(pred, p);
        }
        if ps.contains(p) && p.arc_index >= num_arcs {
            let i = choose|i: int| 0 <= i < ps.len() && ps[i] == p;
            ps.lemma_filter_contains(pred, i);
        }
    }
}

/// The keys of the first `n` arcs that `ps` has no power supply for: for
/// each arc in order, colour then white.
pub open spec fn missing(ps: Seq<KinetPowerSupply>, n: nat) -> Seq<(usize, bool)>
    decreases n,
{
    if n == 0 {
        seq![]
    } else {
        let a = (n - 1) as usize;
        missing(ps, (n - 1) as nat) + (if lookup(ps, (a, true)) is None {
            seq![(a, true)]
        } else {
            seq![]
        }) + (if lookup(ps, (a, false)) is None {
            seq![(a, false)]
        } else {
            seq![]
        })
    }
}

/// When no key is missing, every arc below `n` has both a colour and a white
/// power supply: what `map_and_validate_targets` returns on success covers
/// the whole stage.
pub proof fn law_nothing_missing_means_complete(ps: Seq<KinetPowerSupply>, n: nat, a: usize)
    requires
        missing(ps, n).len() == 0,
        a < n,
    ensures
        lookup(ps, (a, true)) is Some,
        lookup(ps, (a, false)) is Some,
    decreases n,
{
    let m = (n - 1) as nat;
    if a < m {
        law_nothing_missing_means_complete(ps, m, a);
    }
}

/// Why the discovered power supplies cannot drive the light stage.
#[derive(Debug, Clone, PartialEq, Eq)]
pub enum TargetError {
    /// Power supplies at different addresses claim the same arc and kind:
    /// (earlier, later) pairs.
    Duplicates(Vec<(KinetPowerSupply, KinetPowerSupply)>),
    /// No power supply was found for these (arc, is colour) keys.
    Missing(Vec<(usize, bool)>),
}

/// The integer a key is stored under: twice the arc, plus one for the
/// colour supply.
pub open spec fn key_code(k: (usize, bool)) -> u128 {
    (2 * k.0 + if k.1 {
        1int
    } else {
        0int
    }) as u128
}

/// Distinct keys are stored under distinct integers.
proof fn lemma_key_code_injective(a: (usize, bool), b: (usize, bool))
    ensures
        key_code(a) == key_code(b) ==> a == b,
{
}

/// `key_code((arc, is_rgb))`.
fn key_code_of(arc: usize, is_rgb: bool) -> (c: u128)
    ensures
        c == key_code((arc, is_rgb)),
{
    let bit: u128 = if is_rgb {
        1
    } else {
        0
    };
    (arc as u128) * 2 + bit
}

/// The power supply that the map `m` holds for key `k`, if any.
pub open spec fn target_in(m: Map<u128, KinetPowerSupply>, k: (usize, bool)) -> Option<
    KinetPowerSupply,
> {
    if m.contains_key(key_code(k)) {
        Some(m[key_code(k)])
    } else {
        None
    }
}

/// Every power supply of `m` is stored under its own key.
pub open spec fn well_keyed(m: Map<u128, KinetPowerSupply>) -> bool {
    forall|c: u128| #[trigger] m.contains_key(c) ==> c == key_code(key_of(m[c]))
}

/// Power supplies keyed by (arc, is colour).
#[derive(Debug, Clone)]
pub struct PdsTargets {
    map: HashMap<u128, KinetPowerSupply>,
}

impl PdsTargets {
    /// The power supplies held, by the integer their key is stored under.
    pub closed spec fn spec_map(&self) -> Map<u128, KinetPowerSupply> {
        self.map@
    }

    /// The power supply for arc `arc_index` of the given kind, if any.
    pub fn get(&self, arc_index: usize, is_rgb: bool) -> (r: Option<KinetPowerSupply>)
        ensures
            r == target_in(self.spec_map(), (arc_index, is_rgb)),
    {
        broadcast use vstd::std_specs::hash::group_hash_axioms;

        let code = key_code_of(arc_index, is_rgb);
        match self.map.get(&code) {
            Some(p) => Some(*p),
            None => None,
        }
    }

    /// Every power supply held, each once, in no particular order.
    pub fn values(&self) -> (v: Vec<KinetPowerSupply>)
        ensures
            v@.to_set() == self.spec_map().values(),
            v@.len() == self.spec_map().dom().len(),
    {
        broadcast use vstd::std_specs::hash::group_hash_axioms;

        let ghost all = vstd::std_specs::iter::IteratorSpec::remaining(&vstd::std_specs::hash::spec_values_iter(&self.map));
        let mut v: Vec<KinetPowerSupply> = Vec::new();
        for x in it: self.map.values()
            invariant
                it.seq() == all,
                v@.len() == it.index(),
                forall|i: int| 0 <= i < it.index() ==> v@[i] == *all[i],
        {
            v.push(*x);
        }
        assert(v@ =~= all.unref());
        v
    }
}

/// Map the discovered power supplies by (arc, is colour) for lookup.
///
/// Returns the supplies whose arc is beyond `num_arcs` (which are kept in the
/// map, but worth a warning), and the map; or, as errors, the supplies at
/// different addresses that claim the same arc and kind, else the keys of the
/// arcs that no supply was found for.
pub fn map_and_validate_targets(raw_targets: Vec<KinetPowerSupply>, num_arcs: usize) -> (r: (
    Vec<KinetPowerSupply>,
    Result<PdsTargets, TargetError>,
))
    ensures
        r.0@ == out_of_bounds(raw_targets@, num_arcs),
        duplicates(raw_targets@).len() > 0 ==> (r.1 matches Err(TargetError::Duplicates(d)) && d@
            == duplicates(raw_targets@)),
        duplicates(raw_targets@).len() == 0 && missing(raw_targets@, num_arcs as nat).len() > 0
            ==> (r.1 matches Err(TargetError::Missing(m)) && m@ == missing(
            raw_targets@,
            num_arcs as nat,
        )),
        duplicates(raw_targets@).len() == 0 && missing(raw_targets@, num_arcs as nat).len() == 0
            ==> (r.1 matches Ok(t) && well_keyed(t.spec_map()) && forall|k: (usize, bool)|
            target_in(t.spec_map(), k) == lookup(raw_targets@, k)),
{
    broadcast use vstd::std_specs::hash::group_hash_axioms;

    let mut map: HashMap<u128, KinetPowerSupply> = HashMap::new();
    let mut dups: Vec<(KinetPowerSupply, KinetPowerSupply)> = Vec::new();
    let mut oob: Vec<KinetPowerSupply> = Vec::new();
    let mut i: usize = 0;
    while i < raw_targets.len()
        invariant
            i <= raw_targets@.len(),
            well_keyed(map@),
            forall|k: (usize, bool)| target_in(map@, k) == lookup(raw_targets@.take(i as int), k),
            dups@ == duplicates(raw_targets@.take(i as int)),
            oob@ == out_of_bounds(raw_targets@.take(i as int), num_arcs),
        decreases raw_targets@.len() - i,
    {
        let p = raw_targets[i];
        let ghost pre = raw_targets@.take(i as int);
        let ghost next = raw_targets@.take(i + 1);
        let ghost m0 = map@;
        assert(next.drop_last() =~= pre);
        assert(next.last() == p);
        if p.arc_index >= num_arcs {
            oob.push(p);
        }
        let code = key_code_of(p.arc_index, p.is_rgb);
        let old_entry = map.insert(code, p);
        proof {
            assert(map@ == m0.insert(code, p));
            assert forall|k: (usize, bool)| target_in(map@, k) == lookup(next, k) by {
                lemma_key_code_injective(k, key_of(p));
                assert(target_in(m0, k) == lookup(pre, k));
                if k == key_of(p) {
                    assert(lookup(next, k) == Some(p));
                } else {
                    assert(lookup(next, k) == lookup(pre, k));
                }
            }
            assert forall|c: u128| #[trigger] map@.contains_key(c) implies c == key_code(
                key_of(map@[c]),
            ) by {
                if c != code {
                    assert(m0.contains_key(c));
                }
            }
            assert(target_in(m0, key_of(p)) == lookup(pre, key_of(p)));
        }
        if let Some(e) = old_entry {
            if !same_address(&e.remote_adr, &p.remote_adr) {
                dups.push((e, p));
            }
        }
        i = i + 1;
    }
    assert(raw_targets@.take(i as int) =~= raw_targets@);
    if dups.len() > 0 {
        return (oob, Err(TargetError::Duplicates(dups)));
    }
    let mut miss: Vec<(usize, bool)> = Vec::new();
    let targets = PdsTargets { map };
    let mut a: usize = 0;
    while a < num_arcs
        invariant
            a <= num_arcs,
            forall|k: (usize, bool)| target_in(targets.spec_map(), k) == lookup(raw_targets@, k),
            miss@ == missing(raw_targets@, a as nat),
        decreases num_arcs - a,
    {
        if targets.get(a, true).is_none() {
            miss.push((a, true));
        }
        if targets.get(a, false).is_none() {
            miss.push((a, false));
        }
        a = a + 1;
        assert(miss@ =~= missing(raw_targets@, a as nat));
    }
    if miss.len() > 0 {
        return (oob, Err(TargetError::Missing(miss)));
    }
    (oob, Ok(targets))
}

/// A UDP datagram to send.
#[derive(Debug, Clone)]
pub struct Datagram {
    pub to: PdsAddress,
    pub bytes: Vec<u8>,
}

/// The `DmxOut` packet header used for every universe of one refresh.
pub open spec fn dmx_header(sequence: u32) -> KinetPacketHeader {
    KinetPacketHeader::DmxOut(
        DmxOutHeader { sequence, port: 0, flags: 0, timer_val: u32::MAX, universe: 0 },
    )
}

/// The datagrams of one refresh over the first `n` arcs: for each arc in
/// order, its colour universe to its colour supply, then its white universe
/// to its white supply, for each supply that exists. Each datagram is the
/// `DmxOut` header followed by the universe's 512 bytes.
pub open spec fn frame_datagrams(
    frame: LightStageFrame,
    targets: Map<u128, KinetPowerSupply>,
    sequence: u32,
    n: nat,
) -> Seq<(PdsAddress, Seq<u8>)>
    decreases n,
{
    if n == 0 {
        seq![]
    } else {
        let a = (n - 1) as int;
        let head = dmx_header(sequence).spec_encoding();
        frame_datagrams(frame, targets, sequence, (n - 1) as nat) + (match target_in(
            targets,
            (a as usize, true),
        ) {
            Some(p) => seq![(p.remote_adr, head + frame.rgb_universes@[a]@)],
            None => seq![],
        }) + (match target_in(targets, (a as usize, false)) {
            Some(p) => seq![(p.remote_adr, head + frame.white_universes@[a]@)],
            None => seq![],
        })
    }
}

/// `d` is a datagram for arc `a`: to its colour supply with the header and
/// colour universe `a`, or to its white supply with the header and white
/// universe `a`.
pub open spec fn is_arc_datagram(
    frame: LightStageFrame,
    targets: Map<u128, KinetPowerSupply>,
    sequence: u32,
    a: usize,
    d: (PdsAddress, Seq<u8>),
) -> bool {
    ||| target_in(targets, (a, true)) matches Some(p) && d == (p.remote_adr, dmx_header(
        sequence,
    ).spec_encoding() + frame.rgb_universes@[a as int]@)
    ||| target_in(targets, (a, false)) matches Some(p) && d == (p.remote_adr, dmx_header(
        sequence,
    ).spec_encoding() + frame.white_universes@[a as int]@)
}

/// `d` is a datagram for one of the first `n` arcs (see `is_arc_datagram`).
pub open spec fn is_datagram_of_some_arc(
    frame: LightStageFrame,
    targets: Map<u128, KinetPowerSupply>,
    sequence: u32,
    n: nat,
    d: (PdsAddress, Seq<u8>),
) -> bool {
    exists|a: usize| (a as int) < n && #[trigger] is_arc_datagram(frame, targets, sequence, a, d)
}

/// Broadcasting sends each arc's universes to that arc's own supplies: for
/// every arc `a` below `n` with a colour (white) supply `p`, a datagram goes
/// to `p`'s address holding the `DmxOut` header followed by exactly universe
/// `a` of the frame's colour (white) universes; and every datagram is one
/// of these.
pub proof fn law_broadcast_sends_own_universe(
    frame: LightStageFrame,
    targets: Map<u128, KinetPowerSupply>,
    sequence: u32,
    n: nat,
)
    requires
        n <= usize::MAX,
    ensures
        forall|a: usize|
            (a as int) < n ==> (#[trigger] target_in(targets, (a, true)) matches Some(p)
                ==> frame_datagrams(frame, targets, sequence, n).contains(
                (p.remote_adr, dmx_header(sequence).spec_encoding() + frame.rgb_universes@[a as int]@),
            )),
        forall|a: usize|
            (a as int) < n ==> (#[trigger] target_in(targets, (a, false)) matches Some(p)
                ==> frame_datagrams(frame, targets, sequence, n).contains(
                (p.remote_adr, dmx_header(sequence).spec_encoding()
                    + frame.white_universes@[a as int]@),
            )),
        forall|i: int|
            0 <= i < frame_datagrams(frame, targets, sequence, n).len() ==> is_datagram_of_some_arc(
                frame,
                targets,
                sequence,
                n,
                #[trigger] frame_datagrams(frame, targets, sequence, n)[i],
            ),
    decreases n,
{
    if n > 0 {
        let m = (n - 1) as nat;
        law_broadcast_sends_own_universe(frame, targets, sequence, m);
        let head = dmx_header(sequence).spec_encoding();
        let prev = frame_datagrams(frame, targets, sequence, m);
        let last = m as usize;
        assert(last as int == m);
        let cs = match target_in(targets, (last, true)) {
            Some(p) => seq![(p.remote_adr, head + frame.rgb_universes@[m as int]@)],
            None => seq![],
        };
        let ws = match target_in(targets, (last, false)) {
            Some(p) => seq![(p.remote_adr, head + frame.white_universes@[m as int]@)],
            None => seq![],
        };
        let ds = frame_datagrams(frame, targets, sequence, n);
        assert(ds == prev + cs + ws);
        assert forall|a: usize|
            (a as int) < n implies (#[trigger] target_in(targets, (a, true)) matches Some(p) ==> ds.contains(
                (p.remote_adr, head + frame.rgb_universes@[a as int]@),
            )) by {
            if let Some(p) = target_in(targets, (a, true)) {
                let d = (p.remote_adr, head + frame.rgb_universes@[a as int]@);
                if (a as int) < m {
                    let k = choose|k: int| 0 <= k < prev.len() && prev[k] == d;
                    assert(ds[k] == d);
                } else {
                    assert(a == last);
                    assert(ds[prev.len() as int] == d);
                }
            }
        }
        assert forall|a: usize|
            (a as int) < n implies (#[trigger] target_in(targets, (a, false)) matches Some(p) ==> ds.contains(
                (p.remote_adr, head + frame.white_universes@[a as int]@),
            )) by {
            if let Some(p) = target_in(targets, (a, false)) {
                let d = (p.remote_adr, head + frame.white_universes@[a as int]@);
                if (a as int) < m {
                    let k = choose|k: int| 0 <= k < prev.len() && prev[k] == d;
                    assert(ds[k] == d);
                } else {
                    assert(a == last);
                    assert(ds[(prev.len() + cs.len()) as int] == d);
                }
            }
        }
        assert forall|i: int|
            0 <= i < frame_datagrams(frame, targets, sequence, n).len() implies is_datagram_of_some_arc(
                frame,
                targets,
                sequence,
                n,
                #[trigger] frame_datagrams(frame, targets, sequence, n)[i],
            ) by {
            if i < prev.len() {
                assert(ds[i] == prev[i]);
                assert(is_datagram_of_some_arc(frame, targets, sequence, m, prev[i]));
                let a = choose|a: usize|
                    (a as int) < m && #[trigger] is_arc_datagram(frame, targets, sequence, a, prev[i]);
                assert(is_arc_datagram(frame, targets, sequence, a, ds[i]));
            } else if i < prev.len() + cs.len() {
                assert(ds[i] == cs[i - prev.len()]);
                assert(is_arc_datagram(frame, targets, sequence, last, ds[i]));
            } else {
                assert(ds[i] == ws[i - prev.len() - cs.len()]);
                assert(is_arc_datagram(frame, targets, sequence, last, ds[i]));
            }
        }
    } else {
        assert(frame_datagrams(frame, targets, sequence, n).len() == 0);
    }
}

/// What each datagram of `ds` holds.
pub open spec fn datagrams_view(ds: Seq<Datagram>) -> Seq<(PdsAddress, Seq<u8>)> {
    ds.map_values(|d: Datagram| (d.to, d.bytes@))
}

/// Builds `DmxOut` packets for the mapped power supplies.
pub struct DmxBroadcaster {
    targets: PdsTargets,
    num_arcs: usize,
    sequence: u32,
}

/// `head` followed by the bytes of `universe`.
fn packet_with(head: &Vec<u8>, universe: &[u8; 512]) -> (v: Vec<u8>)
    ensures
        v@ == head@ + universe@,
{
    let mut v = head.clone();
    assert(v@ =~= head@);
    crate::bytes::push_bytes(&mut v, universe);
    v
}

impl DmxBroadcaster {
    /// The power supplies addressed.
    pub closed spec fn spec_targets(&self) -> Map<u128, KinetPowerSupply> {
        self.targets.spec_map()
    }

    /// Number of arcs broadcast.
    pub closed spec fn spec_num_arcs(&self) -> usize {
        self.num_arcs
    }

    /// Sequence number of the next refresh.
    pub closed spec fn spec_sequence(&self) -> u32 {
        self.sequence
    }

    /// A broadcaster for `num_arcs` arcs to `targets`, starting at sequence 0.
    pub fn new(targets: PdsTargets, num_arcs: usize) -> (b: Self)
        ensures
            b.spec_targets() == targets.spec_map(),
            b.spec_num_arcs() == num_arcs,
            b.spec_sequence() == 0,
    {
        Self { targets, num_arcs, sequence: 0 }
    }

    /// The datagrams that broadcast `frame`: each arc's colour universe to its
    /// colour supply and white universe to its white supply, with the current
    /// sequence number; the sequence number then advances (wrapping).
    pub fn broadcast_frame(&mut self, frame: &LightStageFrame) -> (ds: Vec<Datagram>)
        requires
            forall|a: usize|
                a < old(self).spec_num_arcs() && (#[trigger] target_in(
                    old(self).spec_targets(),
                    (a, true),
                )) is Some ==> a < frame.rgb_universes@.len(),
            forall|a: usize|
                a < old(self).spec_num_arcs() && (#[trigger] target_in(
                    old(self).spec_targets(),
                    (a, false),
                )) is Some ==> a < frame.white_universes@.len(),
        ensures
            datagrams_view(ds@) == frame_datagrams(
                *frame,
                old(self).spec_targets(),
                old(self).spec_sequence(),
                old(self).spec_num_arcs() as nat,
            ),
            final(self).spec_targets() == old(self).spec_targets(),
            final(self).spec_num_arcs() == old(self).spec_num_arcs(),
            final(self).spec_sequence() == old(self).spec_sequence().wrapping_add(1),
    {
        let header = KinetPacketHeader::from(DmxOutHeader { sequence: self.sequence, ..DmxOutHeader::default() });
        let mut head: Vec<u8> = Vec::new();
        header.write_to(&mut head);
        assert(head@ =~= dmx_header(self.sequence).spec_encoding());
        let mut ds: Vec<Datagram> = Vec::new();
        let mut arc: usize = 0;
        while arc < self.num_arcs
            invariant
                arc <= self.num_arcs,
                forall|a: usize|
                    a < self.spec_num_arcs() && (#[trigger] target_in(self.spec_targets(), (a, true)))
                        is Some ==> a < frame.rgb_universes@.len(),
                forall|a: usize|
                    a < self.spec_num_arcs() && (#[trigger] target_in(self.spec_targets(), (a, false)))
                        is Some ==> a < frame.white_universes@.len(),
                head@ == dmx_header(self.sequence).spec_encoding(),
                datagrams_view(ds@) == frame_datagrams(
                    *frame,
                    self.targets.spec_map(),
                    self.sequence,
                    arc as nat,
                ),
            decreases self.num_arcs - arc,
        {
            let ghost before = ds@;
            if let Some(p) = self.targets.get(arc, true) {
                assert(target_in(self.spec_targets(), (arc, true)) is Some);
                ds.push(Datagram { to: p.remote_adr, bytes: packet_with(&head, &frame.rgb_universes[arc]) });
            }
            if let Some(p) = self.targets.get(arc, false) {
                assert(target_in(self.spec_targets(), (arc, false)) is Some);
                ds.push(Datagram { to: p.remote_adr, bytes: packet_with(&head, &frame.white_universes[arc]) });
            }
            arc = arc + 1;
            assert(datagrams_view(ds@) =~= frame_datagrams(
                *frame,
                self.targets.spec_map(),
                self.sequence,
                arc as nat,
            ));
        }
        self.sequence = self.sequence.wrapping_add(1);
        ds
    }
}

/// A KiNET header whose type code is not in the protocol's table of packet
/// types: the magic and version 1, then a code that names no `KinetPacketType`.
/// Power supplies send their heartbeats under such a code.
pub open spec fn has_unlisted_type(b: Seq<u8>) -> bool {
    KinetPacketHeader::spec_read_error(b) matches Some(KinetError::UnknownPacketType(_))
}

/// The heartbeat that the datagram `bytes` carries, if it is one: a header
/// with a type code outside the table of packet types, followed by a
/// readable heartbeat payload. Every code of the table (polls, replies, DMX
/// output, the set and fixture-discovery requests) gives `None`.
pub fn heartbeat_of(bytes: &[u8]) -> (r: Option<HeartBeatPayload>)
    ensures
        r is Some <==> has_unlisted_type(bytes@) && HeartBeatPayload::spec_read_error(
            bytes@.skip(8),
        ) is None,
        r matches Some(h) ==> h.spec_encoding() == HeartBeatPayload::spec_canonical(bytes@.skip(8)),
        bytes@.len() >= 8 && crate::packet::KinetPacketType::spec_from_code(
            crate::bytes::le_u16(bytes@[6], bytes@[7]),
        ) is Some ==> r is None,
{
    let header_ok = match KinetPacketHeader::read_from(bytes) {
        Err(KinetError::UnknownPacketType(_)) => true,
        _ => false,
    };
    if !header_ok {
        return None;
    }
    let rest = &bytes[8..bytes.len()];
    assert(rest@ =~= bytes@.skip(8));
    match HeartBeatPayload::read_from(rest) {
        Ok(h) => Some(h),
        Err(_) => None,
    }
}

/// A change in whether a power supply is reachable.
#[derive(Debug, Clone, Copy, PartialEq, Eq)]
pub enum WatchdogChange {
    /// No heartbeat for longer than the timeout: communication lost.
    Lost,
    /// Heartbeats again after communication was lost.
    Reconnected,
}

/// The heartbeat watchdog: which power supplies are considered offline.
pub struct PdsWatchdog {
    offline: HashSet<u32>,
}

impl PdsWatchdog {
    /// Serials of the power supplies considered offline.
    pub closed spec fn spec_offline(&self) -> Set<u32> {
        self.offline@
    }

    /// A watchdog that considers every power supply online.
    pub fn new() -> (w: Self)
        ensures
            w.spec_offline() == Set::<u32>::empty(),
    {
        Self { offline: HashSet::new() }
    }

    /// Records whether `serial` has gone without a heartbeat for longer
    /// than the timeout, and reports when that changes its state: `Lost` the
    /// first time it times out, `Reconnected` the first time it no longer
    /// does.
    pub fn observe(&mut self, serial: u32, timed_out: bool) -> (r: Option<WatchdogChange>)
        ensures
            timed_out ==> final(self).spec_offline() == old(self).spec_offline().insert(serial),
            !timed_out ==> final(self).spec_offline() == old(self).spec_offline().remove(serial),
            r == if timed_out && !old(self).spec_offline().contains(serial) {
                Some(WatchdogChange::Lost)
            } else if !timed_out && old(self).spec_offline().contains(serial) {
                Some(WatchdogChange::Reconnected)
            } else {
                None
            },
    {
        broadcast use vstd::std_specs::hash::group_hash_axioms;

        if timed_out {
            if self.offline.insert(serial) {
                Some(WatchdogChange::Lost)
            } else {
                None
            }
        } else if self.offline.remove(&serial) {
            Some(WatchdogChange::Reconnected)
        } else {
            None
        }
    }
}

/// Whether the power supplies are healthy: at least one supply is tracked,
/// and none has gone without a heartbeat for longer than the timeout.
/// `timed_out` holds, for each tracked supply, whether it has.
pub fn supplies_healthy(timed_out: &Vec<bool>) -> (r: bool)
    ensures
        r == (timed_out@.len() > 0 && forall|i: int| 0 <= i < timed_out@.len() ==> !timed_out@[i]),
{
    if timed_out.len() == 0 {
        return false;
    }
    let mut i: usize = 0;
    while i < timed_out.len()
        invariant
            i <= timed_out@.len(),
            forall|j: int| 0 <= j < i ==> !timed_out@[j],
        decreases timed_out@.len() - i,
    {
        if timed_out[i] {
            return false;
        }
        i = i + 1;
    }
    true
}

/// The refresh counter after one more refresh, with `k` refreshes per frame.
pub open spec fn pacer_next(counter: int, k: int) -> int {
    if counter + 1 >= k {
        0
    } else {
        counter + 1
    }
}

/// The refresh counter after `n` refreshes from the start, with `k`
/// refreshes per frame.
pub open spec fn pacer_after(k: int, n: nat) -> int
    decreases n,
{
    if n == 0 {
        0
    } else {
        pacer_next(pacer_after(k, (n - 1) as nat), k)
    }
}

/// With `k` refreshes per frame, the animation advances on every `k`-th
/// refresh: after `n` refreshes the counter is `n % k`, so a frame is due
/// exactly when `n` is a multiple of `k`.
pub proof fn law_frame_every_k_refreshes(k: int, n: nat)
    requires
        k >= 1,
    ensures
        pacer_after(k, n) == (n as int) % k,
    decreases n,
{
    if n == 0 {
        vstd::arithmetic::div_mod::lemma_fundamental_div_mod_converse(0, k, 0, 0);
    } else {
        let j = (n - 1) as nat;
        law_frame_every_k_refreshes(k, j);
        let q = j as int / k;
        let r = j as int % k;
        vstd::arithmetic::div_mod::lemma_fundamental_div_mod(j as int, k);
        if r + 1 >= k {
            assert(n == (q + 1) * k + 0) by (nonlinear_arith)
                requires
                    j == k * q + r,
                    r + 1 == k,
                    n == j + 1,
            ;
            vstd::arithmetic::div_mod::lemma_fundamental_div_mod_converse(n as int, k, q + 1, 0);
        } else {
            assert(n == q * k + (r + 1)) by (nonlinear_arith)
                requires
                    j == k * q + r,
                    n == j + 1,
            ;
            vstd::arithmetic::div_mod::lemma_fundamental_div_mod_converse(n as int, k, q, r + 1);
        }
    }
}

/// Paces the DMX refresh loop: the animation advances once every
/// `sub_ticks_per_frame` refreshes, and a capture requested for one frame is
/// fired when the next frame is due, once the fixtures have shown it.
pub struct TickPacer {
    sub_tick_counter: usize,
    pending_camera_trigger: bool,
}

impl TickPacer {
    #[verifier::type_invariant]
    spec fn counter_in_range(self) -> bool {
        self.sub_tick_counter < usize::MAX
    }

    /// Refreshes since the animation last advanced.
    pub closed spec fn spec_counter(&self) -> usize {
        self.sub_tick_counter
    }

    /// A capture was requested for the frame being shown.
    pub closed spec fn spec_pending(&self) -> bool {
        self.pending_camera_trigger
    }

    /// A pacer whose first refresh advances the animation.
    pub fn new() -> (p: Self)
        ensures
            p.spec_counter() == 0,
            !p.spec_pending(),
    {
        Self { sub_tick_counter: 0, pending_camera_trigger: false }
    }

    /// The animation advances on this refresh.
    pub fn frame_due(&self) -> (b: bool)
        ensures
            b == (self.spec_counter() == 0),
    {
        self.sub_tick_counter == 0
    }

    /// Records the result of advancing the animation; returns whether the
    /// cameras should fire now, for the frame shown until now.
    pub fn on_frame(&mut self, result: TickResult) -> (fire: bool)
        ensures
            fire == old(self).spec_pending(),
            final(self).spec_pending() == (result == TickResult::TriggerCapture),
            final(self).spec_counter() == old(self).spec_counter(),
    {
        proof {
            use_type_invariant(&*self);
        }
        let fire = self.pending_camera_trigger;
        self.pending_camera_trigger = result == TickResult::TriggerCapture;
        fire
    }

    /// Ends a refresh: counts it, starting over once `sub_ticks_per_frame`
    /// refreshes have passed since the animation advanced.
    pub fn end_sub_tick(&mut self, sub_ticks_per_frame: usize)
        ensures
            final(self).spec_pending() == old(self).spec_pending(),
            final(self).spec_counter() == pacer_next(
                old(self).spec_counter() as int,
                sub_ticks_per_frame as int,
            ),
    {
        proof {
            use_type_invariant(&*self);
        }
        if self.sub_tick_counter + 1 >= sub_ticks_per_frame {
            self.sub_tick_counter = 0;
        } else {
            self.sub_tick_counter = self.sub_tick_counter + 1;
        }
    }
}

} // verus!
