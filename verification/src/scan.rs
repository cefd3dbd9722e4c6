//! Scanning the local /24 network for other peers.
use vstd::prelude::*;

use crate::text::{all_digits, decimal_value, is_digit, lemma_decimal_nonneg, parse_u8, parsed_u8, str_eq, u8_text, u8_to_text};

verus! {

/// The parts of a text between dots (a text without dots is one part).
pub open spec fn split_dots(s: Seq<char>) -> Seq<Seq<char>>
    decreases s.len(),
{
    if s.len() == 0 {
        seq![Seq::<char>::empty()]
    } else {
        let p = split_dots(s.drop_last());
        if s.last() == '.' {
            p.push(Seq::<char>::empty())
        } else {
            p.update(p.len() - 1, p.last().push(s.last()))
        }
    }
}

/// A split has at least one part.
proof fn lemma_split_nonempty(s: Seq<char>)
    ensures
        split_dots(s).len() >= 1,
    decreases s.len(),
{
    if s.len() > 0 {
        lemma_split_nonempty(s.drop_last());
    }
}

/// The network to scan and this host's number in it, for a local IPv4
/// address: the first three parts and the number of the fourth (0 where it
/// is not a byte); nothing where the address is unknown or has not four
/// parts.
pub open spec fn scan_target(ip: Seq<char>) -> Option<(Seq<char>, u8)> {
    let parts = split_dots(ip);
    if ip == "unknown"@ || parts.len() != 4 {
        None
    } else {
        Some(
            (
                parts[0] + "."@ + parts[1] + "."@ + parts[2],
                match parsed_u8(parts[3]) {
                    Some(v) => v,
                    None => 0,
                },
            ),
        )
    }
}

/// The host numbers 1 to 254.
pub open spec fn host_numbers() -> Seq<u8> {
    Seq::new(254, |k: int| (k + 1) as u8)
}

/// Another host than `own`.
pub open spec fn other_than(own: u8) -> spec_fn(u8) -> bool {
    |h: u8| h != own
}

/// The hosts to probe: 1 to 254 in order, except this one.
pub open spec fn scan_hosts(own: u8) -> Seq<u8> {
    host_numbers().filter(other_than(own))
}

/// What to scan.
pub struct ScanPlan {
    /// The first three parts of the local address.
    pub subnet: String,
    /// This host's number.
    pub own_host: u8,
    /// The host numbers to probe.
    pub hosts: Vec<u8>,
}

/// The parts of a text between dots.
fn split_on_dots(s: &str) -> (parts: Vec<String>)
    ensures
        parts@.map_values(|p: String| p@) == split_dots(s@),
{
    let n = s.unicode_len();
    let mut parts: Vec<String> = Vec::new();
    let mut start: usize = 0;
    let mut i: usize = 0;
    assert(s@.take(0) =~= Seq::<char>::empty());
    assert(parts@.map_values(|p: String| p@).push(s@.subrange(0, 0)) =~= seq![Seq::<char>::empty()]);
    while i < n
        invariant
            n == s@.len(),
            start <= i <= n,
            split_dots(s@.take(i as int)) == parts@.map_values(|p: String| p@).push(
                s@.subrange(start as int, i as int),
            ),
        decreases n - i,
    {
        let c = s.get_char(i);
        let ghost before = parts@.map_values(|p: String| p@);
        assert(s@.take(i + 1).drop_last() =~= s@.take(i as int));
        assert(s@.take(i + 1).last() == c);
        if c == '.' {
            let part = String::from_str(s.substring_char(start, i));
            parts.push(part);
            assert(parts@.map_values(|p: String| p@) =~= before.push(s@.subrange(start as int, i as int)));
            start = i + 1;
            assert(s@.subrange(start as int, i + 1) =~= Seq::<char>::empty());
        } else {
            let ghost p = split_dots(s@.take(i as int));
            assert(s@.subrange(start as int, i + 1) =~= s@.subrange(start as int, i as int).push(c));
            assert(p.update(p.len() - 1, p.last().push(c)) =~= before.push(
                s@.subrange(start as int, i + 1),
            ));
        }
        i = i + 1;
    }
    parts.push(String::from_str(s.substring_char(start, n)));
    assert(s@.take(n as int) =~= s@);
    parts
}

/// What to scan from the local address `local_ip`, see `scan_target`.
pub fn scan_plan(local_ip: &str) -> (r: Option<ScanPlan>)
    ensures
        match scan_target(local_ip@) {
            None => r is None,
            Some((subnet, own)) => r matches Some(p) && p.subnet@ == subnet && p.own_host == own
                && p.hosts@ == scan_hosts(own),
        },
{
    if str_eq(local_ip, "unknown") {
        return None;
    }
    let parts = split_on_dots(local_ip);
    let ghost views = parts@.map_values(|p: String| p@);
    if parts.len() != 4 {
        return None;
    }
    assert(views[0] == parts@[0]@ && views[1] == parts@[1]@ && views[2] == parts@[2]@ && views[3]
        == parts@[3]@);
    let subnet = parts[0].clone().concat(".").concat(parts[1].as_str()).concat(".").concat(
        parts[2].as_str(),
    );
    let own_host: u8 = match parse_u8(parts[3].as_str()) {
        Some(v) => v,
        None => 0,
    };
    let mut hosts: Vec<u8> = Vec::new();
    let mut h: u8 = 1;
    while h <= 254
        invariant
            1 <= h <= 255,
            hosts@ == host_numbers().take(h - 1).filter(other_than(own_host)),
        decreases 255 - h,
    {
        proof {
            reveal_with_fuel(Seq::filter, 1);
            assert(host_numbers().take(h as int).drop_last() =~= host_numbers().take(h - 1));
            assert(host_numbers().take(h as int).last() == h);
        }
        if h != own_host {
            hosts.push(h);
        }
        h = h + 1;
    }
    assert(host_numbers().take(254) =~= host_numbers());
    Some(ScanPlan { subnet, own_host, hosts })
}

/// The address of host `host` in network `subnet`.
pub fn host_address(subnet: &str, host: u8) -> (a: String)
    ensures
        a@ == subnet@ + "."@ + u8_text(host),
{
    let n = u8_to_text(host);
    String::from_str(subnet).concat(".").concat(n.as_str())
}

/// The text has no dot.
pub open spec fn dotless(s: Seq<char>) -> bool {
    forall|i: int| 0 <= i < s.len() ==> #[trigger] s[i] != '.'
}

/// Appending text without dots extends the last part.
proof fn lemma_split_append_dotless(x: Seq<char>, y: Seq<char>)
    requires
        dotless(y),
    ensures
        split_dots(x + y) == split_dots(x).update(
            split_dots(x).len() - 1,
            split_dots(x).last() + y,
        ),
    decreases y.len(),
{
    lemma_split_nonempty(x);
    if y.len() == 0 {
        assert(x + y =~= x);
        assert(split_dots(x).last() + y =~= split_dots(x).last());
        assert(split_dots(x).update(split_dots(x).len() - 1, split_dots(x).last()) =~= split_dots(x));
    } else {
        let init = y.drop_last();
        assert(dotless(init)) by {
            assert forall|i: int| 0 <= i < init.len() implies #[trigger] init[i] != '.' by {
                assert(init[i] == y[i]);
            }
        }
        lemma_split_append_dotless(x, init);
        assert((x + y).drop_last() =~= x + init);
        assert((x + y).last() == y[y.len() - 1]);
        let q = split_dots(x);
        let p = split_dots(x + init);
        assert(p.last() == q.last() + init);
        assert(p.last().push(y.last()) =~= q.last() + y);
        assert(p.update(p.len() - 1, p.last().push(y.last())) =~= q.update(q.len() - 1, q.last() + y));
    }
}

/// Appending a dot starts a new, empty part.
proof fn lemma_split_append_dot(x: Seq<char>)
    ensures
        split_dots(x + seq!['.']) == split_dots(x).push(Seq::<char>::empty()),
{
    assert((x + seq!['.']).drop_last() =~= x);
    assert((x + seq!['.']).last() == '.');
}

/// An address of four dot-separated parts splits into those parts.
proof fn lemma_split_four(a: Seq<char>, b: Seq<char>, c: Seq<char>, d: Seq<char>)
    requires
        dotless(a),
        dotless(b),
        dotless(c),
        dotless(d),
    ensures
        split_dots(a + seq!['.'] + b + seq!['.'] + c + seq!['.'] + d) == seq![a, b, c, d],
{
    let e = Seq::<char>::empty();
    assert(e + a =~= a);
    lemma_split_append_dotless(e, a);
    assert(seq![e].update(0, e + a) =~= seq![a]);
    lemma_split_append_dot(a);
    lemma_split_append_dotless(a + seq!['.'], b);
    assert(seq![a, e].update(1, e + b) =~= seq![a, b]);
    lemma_split_append_dot(a + seq!['.'] + b);
    lemma_split_append_dotless(a + seq!['.'] + b + seq!['.'], c);
    assert(seq![a, b, e].update(2, e + c) =~= seq![a, b, c]);
    lemma_split_append_dot(a + seq!['.'] + b + seq!['.'] + c);
    lemma_split_append_dotless(a + seq!['.'] + b + seq!['.'] + c + seq!['.'], d);
    assert(seq![a, b, c, e].update(3, e + d) =~= seq![a, b, c, d]);
}

/// From the address `a.b.c.d`, where `d` is written in decimal digits (as
/// many as it has, leading zeros included) and is at most 255, the network
/// scanned is `a.b.c`, this host's number is the whole of `d`, and the hosts
/// probed are every number from 1 to 254 but this host's, in order.
pub proof fn lemma_scan_own_address(a: Seq<char>, b: Seq<char>, c: Seq<char>, d: Seq<char>)
    requires
        dotless(a),
        dotless(b),
        dotless(c),
        d.len() > 0,
        forall|i: int| 0 <= i < d.len() ==> '0' <= #[trigger] d[i] <= '9',
        decimal_value(d) <= 255,
    ensures
        scan_target(a + "."@ + b + "."@ + c + "."@ + d) == Some(
            (a + "."@ + b + "."@ + c, decimal_value(d) as u8),
        ),
        forall|k: int|
            0 <= k < scan_hosts(decimal_value(d) as u8).len() ==> 1 <= #[trigger] scan_hosts(
                decimal_value(d) as u8,
            )[k] <= 254 && scan_hosts(decimal_value(d) as u8)[k] != decimal_value(d),
        forall|h: u8| 1 <= h <= 254 && h != decimal_value(d) ==> #[trigger] scan_hosts(decimal_value(d) as u8).contains(h),
        forall|k1: int, k2: int|
            0 <= k1 < k2 < scan_hosts(decimal_value(d) as u8).len() ==> #[trigger] scan_hosts(decimal_value(d) as u8)[k1]
                < #[trigger] scan_hosts(decimal_value(d) as u8)[k2],
{
    reveal_strlit(".");
    reveal_strlit("unknown");
    assert("."@ =~= seq!['.']);
    assert(dotless(d)) by {
        assert forall|i: int| 0 <= i < d.len() implies #[trigger] d[i] != '.' by {
            assert('0' <= d[i] <= '9');
        }
    }
    let ip = a + "."@ + b + "."@ + c + "."@ + d;
    lemma_split_four(a, b, c, d);
    assert(ip =~= a + seq!['.'] + b + seq!['.'] + c + seq!['.'] + d);
    assert(split_dots(ip).len() == 4);
    assert(ip != "unknown"@) by {
        if ip == "unknown"@ {
            assert(ip[a.len() as int] == '.');
        }
    }
    assert(split_dots(ip)[3] == d);
    assert(d[0] != '+');
    assert(all_digits(d)) by {
        assert forall|i: int| 0 <= i < d.len() implies is_digit(#[trigger] d[i]) by {
            assert('0' <= d[i] <= '9');
        }
    }
    lemma_decimal_nonneg(d);
    assert(parsed_u8(d) == Some(decimal_value(d) as u8));
    let own = decimal_value(d) as u8;
    lemma_scan_hosts(own);
}

/// The hosts probed around host `own`: numbers from 1 to 254, increasing,
/// every one of them but `own`.
proof fn lemma_scan_hosts(own: u8)
    ensures
        forall|k: int| 0 <= k < scan_hosts(own).len() ==> 1 <= #[trigger] scan_hosts(own)[k] <= 254 && scan_hosts(own)[k] != own,
        forall|h: u8| 1 <= h <= 254 && h != own ==> #[trigger] scan_hosts(own).contains(h),
        forall|k1: int, k2: int|
            0 <= k1 < k2 < scan_hosts(own).len() ==> #[trigger] scan_hosts(own)[k1] < #[trigger] scan_hosts(own)[k2],
{
    let s = host_numbers();
    let p = other_than(own);
    assert forall|k: int| 0 <= k < s.filter(p).len() implies 1 <= #[trigger] s.filter(p)[k] <= 254 && s.filter(p)[k] != own by {
        s.lemma_filter_pred(p, k);
        assert(s.filter(p).contains(s.filter(p)[k]));
        s.lemma_filter_contains_rev(p, s.filter(p)[k]);
    }
    assert forall|h: u8| 1 <= h <= 254 && h != own implies #[trigger] s.filter(p).contains(h) by {
        assert(s[h - 1] == h);
        s.lemma_filter_contains(p, h - 1);
    }
    lemma_filter_increasing(s, p);
}

/// Keeping some elements of an increasing sequence keeps it increasing.
proof fn lemma_filter_increasing(s: Seq<u8>, p: spec_fn(u8) -> bool)
    requires
        forall|k1: int, k2: int| 0 <= k1 < k2 < s.len() ==> #[trigger] s[k1] < #[trigger] s[k2],
    ensures
        forall|k1: int, k2: int|
            0 <= k1 < k2 < s.filter(p).len() ==> #[trigger] s.filter(p)[k1] < #[trigger] s.filter(p)[k2],
    decreases s.len(),
{
    reveal_with_fuel(Seq::filter, 1);
    if s.len() > 0 {
        let init = s.drop_last();
        lemma_filter_increasing(init, p);
        let f = init.filter(p);
        assert forall|k: int| 0 <= k < f.len() implies #[trigger] f[k] < s.last() by {
            assert(f.contains(f[k]));
            init.lemma_filter_contains_rev(p, f[k]);
            let j = choose|j: int| 0 <= j < init.len() && init[j] == f[k];
            assert(s[j] == init[j]);
        }
    }
}

/// Without an address, or from an address that has not four parts, nothing
/// is scanned.
pub proof fn lemma_scan_needs_four_parts(a: Seq<char>, b: Seq<char>, c: Seq<char>)
    requires
        dotless(a),
        dotless(b),
        dotless(c),
    ensures
        scan_target("unknown"@) is None,
        scan_target(a + "."@ + b + "."@ + c) is None,
{
    reveal_strlit(".");
    reveal_strlit("unknown");
    assert("."@ =~= seq!['.']);
    let e = Seq::<char>::empty();
    assert(e + a =~= a);
    lemma_split_append_dotless(e, a);
    assert(seq![e].update(0, e + a) =~= seq![a]);
    lemma_split_append_dot(a);
    lemma_split_append_dotless(a + seq!['.'], b);
    assert(seq![a, e].update(1, e + b) =~= seq![a, b]);
    lemma_split_append_dot(a + seq!['.'] + b);
    lemma_split_append_dotless(a + seq!['.'] + b + seq!['.'], c);
    assert(seq![a, b, e].update(2, e + c) =~= seq![a, b, c]);
    assert(a + "."@ + b + "."@ + c =~= a + seq!['.'] + b + seq!['.'] + c);
    assert(split_dots("unknown"@) =~= seq!["unknown"@]) by {
        assert(dotless("unknown"@));
        lemma_split_append_dotless(e, "unknown"@);
        assert(e + "unknown"@ =~= "unknown"@);
        assert(seq![e].update(0, e + "unknown"@) =~= seq!["unknown"@]);
    }
}

/// Where the fourth part of the address does not end in a digit, it is no
/// number, and this host's number is taken as 0: every host from 1 to 254
/// is probed.
pub proof fn lemma_scan_non_numeric_host(a: Seq<char>, b: Seq<char>, c: Seq<char>, d: Seq<char>)
    requires
        dotless(a),
        dotless(b),
        dotless(c),
        dotless(d),
        d.len() > 0,
        !('0' <= d[d.len() - 1] <= '9'),
    ensures
        scan_target(a + "."@ + b + "."@ + c + "."@ + d) == Some((a + "."@ + b + "."@ + c, 0u8)),
        scan_hosts(0) == host_numbers(),
{
    reveal_strlit(".");
    reveal_strlit("unknown");
    assert("."@ =~= seq!['.']);
    let ip = a + "."@ + b + "."@ + c + "."@ + d;
    lemma_split_four(a, b, c, d);
    assert(ip =~= a + seq!['.'] + b + seq!['.'] + c + seq!['.'] + d);
    assert(ip != "unknown"@) by {
        if ip == "unknown"@ {
            assert(ip[a.len() as int] == '.');
        }
    }
    let body = crate::text::unsigned_body(d);
    if body.len() > 0 {
        assert(body[body.len() - 1] == d[d.len() - 1]);
        assert(!is_digit(body[body.len() - 1]));
    }
    assert(parsed_u8(d) is None);
    let s = host_numbers();
    let p = other_than(0);
    assert forall|k: int| 0 <= k < s.len() implies p(#[trigger] s[k]) by {}
    lemma_filter_all(s, p);
}

/// Keeping the elements that all pass keeps the whole sequence.
proof fn lemma_filter_all(s: Seq<u8>, p: spec_fn(u8) -> bool)
    requires
        forall|k: int| 0 <= k < s.len() ==> p(#[trigger] s[k]),
    ensures
        s.filter(p) == s,
    decreases s.len(),
{
    reveal_with_fuel(Seq::filter, 1);
    if s.len() > 0 {
        assert forall|k: int| 0 <= k < s.drop_last().len() implies p(#[trigger] s.drop_last()[k]) by {
            assert(s.drop_last()[k] == s[k]);
        }
        lemma_filter_all(s.drop_last(), p);
        assert(s.drop_last().push(s.last()) =~= s);
    }
}

} // verus!
