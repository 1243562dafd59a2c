//! DNS zone validation for split-DNS resolvers (`/etc/resolver/<zone>`).
//!
//! A single-label zone like `dev` or `com` hijacks the whole TLD; a
//! multi-label zone like `myapp.com` only hijacks `*.myapp.com`.
use vstd::prelude::*;

use crate::text::{
    ascii_lower, chars_eq, chars_of, contains_char, ends_with, has_char, has_suffix,
    is_ascii_digit, is_ascii_lower, is_ascii_text, lemma_trim_end_char_idem,
    lemma_trim_end_char_push, lemma_trim_start_char_idem, lower, lower_text, lowercase,
    nonempty_pieces, push_all, push_str, split_char, split_nonempty, string_of, trim,
    trim_end_char, trim_end_matches, trim_end_ws, trim_start_char, trim_start_matches, trim_ws,
    utf8_len, utf8_len_exceeds,
};

verus! {

// ---------------------------------------------------------------------------
// Specification
// ---------------------------------------------------------------------------

pub open spec fn msg_empty() -> Seq<char> {
    "DNS zone cannot be empty"@
}

pub open spec fn msg_too_long() -> Seq<char> {
    "DNS zone is too long"@
}

pub open spec fn msg_no_label() -> Seq<char> {
    "DNS zone must contain at least one label"@
}

pub open spec fn msg_label_too_long() -> Seq<char> {
    "each label in the DNS zone must be at most 63 characters"@
}

pub open spec fn msg_label_chars() -> Seq<char> {
    "DNS zone labels must match [a-z0-9-] and not start/end with '-'"@
}

/// The text a raw zone is normalized to before it is checked: trimmed, with
/// leading dots removed, lowercased.
pub open spec fn zone_candidate(raw: Seq<char>) -> Seq<char> {
    lower_text(trim_start_char(trim_ws(raw), '.'))
}

pub open spec fn is_label_char(c: char) -> bool {
    is_ascii_lower(c) || is_ascii_digit(c) || c == '-'
}

/// A label made of `[a-z0-9-]` that neither starts nor ends with `-`.
pub open spec fn label_shape_ok(l: Seq<char>) -> bool {
    &&& forall|i: int| 0 <= i < l.len() ==> is_label_char(#[trigger] l[i])
    &&& !(l.len() > 0 && l[0] == '-')
    &&& !(l.len() > 0 && l.last() == '-')
}

/// The complaint about one label, if any.
pub open spec fn label_error(l: Seq<char>) -> Option<Seq<char>> {
    if utf8_len(l) > 63 {
        Some(msg_label_too_long())
    } else if !label_shape_ok(l) {
        Some(msg_label_chars())
    } else {
        None
    }
}

/// The complaint about the first bad label of `ls`, if any.
pub open spec fn first_label_error(ls: Seq<Seq<char>>) -> Option<Seq<char>>
    decreases ls.len(),
{
    if ls.len() == 0 {
        None
    } else {
        match label_error(ls[0]) {
            Some(e) => Some(e),
            None => first_label_error(ls.drop_first()),
        }
    }
}

/// The result of normalizing a raw DNS zone.
pub open spec fn normalized_zone(raw: Seq<char>) -> Result<Seq<char>, Seq<char>> {
    let s = zone_candidate(raw);
    if s.len() == 0 {
        Err(msg_empty())
    } else if utf8_len(s) > 253 {
        Err(msg_too_long())
    } else if nonempty_pieces(s, '.').len() == 0 {
        Err(msg_no_label())
    } else {
        match first_label_error(nonempty_pieces(s, '.')) {
            Some(e) => Err(e),
            None => Ok(s),
        }
    }
}

/// Single-label zones that must not be used as a resolver zone.
pub open spec fn blocked_single_label_zones() -> Seq<Seq<char>> {
    seq![
        "app"@, "dev"@, "home"@, "local"@, "internal"@, "ai"@, "co"@, "com"@, "de"@, "edu"@,
        "fr"@, "gov"@, "info"@, "int"@, "io"@, "me"@, "mil"@, "net"@, "org"@, "uk"@, "us"@,
        "arpa"@, "onion"@,
    ]
}

/// Zones suggested to the user instead of a blocked one.
pub open spec fn recommended_zones() -> Seq<Seq<char>> {
    seq!["test"@, "myapp.test"@, "myapp.com"@]
}

/// `items` each wrapped in backticks, joined by `", "`.
pub open spec fn backticked_list(items: Seq<Seq<char>>) -> Seq<char>
    decreases items.len(),
{
    if items.len() == 0 {
        Seq::empty()
    } else if items.len() == 1 {
        "`"@ + items[0] + "`"@
    } else {
        backticked_list(items.drop_last()) + ", `"@ + items.last() + "`"@
    }
}

/// The message explaining why the single-label zone `z` is refused.
pub open spec fn blocked_zone_message(z: Seq<char>) -> Seq<char> {
    "`."@ + z + "` routes all `*."@ + z
        + "` DNS through Domainest and breaks real sites on that TLD. Use a private zone like `test`, or a subdomain you control (e.g. `myapp.com` for `*.myapp.com` only — other `.com` sites stay on normal DNS). Examples: "@
        + backticked_list(recommended_zones()) + "."@
}

/// A normalized zone that would hijack a whole public TLD.
pub open spec fn is_blocked_zone(z: Seq<char>) -> bool {
    !has_char(z, '.') && blocked_single_label_zones().contains(z)
}

/// The result of validating a raw DNS zone.
pub open spec fn zone_validation(raw: Seq<char>) -> Result<(), Seq<char>> {
    match normalized_zone(raw) {
        Err(e) => Err(e),
        Ok(z) => if is_blocked_zone(z) {
            Err(blocked_zone_message(z))
        } else {
            Ok(())
        },
    }
}

/// `host` is `zone` or a name below it, compared case-insensitively and
/// ignoring leading dots of the zone and trailing dots of the host.
pub open spec fn is_under_zone(host: Seq<char>, zone: Seq<char>) -> bool {
    let z = lower_text(trim_start_char(zone, '.'));
    let h = lower_text(trim_end_char(host, '.'));
    h == z || has_suffix(h, seq!['.'] + z)
}

// ---------------------------------------------------------------------------
// Implementation
// ---------------------------------------------------------------------------

fn is_label_char_exec(c: char) -> (b: bool)
    ensures
        b == is_label_char(c),
{
    ('a' <= c && c <= 'z') || ('0' <= c && c <= '9') || c == '-'
}

fn label_error_exec(l: &Vec<char>) -> (r: Option<String>)
    ensures
        match r {
            Some(e) => label_error(l@) == Some(e@),
            None => label_error(l@) is None,
        },
{
    if utf8_len_exceeds(l, 63) {
        return Some("each label in the DNS zone must be at most 63 characters".to_string());
    }
    let mut i: usize = 0;
    while i < l.len()
        invariant
            i <= l.len(),
            utf8_len(l@) <= 63,
            forall|j: int| 0 <= j < i ==> is_label_char(#[trigger] l@[j]),
        decreases l.len() - i,
    {
        if !is_label_char_exec(l[i]) {
            assert(!label_shape_ok(l@)) by {
                assert(!is_label_char(l@[i as int]));
            }
            return Some(
                "DNS zone labels must match [a-z0-9-] and not start/end with '-'".to_string(),
            );
        }
        i += 1;
    }
    if (l.len() > 0 && l[0] == '-') || (l.len() > 0 && l[l.len() - 1] == '-') {
        return Some("DNS zone labels must match [a-z0-9-] and not start/end with '-'".to_string());
    }
    None
}

/// Normalizes a DNS zone: trims it, drops leading dots, lowercases it, and
/// checks its length and labels.
pub fn normalize_dns_zone(raw: &str) -> (r: Result<String, String>)
    ensures
        match r {
            Ok(s) => normalized_zone(raw@) == Ok::<Seq<char>, Seq<char>>(s@),
            Err(e) => normalized_zone(raw@) == Err::<Seq<char>, Seq<char>>(e@),
        },
{
    let v = chars_of(raw);
    let t = trim(&v);
    let u = trim_start_matches(&t, '.');
    let s = lower(&u);
    assert(s@ == zone_candidate(raw@));
    if s.len() == 0 {
        return Err("DNS zone cannot be empty".to_string());
    }
    if utf8_len_exceeds(&s, 253) {
        return Err("DNS zone is too long".to_string());
    }
    let labels = split_nonempty(&s, '.');
    let ghost ls = nonempty_pieces(s@, '.');
    if labels.len() == 0 {
        return Err("DNS zone must contain at least one label".to_string());
    }
    let mut i: usize = 0;
    assert(ls.subrange(0, ls.len() as int) =~= ls);
    while i < labels.len()
        invariant
            i <= labels.len() == ls.len(),
            ls == nonempty_pieces(s@, '.'),
            s@ == zone_candidate(raw@),
            s@.len() > 0,
            utf8_len(s@) <= 253,
            ls.len() > 0,
            forall|k: int| 0 <= k < labels@.len() ==> (#[trigger] labels@[k])@ == ls[k],
            first_label_error(ls) == first_label_error(ls.subrange(i as int, ls.len() as int)),
        decreases labels.len() - i,
    {
        let ghost rest = ls.subrange(i as int, ls.len() as int);
        assert(rest[0] == ls[i as int]);
        assert(rest.drop_first() =~= ls.subrange(i + 1, ls.len() as int));
        match label_error_exec(&labels[i]) {
            Some(e) => {
                assert(label_error(rest[0]) == Some(e@));
                assert(first_label_error(rest) == Some(e@));
                return Err(e);
            },
            None => {},
        }
        i += 1;
    }
    Ok(string_of(&s))
}

/// `items` wrapped in backticks and joined by `", "`.
fn backticked(items: &Vec<&str>) -> (r: Vec<char>)
    ensures
        r@ == backticked_list(Seq::new(items@.len(), |i: int| items@[i]@)),
{
    let ghost all = Seq::new(items@.len(), |i: int| items@[i]@);
    let mut r: Vec<char> = Vec::new();
    let mut i: usize = 0;
    while i < items.len()
        invariant
            i <= items.len(),
            all == Seq::new(items@.len(), |i: int| items@[i]@),
            r@ == backticked_list(all.subrange(0, i as int)),
        decreases items.len() - i,
    {
        let ghost pre = all.subrange(0, i as int);
        let ghost next = all.subrange(0, i + 1);
        assert(next.drop_last() =~= pre);
        if i == 0 {
            push_str(&mut r, "`");
        } else {
            push_str(&mut r, ", `");
        }
        push_str(&mut r, items[i]);
        push_str(&mut r, "`");
        proof {
            if i == 0 {
                assert(r@ =~= "`"@ + next[0] + "`"@);
            } else {
                assert(r@ =~= backticked_list(pre) + ", `"@ + next.last() + "`"@);
            }
        }
        i += 1;
    }
    assert(all.subrange(0, items.len() as int) =~= all);
    r
}

/// Validates a DNS zone: it must normalize, and a single-label zone must not
/// be a public TLD.
pub fn validate_dns_zone(zone: &str) -> (r: Result<(), String>)
    ensures
        match r {
            Ok(()) => zone_validation(zone@) == Ok::<(), Seq<char>>(()),
            Err(e) => zone_validation(zone@) == Err::<(), Seq<char>>(e@),
        },
{
    let z = match normalize_dns_zone(zone) {
        Ok(z) => z,
        Err(e) => {
            return Err(e);
        },
    };
    let zc = chars_of(z.as_str());
    if !contains_char(&zc, '.') {
        let blocked: Vec<&str> = vec![
            "app", "dev", "home", "local", "internal", "ai", "co", "com", "de", "edu", "fr", "gov",
            "info", "int", "io", "me", "mil", "net", "org", "uk", "us", "arpa", "onion",
        ];
        let ghost bz = blocked_single_label_zones();
        assert(bz.len() == blocked@.len());
        assert(forall|k: int| 0 <= k < bz.len() ==> #[trigger] bz[k] == blocked@[k]@);
        let mut i: usize = 0;
        while i < blocked.len()
            invariant
                i <= blocked.len() == bz.len(),
                bz == blocked_single_label_zones(),
                normalized_zone(zone@) == Ok::<Seq<char>, Seq<char>>(zc@),
                !has_char(zc@, '.'),
                forall|k: int| 0 <= k < bz.len() ==> #[trigger] bz[k] == blocked@[k]@,
                forall|k: int| 0 <= k < i ==> bz[k] != zc@,
            decreases blocked.len() - i,
        {
            let b = chars_of(blocked[i]);
            if chars_eq(&b, &zc) {
                assert(bz.contains(zc@)) by {
                    assert(bz[i as int] == zc@);
                }
                let recommended: Vec<&str> = vec!["test", "myapp.test", "myapp.com"];
                let list = backticked(&recommended);
                assert(Seq::new(recommended@.len(), |i: int| recommended@[i]@)
                    =~= recommended_zones());
                let mut m: Vec<char> = Vec::new();
                push_str(&mut m, "`.");
                push_all(&mut m, &zc);
                push_str(&mut m, "` routes all `*.");
                push_all(&mut m, &zc);
                push_str(
                    &mut m,
                    "` DNS through Domainest and breaks real sites on that TLD. Use a private zone like `test`, or a subdomain you control (e.g. `myapp.com` for `*.myapp.com` only — other `.com` sites stay on normal DNS). Examples: ",
                );
                push_all(&mut m, &list);
                push_str(&mut m, ".");
                assert(list@ == backticked_list(recommended_zones()));
                assert(m@ =~= blocked_zone_message(zc@));
                assert(is_blocked_zone(zc@));
                return Err(string_of(&m));
            }
            i += 1;
        }
        assert(!bz.contains(zc@));
    }
    Ok(())
}

/// True if `host` is `zone` or a subdomain of `zone` (e.g. `api.myapp.com`
/// under `myapp.com`).
pub fn domain_under_zone(host: &str, zone: &str) -> (r: bool)
    ensures
        r == is_under_zone(host@, zone@),
{
    let zc = chars_of(zone);
    let z = lower(&trim_start_matches(&zc, '.'));
    let hc = chars_of(host);
    let h = lower(&trim_end_matches(&hc, '.'));
    if chars_eq(&h, &z) {
        return true;
    }
    let mut dz: Vec<char> = Vec::new();
    dz.push('.');
    push_all(&mut dz, &z);
    assert(dz@ =~= seq!['.'] + z@);
    ends_with(&h, &dz)
}

/// Whether the split-DNS resolver for `zone` alone is enough to resolve
/// `host`.
pub fn host_covered_by_zone_resolver(host: &str, zone: &str) -> (r: bool)
    ensures
        r == is_under_zone(host@, zone@),
{
    domain_under_zone(host, zone)
}

// ---------------------------------------------------------------------------
// Laws
// ---------------------------------------------------------------------------

/// A zone without leading or trailing dots is under itself.
pub proof fn law_zone_under_itself(zone: Seq<char>)
    requires
        zone.len() == 0 || (zone[0] != '.' && zone.last() != '.'),
    ensures
        is_under_zone(zone, zone),
{
    lemma_trim_start_char_idem(zone, '.');
    lemma_trim_end_char_idem(zone, '.');
}

/// A trailing root dot on the host (a fully qualified name) does not change
/// whether it is under a zone.
pub proof fn law_under_zone_ignores_root_dot(host: Seq<char>, zone: Seq<char>)
    ensures
        is_under_zone(host.push('.'), zone) == is_under_zone(host, zone),
{
    lemma_trim_end_char_push(host, '.');
}

/// Each character of `s` other than `c` lies in some non-empty piece of `s`
/// split at `c`.
proof fn lemma_char_in_piece(s: Seq<char>, c: char, i: int)
    requires
        0 <= i < s.len(),
        s[i] != c,
    ensures
        exists|k: int, j: int|
            0 <= k < split_char(s, c).len() && 0 <= j < split_char(s, c)[k].len()
                && split_char(s, c)[k][j] == s[i],
    decreases s.len(),
{
    crate::text::lemma_split_nonempty(s, c);
    let p = split_char(s.drop_last(), c);
    crate::text::lemma_split_nonempty(s.drop_last(), c);
    if i == s.len() - 1 {
        let k = p.len() - 1;
        let q = split_char(s, c);
        assert(q[k] == p.last().push(s.last()));
        assert(q[k][q[k].len() - 1] == s[i]);
    } else {
        lemma_char_in_piece(s.drop_last(), c, i);
        let (k, j) = choose|k: int, j: int|
            0 <= k < p.len() && 0 <= j < p[k].len() && p[k][j] == s.drop_last()[i];
        let q = split_char(s, c);
        if s.last() == c {
            assert(q[k] == p[k]);
        } else if k == p.len() - 1 {
            assert(q[k] == p.last().push(s.last()));
            assert(q[k][j] == p[k][j]);
        } else {
            assert(q[k] == p[k]);
        }
    }
}

/// No complaint about any label means no complaint about each one.
proof fn lemma_no_label_error(ls: Seq<Seq<char>>, k: int)
    requires
        first_label_error(ls) is None,
        0 <= k < ls.len(),
    ensures
        label_error(ls[k]) is None,
    decreases ls.len(),
{
    if k > 0 {
        lemma_no_label_error(ls.drop_first(), k - 1);
    }
}

/// Every character of a normalized zone is a label character or a dot.
proof fn lemma_normalized_chars(raw: Seq<char>)
    requires
        normalized_zone(raw) is Ok,
    ensures
        forall|i: int|
            0 <= i < zone_candidate(raw).len() ==> (is_ascii_lower(#[trigger] zone_candidate(
                raw,
            )[i]) || is_ascii_digit(zone_candidate(raw)[i]) || zone_candidate(raw)[i] == '-'
                || zone_candidate(raw)[i] == '.'),
{
    let s = zone_candidate(raw);
    let f = |p: Seq<char>| p.len() > 0;
    assert forall|i: int| 0 <= i < s.len() implies (is_ascii_lower(#[trigger] s[i])
        || is_ascii_digit(s[i]) || s[i] == '-' || s[i] == '.') by {
        if s[i] != '.' {
            lemma_char_in_piece(s, '.', i);
            let pieces = split_char(s, '.');
            let (k, j) = choose|k: int, j: int|
                0 <= k < pieces.len() && 0 <= j < pieces[k].len() && pieces[k][j] == s[i];
            broadcast use vstd::seq_lib::group_filter_ensures;
            assert(pieces.filter(f).contains(pieces[k]));
            let m = choose|m: int| 0 <= m < pieces.filter(f).len() && pieces.filter(f)[m] == pieces[k];
            lemma_no_label_error(nonempty_pieces(s, '.'), m);
            assert(label_shape_ok(pieces[k]));
            assert(is_label_char(pieces[k][j]));
        }
    }
}

/// ASCII text stays ASCII when trimmed or stripped of leading dots, and
/// its ASCII lowering keeps the first character unless it is a capital.
pub proof fn lemma_ascii_suffix(s: Seq<char>, t: Seq<char>)
    requires
        is_ascii_text(s),
        crate::text::has_suffix(s, t),
    ensures
        is_ascii_text(t),
{
    assert forall|i: int| 0 <= i < t.len() implies crate::text::is_ascii_char(#[trigger] t[i]) by {
        assert(t[i] == s.subrange(s.len() - t.len(), s.len() as int)[i]);
        assert(s[s.len() - t.len() + i] == t[i]);
    }
}

pub proof fn lemma_trim_start_char_suffix(s: Seq<char>, c: char)
    ensures
        crate::text::has_suffix(s, trim_start_char(s, c)),
    decreases s.len(),
{
    if s.len() > 0 && s[0] == c {
        lemma_trim_start_char_suffix(s.drop_first(), c);
        let t = trim_start_char(s.drop_first(), c);
        assert(s.subrange(s.len() - t.len(), s.len() as int) =~= s.drop_first().subrange(
            s.drop_first().len() - t.len(),
            s.drop_first().len() as int,
        ));
    } else {
        assert(s.subrange(0, s.len() as int) =~= s);
    }
}

proof fn lemma_trim_end_ws_prefix_ascii(s: Seq<char>)
    requires
        is_ascii_text(s),
    ensures
        is_ascii_text(trim_end_ws(s)),
        trim_end_ws(s).len() <= s.len(),
        forall|i: int| 0 <= i < trim_end_ws(s).len() ==> trim_end_ws(s)[i] == s[i],
    decreases s.len(),
{
    if s.len() > 0 && crate::text::is_white_space(s.last()) {
        assert(is_ascii_text(s.drop_last())) by {
            assert forall|i: int| 0 <= i < s.drop_last().len() implies crate::text::is_ascii_char(
                #[trigger] s.drop_last()[i],
            ) by {
                assert(s.drop_last()[i] == s[i]);
            }
        }
        lemma_trim_end_ws_prefix_ascii(s.drop_last());
        assert forall|i: int| 0 <= i < trim_end_ws(s).len() implies trim_end_ws(s)[i] == s[i] by {
            assert(s.drop_last()[i] == s[i]);
        }
    }
}

/// Normalizing an ASCII zone twice gives what normalizing once gives.
pub proof fn law_normalize_idempotent_on_ascii(raw: Seq<char>)
    requires
        is_ascii_text(raw),
        normalized_zone(raw) is Ok,
    ensures
        normalized_zone(normalized_zone(raw)->Ok_0) == normalized_zone(raw),
{
    let s = zone_candidate(raw);
    crate::text::lemma_trim_start_ws_suffix(raw);
    lemma_ascii_suffix(raw, crate::text::trim_start_ws(raw));
    lemma_trim_end_ws_prefix_ascii(crate::text::trim_start_ws(raw));
    let tw = trim_ws(raw);
    let t = trim_start_char(tw, '.');
    lemma_trim_start_char_suffix(tw, '.');
    lemma_ascii_suffix(tw, t);
    crate::text::lemma_trim_start_char_no_lead(tw, '.');
    assert(s == ascii_lower(t));
    lemma_normalized_chars(raw);
    crate::text::lemma_no_ws_in_zone_text(s);
    assert(s.len() > 0);
    assert(s[0] != '.') by {
        assert(s[0] == crate::text::ascii_lower_char(t[0]));
    }
    lemma_trim_start_char_idem(s, '.');
    assert(is_ascii_text(s)) by {
        assert forall|i: int| 0 <= i < s.len() implies crate::text::is_ascii_char(#[trigger] s[i]) by {
            assert(is_ascii_lower(s[i]) || is_ascii_digit(s[i]) || s[i] == '-' || s[i] == '.');
        }
    }
    assert(ascii_lower(s) =~= s) by {
        assert forall|i: int| 0 <= i < s.len() implies ascii_lower(s)[i] == s[i] by {
            assert(is_ascii_lower(s[i]) || is_ascii_digit(s[i]) || s[i] == '-' || s[i] == '.');
        }
    }
    assert(zone_candidate(s) == s);
}

/// A zone in normalized form is non-empty ASCII made of `[a-z0-9.-]`,
/// already lowercase, and does not start with a dot.
pub proof fn lemma_normalized_form(zone: Seq<char>)
    requires
        normalized_zone(zone) == Ok::<Seq<char>, Seq<char>>(zone),
    ensures
        zone.len() > 0,
        zone[0] != '.',
        forall|i: int|
            0 <= i < zone.len() ==> (is_ascii_lower(#[trigger] zone[i]) || is_ascii_digit(zone[i])
                || zone[i] == '-' || zone[i] == '.'),
        is_ascii_text(zone),
        ascii_lower(zone) == zone,
{
    lemma_normalized_chars(zone);
    assert(zone_candidate(zone) == zone);
    assert(is_ascii_text(zone)) by {
        assert forall|i: int| 0 <= i < zone.len() implies crate::text::is_ascii_char(#[trigger] zone[i]) by {
            assert(is_ascii_lower(zone[i]) || is_ascii_digit(zone[i]) || zone[i] == '-' || zone[i] == '.');
        }
    }
    assert(ascii_lower(zone) =~= zone) by {
        assert forall|i: int| 0 <= i < zone.len() implies ascii_lower(zone)[i] == zone[i] by {
            assert(is_ascii_lower(zone[i]) || is_ascii_digit(zone[i]) || zone[i] == '-' || zone[i] == '.');
        }
    }
    crate::text::lemma_no_ws_in_zone_text(zone);
    if zone[0] == '.' {
        let t = trim_start_char(zone, '.');
        crate::text::lemma_trim_start_char_no_lead(zone.drop_first(), '.');
        assert(t == trim_start_char(zone.drop_first(), '.'));
        lemma_trim_start_char_suffix(zone, '.');
        lemma_ascii_suffix(zone, t);
        assert(zone_candidate(zone) == ascii_lower(t));
        assert(zone_candidate(zone).len() < zone.len());
    }
}

/// An ASCII name made of a label, a dot and a zone (without leading dot)
/// is under that zone.
pub proof fn law_subdomain_under_zone(label: Seq<char>, zone: Seq<char>)
    requires
        is_ascii_text(label),
        is_ascii_text(zone),
        zone.len() > 0,
        zone[0] != '.',
        zone.last() != '.',
    ensures
        is_under_zone(label + seq!['.'] + zone, zone),
{
    let h = label + seq!['.'] + zone;
    assert(h.last() == zone.last());
    lemma_trim_end_char_idem(h, '.');
    lemma_trim_start_char_idem(zone, '.');
    assert(is_ascii_text(h)) by {
        assert forall|i: int| 0 <= i < h.len() implies crate::text::is_ascii_char(#[trigger] h[i]) by {
            if i < label.len() {
                assert(h[i] == label[i]);
            } else if i > label.len() {
                assert(h[i] == zone[i - label.len() - 1]);
            }
        }
    }
    let lh = ascii_lower(h);
    let lz = ascii_lower(zone);
    assert(lh.subrange(lh.len() - (lz.len() + 1), lh.len() as int) =~= seq!['.'] + lz);
}

proof fn lemma_trim_end_ws_after_dot(r: Seq<char>)
    ensures
        trim_end_ws(seq!['.'] + r) == seq!['.'] + trim_end_ws(r),
    decreases r.len(),
{
    let s = seq!['.'] + r;
    if r.len() > 0 {
        assert(s.last() == r.last());
        assert(s.drop_last() =~= seq!['.'] + r.drop_last());
        lemma_trim_end_ws_after_dot(r.drop_last());
    } else {
        assert(s =~= seq!['.']);
        assert(!crate::text::is_white_space('.'));
    }
}

/// A zone may be written with or without its leading dot: `.myapp.com`
/// normalizes and validates as `myapp.com` does (for text that does not
/// itself start with white space).
pub proof fn law_leading_dot_ignored(raw: Seq<char>)
    requires
        raw.len() == 0 || !crate::text::is_white_space(raw[0]),
    ensures
        normalized_zone(seq!['.'] + raw) == normalized_zone(raw),
        zone_validation(seq!['.'] + raw) == zone_validation(raw),
{
    let s = seq!['.'] + raw;
    assert(!crate::text::is_white_space('.'));
    assert(crate::text::trim_start_ws(s) == s);
    assert(crate::text::trim_start_ws(raw) == raw);
    lemma_trim_end_ws_after_dot(raw);
    let t = trim_end_ws(raw);
    assert(trim_ws(s) == seq!['.'] + t);
    assert((seq!['.'] + t).drop_first() =~= t);
    assert(trim_start_char(trim_ws(s), '.') == trim_start_char(t, '.'));
    assert(zone_candidate(s) == zone_candidate(raw));
}

/// Only single-label zones can be refused as blocked: a normalized zone
/// with a dot in it, such as `myapp.com`, is always accepted.
pub proof fn law_multilabel_zone_accepted(raw: Seq<char>)
    requires
        normalized_zone(raw) matches Ok(z) && has_char(z, '.'),
    ensures
        zone_validation(raw) == Ok::<(), Seq<char>>(()),
{
}

/// A zone of lowercase ASCII letters that is one of the blocked zones is
/// refused.
proof fn lemma_blocked_letters_refused(z: Seq<char>)
    requires
        z.len() > 0,
        forall|i: int| 0 <= i < z.len() ==> is_ascii_lower(#[trigger] z[i]),
        blocked_single_label_zones().contains(z),
    ensures
        zone_validation(z) is Err,
{
    crate::text::lemma_no_ws_in_zone_text(z);
    assert(z[0] != '.') by {
        assert(is_ascii_lower(z[0]));
    }
    lemma_trim_start_char_idem(z, '.');
    assert(is_ascii_text(z)) by {
        assert forall|i: int| 0 <= i < z.len() implies crate::text::is_ascii_char(#[trigger] z[i]) by {
            assert(is_ascii_lower(z[i]));
        }
    }
    assert(ascii_lower(z) =~= z) by {
        assert forall|i: int| 0 <= i < z.len() implies ascii_lower(z)[i] == z[i] by {
            assert(is_ascii_lower(z[i]));
        }
    }
    assert(zone_candidate(z) == z);
    assert(!has_char(z, '.')) by {
        if has_char(z, '.') {
            let i = choose|i: int| 0 <= i < z.len() && z[i] == '.';
            assert(is_ascii_lower(z[i]));
        }
    }
}

/// `z`, listed at index `k` of the blocked zones and made of lowercase
/// letters, is refused.
proof fn lemma_listed_zone_refused(z: Seq<char>, k: int)
    requires
        0 <= k < blocked_single_label_zones().len(),
        blocked_single_label_zones()[k] == z,
        z.len() > 0,
        forall|i: int| 0 <= i < z.len() ==> is_ascii_lower(#[trigger] z[i]),
    ensures
        zone_validation(z) is Err,
{
    assert(blocked_single_label_zones().contains(z));
    lemma_blocked_letters_refused(z);
}

/// `app` is refused as a zone.
proof fn lemma_zone_app_refused()
    ensures
        zone_validation("app"@) is Err,
{
    reveal_strlit("app");
    lemma_listed_zone_refused("app"@, 0);
}

/// `dev` is refused as a zone.
proof fn lemma_zone_dev_refused()
    ensures
        zone_validation("dev"@) is Err,
{
    reveal_strlit("dev");
    lemma_listed_zone_refused("dev"@, 1);
}

/// `home` is refused as a zone.
proof fn lemma_zone_home_refused()
    ensures
        zone_validation("home"@) is Err,
{
    reveal_strlit("home");
    lemma_listed_zone_refused("home"@, 2);
}

/// `local` is refused as a zone.
proof fn lemma_zone_local_refused()
    ensures
        zone_validation("local"@) is Err,
{
    reveal_strlit("local");
    lemma_listed_zone_refused("local"@, 3);
}

/// `internal` is refused as a zone.
proof fn lemma_zone_internal_refused()
    ensures
        zone_validation("internal"@) is Err,
{
    reveal_strlit("internal");
    lemma_listed_zone_refused("internal"@, 4);
}

/// `ai` is refused as a zone.
proof fn lemma_zone_ai_refused()
    ensures
        zone_validation("ai"@) is Err,
{
    reveal_strlit("ai");
    lemma_listed_zone_refused("ai"@, 5);
}

/// `co` is refused as a zone.
proof fn lemma_zone_co_refused()
    ensures
        zone_validation("co"@) is Err,
{
    reveal_strlit("co");
    lemma_listed_zone_refused("co"@, 6);
}

/// `com` is refused as a zone.
proof fn lemma_zone_com_refused()
    ensures
        zone_validation("com"@) is Err,
{
    reveal_strlit("com");
    lemma_listed_zone_refused("com"@, 7);
}

/// `de` is refused as a zone.
proof fn lemma_zone_de_refused()
    ensures
        zone_validation("de"@) is Err,
{
    reveal_strlit("de");
    lemma_listed_zone_refused("de"@, 8);
}

/// `edu` is refused as a zone.
proof fn lemma_zone_edu_refused()
    ensures
        zone_validation("edu"@) is Err,
{
    reveal_strlit("edu");
    lemma_listed_zone_refused("edu"@, 9);
}

/// `fr` is refused as a zone.
proof fn lemma_zone_fr_refused()
    ensures
        zone_validation("fr"@) is Err,
{
    reveal_strlit("fr");
    lemma_listed_zone_refused("fr"@, 10);
}

/// `gov` is refused as a zone.
proof fn lemma_zone_gov_refused()
    ensures
        zone_validation("gov"@) is Err,
{
    reveal_strlit("gov");
    lemma_listed_zone_refused("gov"@, 11);
}

/// `info` is refused as a zone.
proof fn lemma_zone_info_refused()
    ensures
        zone_validation("info"@) is Err,
{
    reveal_strlit("info");
    lemma_listed_zone_refused("info"@, 12);
}

/// `int` is refused as a zone.
proof fn lemma_zone_int_refused()
    ensures
        zone_validation("int"@) is Err,
{
    reveal_strlit("int");
    lemma_listed_zone_refused("int"@, 13);
}

/// `io` is refused as a zone.
proof fn lemma_zone_io_refused()
    ensures
        zone_validation("io"@) is Err,
{
    reveal_strlit("io");
    lemma_listed_zone_refused("io"@, 14);
}

/// `me` is refused as a zone.
proof fn lemma_zone_me_refused()
    ensures
        zone_validation("me"@) is Err,
{
    reveal_strlit("me");
    lemma_listed_zone_refused("me"@, 15);
}

/// `mil` is refused as a zone.
proof fn lemma_zone_mil_refused()
    ensures
        zone_validation("mil"@) is Err,
{
    reveal_strlit("mil");
    lemma_listed_zone_refused("mil"@, 16);
}

/// `net` is refused as a zone.
proof fn lemma_zone_net_refused()
    ensures
        zone_validation("net"@) is Err,
{
    reveal_strlit("net");
    lemma_listed_zone_refused("net"@, 17);
}

/// `org` is refused as a zone.
proof fn lemma_zone_org_refused()
    ensures
        zone_validation("org"@) is Err,
{
    reveal_strlit("org");
    lemma_listed_zone_refused("org"@, 18);
}

/// `uk` is refused as a zone.
proof fn lemma_zone_uk_refused()
    ensures
        zone_validation("uk"@) is Err,
{
    reveal_strlit("uk");
    lemma_listed_zone_refused("uk"@, 19);
}

/// `us` is refused as a zone.
proof fn lemma_zone_us_refused()
    ensures
        zone_validation("us"@) is Err,
{
    reveal_strlit("us");
    lemma_listed_zone_refused("us"@, 20);
}

/// `arpa` is refused as a zone.
proof fn lemma_zone_arpa_refused()
    ensures
        zone_validation("arpa"@) is Err,
{
    reveal_strlit("arpa");
    lemma_listed_zone_refused("arpa"@, 21);
}

/// `onion` is refused as a zone.
proof fn lemma_zone_onion_refused()
    ensures
        zone_validation("onion"@) is Err,
{
    reveal_strlit("onion");
    lemma_listed_zone_refused("onion"@, 22);
}

/// Each single-label public zone (`app`, `dev`, `home`, `local`,
/// `internal`, `ai`, `co`, `com`, `de`, `edu`, `fr`, `gov`, `info`, `int`,
/// `io`, `me`, `mil`, `net`, `org`, `uk`, `us`, `arpa`, `onion`) is refused
/// as a zone: it would route a whole top-level domain to this machine.
pub proof fn law_public_single_label_zones_refused()
    ensures
        zone_validation("app"@) is Err,
        zone_validation("dev"@) is Err,
        zone_validation("home"@) is Err,
        zone_validation("local"@) is Err,
        zone_validation("internal"@) is Err,
        zone_validation("ai"@) is Err,
        zone_validation("co"@) is Err,
        zone_validation("com"@) is Err,
        zone_validation("de"@) is Err,
        zone_validation("edu"@) is Err,
        zone_validation("fr"@) is Err,
        zone_validation("gov"@) is Err,
        zone_validation("info"@) is Err,
        zone_validation("int"@) is Err,
        zone_validation("io"@) is Err,
        zone_validation("me"@) is Err,
        zone_validation("mil"@) is Err,
        zone_validation("net"@) is Err,
        zone_validation("org"@) is Err,
        zone_validation("uk"@) is Err,
        zone_validation("us"@) is Err,
        zone_validation("arpa"@) is Err,
        zone_validation("onion"@) is Err,
{
    lemma_zone_app_refused();
    lemma_zone_dev_refused();
    lemma_zone_home_refused();
    lemma_zone_local_refused();
    lemma_zone_internal_refused();
    lemma_zone_ai_refused();
    lemma_zone_co_refused();
    lemma_zone_com_refused();
    lemma_zone_de_refused();
    lemma_zone_edu_refused();
    lemma_zone_fr_refused();
    lemma_zone_gov_refused();
    lemma_zone_info_refused();
    lemma_zone_int_refused();
    lemma_zone_io_refused();
    lemma_zone_me_refused();
    lemma_zone_mil_refused();
    lemma_zone_net_refused();
    lemma_zone_org_refused();
    lemma_zone_uk_refused();
    lemma_zone_us_refused();
    lemma_zone_arpa_refused();
    lemma_zone_onion_refused();
}

} // verus!
