use vstd::prelude::*;

use crate::config::{PreparedConfig, RecordType};
use crate::error::{concat3, Error};
use crate::text::{
    ascii_lower, lower_all, chars_of, dns_labels, has_no_dot, is_white_space, labels_of,
    lemma_ascii_lower_idempotent, lemma_labels_lower, lemma_labels_with_label,
    same_ignoring_ascii_case, same_ignoring_ascii_case_exec, split_at_dots, trim_end,
    trim_end_dots, trim_start, with_label,
};

verus! {

/// Conservative default DNS query timeout.
pub const DEFAULT_TIMEOUT_MS: u64 = 5_000;

/// Lower clamp for caller-supplied timeouts.
pub const MIN_TIMEOUT_MS: u64 = 100;

/// Upper clamp for caller-supplied timeouts.
pub const MAX_TIMEOUT_MS: u64 = 60_000;

/// A timeout forced into `[MIN_TIMEOUT_MS, MAX_TIMEOUT_MS]`.
pub open spec fn clamped_timeout(timeout_ms: u64) -> u64 {
    if timeout_ms < MIN_TIMEOUT_MS {
        MIN_TIMEOUT_MS
    } else if timeout_ms > MAX_TIMEOUT_MS {
        MAX_TIMEOUT_MS
    } else {
        timeout_ms
    }
}

/// The per-call timeout: the request's override if present, else the
/// endpoint default if present, else `DEFAULT_TIMEOUT_MS`; then clamped.
pub open spec fn selected_timeout(config_default_ms: Option<u64>, request_ms: Option<u64>) -> u64 {
    clamped_timeout(
        match request_ms {
            Some(ms) => ms,
            None => match config_default_ms {
                Some(ms) => ms,
                None => DEFAULT_TIMEOUT_MS,
            },
        },
    )
}

/// Clamps a timeout in milliseconds to `[MIN_TIMEOUT_MS, MAX_TIMEOUT_MS]`.
pub fn clamp_timeout_ms(timeout_ms: u64) -> (clamped: u64)
    ensures
        clamped == clamped_timeout(timeout_ms),
        MIN_TIMEOUT_MS <= clamped <= MAX_TIMEOUT_MS,
        MIN_TIMEOUT_MS <= timeout_ms <= MAX_TIMEOUT_MS ==> clamped == timeout_ms,
{
    if timeout_ms < MIN_TIMEOUT_MS {
        MIN_TIMEOUT_MS
    } else if timeout_ms > MAX_TIMEOUT_MS {
        MAX_TIMEOUT_MS
    } else {
        timeout_ms
    }
}

/// Clamping a clamped timeout changes nothing.
pub proof fn clamp_is_idempotent(timeout_ms: u64)
    ensures
        clamped_timeout(clamped_timeout(timeout_ms)) == clamped_timeout(timeout_ms),
{
}

/// A request's own timeout wins over the endpoint default; without one the
/// endpoint default is used, and without either `DEFAULT_TIMEOUT_MS`.
pub proof fn timeout_precedence(config_default_ms: Option<u64>, request_ms: Option<u64>)
    ensures
        request_ms is Some ==> selected_timeout(config_default_ms, request_ms) == clamped_timeout(
            request_ms.unwrap(),
        ),
        request_ms is None && config_default_ms is Some ==> selected_timeout(
            config_default_ms,
            request_ms,
        ) == clamped_timeout(config_default_ms.unwrap()),
        request_ms is None && config_default_ms is None ==> selected_timeout(
            config_default_ms,
            request_ms,
        ) == DEFAULT_TIMEOUT_MS,
{
}

/// Every selected timeout lies within `[MIN_TIMEOUT_MS, MAX_TIMEOUT_MS]`.
pub proof fn selected_timeout_is_within_bounds(config_default_ms: Option<u64>, request_ms: Option<u64>)
    ensures
        MIN_TIMEOUT_MS <= selected_timeout(config_default_ms, request_ms) <= MAX_TIMEOUT_MS,
{
}

/// Picks the per-call timeout in milliseconds: request override first, then
/// the endpoint default, then `DEFAULT_TIMEOUT_MS`, clamped in every case.
pub fn select_timeout(config_default_ms: Option<u64>, request_ms: Option<u64>) -> (timeout_ms: u64)
    ensures
        timeout_ms == selected_timeout(config_default_ms, request_ms),
        MIN_TIMEOUT_MS <= timeout_ms <= MAX_TIMEOUT_MS,
{
    let chosen: u64 = match request_ms {
        Some(ms) => ms,
        None => match config_default_ms {
            Some(ms) => ms,
            None => DEFAULT_TIMEOUT_MS,
        },
    };
    clamp_timeout_ms(chosen)
}

/// `zone` names `name` or one of its ancestors: `zone` has at least one label,
/// and its labels are the final labels of `name`, compared up to ASCII case.
pub open spec fn zone_matches_spec(name: Seq<char>, zone: Seq<char>) -> bool {
    let name_labels = dns_labels(name);
    let zone_labels = dns_labels(zone);
    &&& zone_labels.len() > 0
    &&& zone_labels.len() <= name_labels.len()
    &&& forall|i: int|
        0 <= i < zone_labels.len() ==> #[trigger] same_ignoring_ascii_case(
            name_labels[name_labels.len() - zone_labels.len() + i],
            zone_labels[i],
        )
}

/// The labels of a domain name.
fn labels(value: &str) -> (found: Vec<Vec<char>>)
    ensures
        found.deep_view() == dns_labels(value@),
{
    labels_of(&chars_of(value))
}

/// Case-insensitive exact-final-label suffix match.
pub fn zone_matches(name: &str, zone: &str) -> (matches: bool)
    ensures
        matches == zone_matches_spec(name@, zone@),
{
    let name_labels = labels(name);
    let zone_labels = labels(zone);
    let n = name_labels.len();
    let z = zone_labels.len();
    if z == 0 || z > n {
        return false;
    }
    let offset = n - z;
    let mut i: usize = 0;
    while i < z
        invariant
            n == name_labels.deep_view().len(),
            z == zone_labels.deep_view().len(),
            name_labels.deep_view() == dns_labels(name@),
            zone_labels.deep_view() == dns_labels(zone@),
            0 < z <= n,
            offset == n - z,
            i <= z,
            forall|k: int|
                0 <= k < i ==> #[trigger] same_ignoring_ascii_case(
                    dns_labels(name@)[offset + k],
                    dns_labels(zone@)[k],
                ),
        decreases z - i,
    {
        assert(name_labels.deep_view()[offset + i] == name_labels@[offset + i]@);
        assert(zone_labels.deep_view()[i as int] == zone_labels@[i as int]@);
        if !same_ignoring_ascii_case_exec(&name_labels[offset + i], &zone_labels[i]) {
            return false;
        }
        i = i + 1;
    }
    true
}

/// A zone with at least one label matches itself.
pub proof fn zone_matches_itself(zone: Seq<char>)
    requires
        dns_labels(zone).len() > 0,
    ensures
        zone_matches_spec(zone, zone),
{
}

/// Zone matching is transitive: a name inside a zone that lies inside
/// another zone lies inside that other zone too.
pub proof fn zone_matches_transitive(name: Seq<char>, zone: Seq<char>, outer: Seq<char>)
    requires
        zone_matches_spec(name, zone),
        zone_matches_spec(zone, outer),
    ensures
        zone_matches_spec(name, outer),
{
    let n = dns_labels(name);
    let z = dns_labels(zone);
    let o = dns_labels(outer);
    assert forall|i: int| 0 <= i < o.len() implies #[trigger] same_ignoring_ascii_case(
        n[n.len() - o.len() + i],
        o[i],
    ) by {
        let j = z.len() - o.len() + i;
        assert(same_ignoring_ascii_case(z[j], o[i]));
        assert(same_ignoring_ascii_case(n[n.len() - z.len() + j], z[j]));
    }
}

proof fn lemma_same_ignoring_case_of_lowered(a: Seq<char>, b: Seq<char>)
    ensures
        same_ignoring_ascii_case(ascii_lower(a), b) == same_ignoring_ascii_case(a, b),
        same_ignoring_ascii_case(a, ascii_lower(b)) == same_ignoring_ascii_case(a, b),
{
    lemma_ascii_lower_idempotent(a);
    lemma_ascii_lower_idempotent(b);
}

/// Zone matching ignores ASCII case in the name and in the zone.
pub proof fn zone_matches_ignores_ascii_case(name: Seq<char>, zone: Seq<char>)
    ensures
        zone_matches_spec(ascii_lower(name), zone) == zone_matches_spec(name, zone),
        zone_matches_spec(name, ascii_lower(zone)) == zone_matches_spec(name, zone),
{
    lemma_labels_lower(name);
    lemma_labels_lower(zone);
    let n = dns_labels(name);
    let z = dns_labels(zone);
    if zone_matches_spec(name, zone) {
        assert forall|i: int| 0 <= i < z.len() implies #[trigger] same_ignoring_ascii_case(
            dns_labels(ascii_lower(name))[n.len() - z.len() + i],
            z[i],
        ) by {
            let k = n.len() - z.len() + i;
            assert(same_ignoring_ascii_case(n[k], z[i]));
            assert(dns_labels(ascii_lower(name))[k] == ascii_lower(n[k]));
            lemma_same_ignoring_case_of_lowered(n[k], z[i]);
        }
        assert forall|i: int| 0 <= i < z.len() implies #[trigger] same_ignoring_ascii_case(
            n[n.len() - z.len() + i],
            dns_labels(ascii_lower(zone))[i],
        ) by {
            let k = n.len() - z.len() + i;
            assert(same_ignoring_ascii_case(n[k], z[i]));
            assert(dns_labels(ascii_lower(zone))[i] == ascii_lower(z[i]));
            lemma_same_ignoring_case_of_lowered(n[k], z[i]);
        }
    }
    if zone_matches_spec(ascii_lower(name), zone) {
        assert forall|i: int| 0 <= i < z.len() implies #[trigger] same_ignoring_ascii_case(
            n[n.len() - z.len() + i],
            z[i],
        ) by {
            let k = n.len() - z.len() + i;
            assert(same_ignoring_ascii_case(dns_labels(ascii_lower(name))[k], z[i]));
            assert(dns_labels(ascii_lower(name))[k] == ascii_lower(n[k]));
            lemma_same_ignoring_case_of_lowered(n[k], z[i]);
        }
    }
    if zone_matches_spec(name, ascii_lower(zone)) {
        assert forall|i: int| 0 <= i < z.len() implies #[trigger] same_ignoring_ascii_case(
            n[n.len() - z.len() + i],
            z[i],
        ) by {
            let k = n.len() - z.len() + i;
            assert(same_ignoring_ascii_case(n[k], dns_labels(ascii_lower(zone))[i]));
            assert(dns_labels(ascii_lower(zone))[i] == ascii_lower(z[i]));
            lemma_same_ignoring_case_of_lowered(n[k], z[i]);
        }
    }
}

/// The record type passes the type allowlist: there is none, or it lists a
/// type with the same code.
pub open spec fn type_allowed(allowed: Option<Seq<RecordType>>, record_type: RecordType) -> bool {
    match allowed {
        Some(list) => exists|i: int| 0 <= i < list.len() && (#[trigger] list[i]).code == record_type.code,
        None => true,
    }
}

/// Some zone of the list matches the name.
pub open spec fn in_some_zone(name: Seq<char>, zones: Seq<Seq<char>>) -> bool {
    exists|i: int| 0 <= i < zones.len() && zone_matches_spec(name, #[trigger] zones[i])
}

/// The name passes the zone allowlist: there is none, or one of its zones
/// matches the name.
pub open spec fn admitted_by_allowlist(name: Seq<char>, allowlist: Option<Seq<Seq<char>>>) -> bool {
    match allowlist {
        Some(zones) => in_some_zone(name, zones),
        None => true,
    }
}

/// The name is refused by the zone blocklist: one of its zones matches it.
pub open spec fn blocked_by_blocklist(name: Seq<char>, blocklist: Option<Seq<Seq<char>>>) -> bool {
    match blocklist {
        Some(zones) => in_some_zone(name, zones),
        None => false,
    }
}

/// Why the endpoint policy refuses a query, checked in this order: a type
/// outside the type allowlist, a name outside the zone allowlist, a name
/// inside the zone blocklist. `None` when the query is allowed.
pub open spec fn policy_refusal(config: PreparedConfig, name: Seq<char>, record_type: RecordType) -> Option<Seq<char>> {
    if !type_allowed(config.allowed_type_list(), record_type) {
        Some("type '"@ + record_type.name@ + "' not in allowed_types"@)
    } else if !admitted_by_allowlist(name, config.allowlist()) {
        Some("zone '"@ + name + "' not in allowlist"@)
    } else if blocked_by_blocklist(name, config.blocklist()) {
        Some("zone '"@ + name + "' blocklisted"@)
    } else {
        None
    }
}

/// Tests the name against every zone of a list.
pub fn matches_any_zone(name: &str, zones: &[String]) -> (found: bool)
    ensures
        found == in_some_zone(name@, zones.deep_view()),
        forall|i: int|
            0 <= i < zones@.len() && zone_matches_spec(name@, #[trigger] zones.deep_view()[i])
                ==> found,
        found ==> exists|i: int|
            0 <= i < zones@.len() && zone_matches_spec(name@, #[trigger] zones.deep_view()[i]),
{
    let n = zones.len();
    let mut i: usize = 0;
    while i < n
        invariant
            n == zones@.len(),
            i <= n,
            forall|k: int| 0 <= k < i ==> !zone_matches_spec(name@, #[trigger] zones.deep_view()[k]),
        decreases n - i,
    {
        assert(zones.deep_view()[i as int] == zones@[i as int]@);
        if zone_matches(name, zones[i].as_str()) {
            return true;
        }
        i = i + 1;
    }
    false
}

/// Applies the endpoint policy gates to a (normalized) query name and type.
pub fn enforce(config: &PreparedConfig, name: &str, record_type: &RecordType) -> (verdict: Result<(), Error>)
    ensures
        match policy_refusal(*config, name@, *record_type) {
            Some(reason) => verdict matches Err(Error::InvalidRequest(detail)) && detail@ == reason,
            None => verdict is Ok,
        },
{
    if !config.allows_type(record_type) {
        return Err(Error::InvalidRequest(concat3("type '", record_type.name.as_str(), "' not in allowed_types")));
    }
    match config.allowlist_zones() {
        Some(allowlist) => {
            if !matches_any_zone(name, allowlist) {
                return Err(Error::InvalidRequest(concat3("zone '", name, "' not in allowlist")));
            }
        },
        None => {},
    }
    match config.blocklist_zones() {
        Some(blocklist) => {
            if matches_any_zone(name, blocklist) {
                return Err(Error::InvalidRequest(concat3("zone '", name, "' blocklisted")));
            }
        },
        None => {},
    }
    Ok(())
}

/// A zone that matches a name also matches that name with any dot-free
/// label put in front of it. (The name must not start with white space,
/// which would become part of a label in the longer name.)
pub proof fn zone_matches_child(label: Seq<char>, name: Seq<char>, zone: Seq<char>)
    requires
        zone_matches_spec(name, zone),
        has_no_dot(label),
        name.len() > 0 ==> !is_white_space(name[0]),
    ensures
        zone_matches_spec(with_label(label, name), zone),
{
    if name.len() == 0 {
        assert(trim_start(name) == name);
        assert(trim_end(name) == name);
        assert(trim_end_dots(name) == name);
        assert(split_at_dots(name).0.len() == 0);
        assert(dns_labels(name).len() == 0);
    }
    lemma_labels_with_label(label, name);
    let n = dns_labels(name);
    let z = dns_labels(zone);
    let c = dns_labels(with_label(label, name));
    assert forall|i: int| 0 <= i < z.len() implies #[trigger] same_ignoring_ascii_case(
        c[c.len() - z.len() + i],
        z[i],
    ) by {
        assert(c[c.len() - z.len() + i] == n[n.len() - z.len() + i]);
    }
}

/// A blocklist that refuses a name also refuses that name with any dot-free
/// label put in front of it.
pub proof fn blocklist_refuses_children(label: Seq<char>, name: Seq<char>, blocklist: Option<Seq<Seq<char>>>)
    requires
        blocked_by_blocklist(name, blocklist),
        has_no_dot(label),
        name.len() > 0 ==> !is_white_space(name[0]),
    ensures
        blocked_by_blocklist(with_label(label, name), blocklist),
{
    let zones = blocklist.unwrap();
    let i = choose|i: int| 0 <= i < zones.len() && zone_matches_spec(name, #[trigger] zones[i]);
    zone_matches_child(label, name, zones[i]);
}

/// An allowlist that admits a name also admits that name with any dot-free
/// label put in front of it.
pub proof fn allowlist_admits_children(label: Seq<char>, name: Seq<char>, allowlist: Option<Seq<Seq<char>>>)
    requires
        admitted_by_allowlist(name, allowlist),
        has_no_dot(label),
        name.len() > 0 ==> !is_white_space(name[0]),
    ensures
        admitted_by_allowlist(with_label(label, name), allowlist),
{
    if allowlist is Some {
        let zones = allowlist.unwrap();
        let i = choose|i: int| 0 <= i < zones.len() && zone_matches_spec(name, #[trigger] zones[i]);
        zone_matches_child(label, name, zones[i]);
    }
}

/// A zone matches a name exactly when the zone has at least one label and
/// its labels, lower-cased, are the last labels of the name, lower-cased:
/// every label of the zone counts, so two names that differ in any label
/// at the same distance from the end never match each other.
pub proof fn zone_matches_is_label_suffix(name: Seq<char>, zone: Seq<char>)
    ensures
        zone_matches_spec(name, zone) <==> {
            let n = lower_all(dns_labels(name));
            let z = lower_all(dns_labels(zone));
            &&& z.len() > 0
            &&& z.len() <= n.len()
            &&& n.skip(n.len() - z.len()) == z
        },
        zone_matches_spec(name, zone) ==> forall|i: int|
            0 <= i < dns_labels(zone).len() ==> ascii_lower(
                dns_labels(name)[dns_labels(name).len() - dns_labels(zone).len() + i],
            ) == ascii_lower(#[trigger] dns_labels(zone)[i]),
{
    let nl = dns_labels(name);
    let zl = dns_labels(zone);
    let n = lower_all(nl);
    let z = lower_all(zl);
    if zone_matches_spec(name, zone) {
        assert forall|i: int| 0 <= i < zl.len() implies ascii_lower(nl[nl.len() - zl.len() + i])
            == ascii_lower(#[trigger] zl[i]) by {
            assert(same_ignoring_ascii_case(nl[nl.len() - zl.len() + i], zl[i]));
        }
        assert(n.skip(n.len() - z.len()) =~= z);
    }
    if z.len() > 0 && z.len() <= n.len() && n.skip(n.len() - z.len()) == z {
        assert forall|i: int| 0 <= i < zl.len() implies #[trigger] same_ignoring_ascii_case(
            nl[nl.len() - zl.len() + i],
            zl[i],
        ) by {
            assert(n.skip(n.len() - z.len())[i] == z[i]);
        }
    }
}

/// A name is in a zone list as soon as any one zone of the list, at any
/// position, matches it: the allowlist then admits it and the blocklist
/// refuses it.
pub proof fn any_listed_zone_counts(name: Seq<char>, zones: Seq<Seq<char>>, i: int)
    requires
        0 <= i < zones.len(),
        zone_matches_spec(name, zones[i]),
    ensures
        in_some_zone(name, zones),
        admitted_by_allowlist(name, Some(zones)),
        blocked_by_blocklist(name, Some(zones)),
{
}

/// A name that no zone of a list matches is not in the list: the allowlist
/// refuses it and the blocklist lets it through.
pub proof fn unmatched_name_is_not_listed(name: Seq<char>, zones: Seq<Seq<char>>)
    requires
        forall|i: int| 0 <= i < zones.len() ==> !zone_matches_spec(name, #[trigger] zones[i]),
    ensures
        !in_some_zone(name, zones),
        !admitted_by_allowlist(name, Some(zones)),
        !blocked_by_blocklist(name, Some(zones)),
{
}

/// A record type passes the type allowlist as soon as any entry, at any
/// position, has its code; it fails when no entry has it.
pub proof fn listed_type_is_allowed(list: Seq<RecordType>, record_type: RecordType)
    ensures
        (exists|i: int| 0 <= i < list.len() && (#[trigger] list[i]).code == record_type.code)
            <==> type_allowed(Some(list), record_type),
        forall|i: int| 0 <= i < list.len() && (#[trigger] list[i]).code == record_type.code
            ==> type_allowed(Some(list), record_type),
        type_allowed(None, record_type),
{
    let allowed = Some(list);
    assert(allowed.unwrap() == list);
    assert(type_allowed(allowed, record_type) == exists|j: int|
        0 <= j < list.len() && (#[trigger] list[j]).code == record_type.code);
}

/// The endpoint policy lets a query through exactly when its type has the
/// code of some allowed type (or no type list is set), some allowlist zone
/// matches the name (or no allowlist is set), and no blocklist zone matches
/// it.
pub proof fn policy_accepts_exactly_what_passes_every_gate(
    config: PreparedConfig,
    name: Seq<char>,
    record_type: RecordType,
)
    ensures
        policy_refusal(config, name, record_type) is None <==> {
            &&& match config.allowed_type_list() {
                Some(list) => exists|i: int|
                    0 <= i < list.len() && (#[trigger] list[i]).code == record_type.code,
                None => true,
            }
            &&& match config.allowlist() {
                Some(zones) => exists|i: int|
                    0 <= i < zones.len() && zone_matches_spec(name, #[trigger] zones[i]),
                None => true,
            }
            &&& match config.blocklist() {
                Some(zones) => forall|i: int|
                    0 <= i < zones.len() ==> !zone_matches_spec(name, #[trigger] zones[i]),
                None => true,
            }
        },
{
}

} // verus!
