use vstd::prelude::*;

use crate::error::{concat2, concat3, Error, ImplementationError};
use crate::policy::{clamp_timeout_ms, clamped_timeout, type_allowed};
use crate::text::{
    ascii_lower, ascii_lower_char, chars_of, lemma_ascii_lower_idempotent, trim, trim_end_dots, trimmed_name_bounds,
};

verus! {

/// A DNS resource-record type: its numeric RR type code and its name in
/// presentation form (such as `MX`). Two record types are the same type when
/// their codes are equal.
#[derive(Clone, Debug, PartialEq, Eq)]
pub struct RecordType {
    /// The RR type code.
    pub code: u16,
    /// The presentation name.
    pub name: String,
}

impl RecordType {
    /// A copy of this record type.
    pub fn duplicate(&self) -> (copy: RecordType)
        ensures
            copy == *self,
    {
        RecordType { code: self.code, name: self.name.clone() }
    }
}

/// The record type, if any, that a type string was recognised as: entry `i`
/// of `parsed` belongs to type string `i`; a missing entry means that the
/// string was not recognised.
pub open spec fn parsed_at(parsed: Seq<Option<RecordType>>, i: int) -> Option<RecordType> {
    if 0 <= i < parsed.len() {
        parsed[i]
    } else {
        None
    }
}

/// `k` is the first type string that was not recognised.
pub open spec fn is_first_unknown(count: int, parsed: Seq<Option<RecordType>>, k: int) -> bool {
    &&& 0 <= k < count
    &&& parsed_at(parsed, k) is None
    &&& forall|j: int| 0 <= j < k ==> parsed_at(parsed, j) is Some
}

/// Every type string was recognised.
pub open spec fn all_known(count: int, parsed: Seq<Option<RecordType>>) -> bool {
    forall|j: int| 0 <= j < count ==> parsed_at(parsed, j) is Some
}

/// A zone in normal form: white space around it and trailing dots removed,
/// ASCII letters lower-cased.
pub open spec fn normalized_zone(zone: Seq<char>) -> Seq<char> {
    ascii_lower(trim_end_dots(trim(zone)))
}

/// A zone in normal form is already lower case.
pub proof fn normalized_zone_is_lowercase(zone: Seq<char>)
    ensures
        ascii_lower(normalized_zone(zone)) == normalized_zone(zone),
{
    lemma_ascii_lower_idempotent(trim_end_dots(trim(zone)));
}

/// No zone of the list is empty in normal form.
pub open spec fn zones_valid(zones: Option<Seq<Seq<char>>>) -> bool {
    match zones {
        Some(z) => forall|i: int| 0 <= i < z.len() ==> normalized_zone(#[trigger] z[i]).len() > 0,
        None => true,
    }
}

/// Each zone of the list in normal form.
pub open spec fn normalized_zones(zones: Option<Seq<Seq<char>>>) -> Option<Seq<Seq<char>>> {
    match zones {
        Some(z) => Some(z.map_values(|zone: Seq<char>| normalized_zone(zone))),
        None => None,
    }
}

/// The message for a list that holds a zone that is empty in normal form.
pub open spec fn empty_zone_message(field: Seq<char>) -> Seq<char> {
    field + " contains an empty zone"@
}

/// The message for an allowed type that was not recognised.
pub open spec fn unknown_allowed_type_message(record_type: Seq<char>) -> Seq<char> {
    "unknown record type '"@ + record_type + "' in allowed_types"@
}

/// The lower-case letter for an upper-case ASCII letter, as text.
fn lower_letter(c: char) -> (text: &'static str)
    requires
        'A' <= c && c <= 'Z',
    ensures
        text@ == seq![ascii_lower_char(c)],
{
    match c {
        'A' => {
            proof {
                reveal_strlit("a");
            }
            "a"
        },
        'B' => {
            proof {
                reveal_strlit("b");
            }
            "b"
        },
        'C' => {
            proof {
                reveal_strlit("c");
            }
            "c"
        },
        'D' => {
            proof {
                reveal_strlit("d");
            }
            "d"
        },
        'E' => {
            proof {
                reveal_strlit("e");
            }
            "e"
        },
        'F' => {
            proof {
                reveal_strlit("f");
            }
            "f"
        },
        'G' => {
            proof {
                reveal_strlit("g");
            }
            "g"
        },
        'H' => {
            proof {
                reveal_strlit("h");
            }
            "h"
        },
        'I' => {
            proof {
                reveal_strlit("i");
            }
            "i"
        },
        'J' => {
            proof {
                reveal_strlit("j");
            }
            "j"
        },
        'K' => {
            proof {
                reveal_strlit("k");
            }
            "k"
        },
        'L' => {
            proof {
                reveal_strlit("l");
            }
            "l"
        },
        'M' => {
            proof {
                reveal_strlit("m");
            }
            "m"
        },
        'N' => {
            proof {
                reveal_strlit("n");
            }
            "n"
        },
        'O' => {
            proof {
                reveal_strlit("o");
            }
            "o"
        },
        'P' => {
            proof {
                reveal_strlit("p");
            }
            "p"
        },
        'Q' => {
            proof {
                reveal_strlit("q");
            }
            "q"
        },
        'R' => {
            proof {
                reveal_strlit("r");
            }
            "r"
        },
        'S' => {
            proof {
                reveal_strlit("s");
            }
            "s"
        },
        'T' => {
            proof {
                reveal_strlit("t");
            }
            "t"
        },
        'U' => {
            proof {
                reveal_strlit("u");
            }
            "u"
        },
        'V' => {
            proof {
                reveal_strlit("v");
            }
            "v"
        },
        'W' => {
            proof {
                reveal_strlit("w");
            }
            "w"
        },
        'X' => {
            proof {
                reveal_strlit("x");
            }
            "x"
        },
        'Y' => {
            proof {
                reveal_strlit("y");
            }
            "y"
        },
        'Z' => {
            proof {
                reveal_strlit("z");
            }
            "z"
        },
        _ => {
            proof {
                reveal_strlit("z");
            }
            "z"
        },
    }
}

/// The ASCII lower-case form of a string: `A`-`Z` become `a`-`z`, every
/// other char is kept (as `str::to_ascii_lowercase` does).
fn to_ascii_lowercase(s: &str) -> (lower: String)
    ensures
        lower@ == ascii_lower(s@),
{
    let n = s.unicode_len();
    let mut lower = String::new();
    let mut i: usize = 0;
    while i < n
        invariant
            n == s@.len(),
            i <= n,
            lower@ == ascii_lower(s@.take(i as int)),
        decreases n - i,
    {
        let c = s.get_char(i);
        if 'A' <= c && c <= 'Z' {
            lower.append(lower_letter(c));
        } else {
            lower.append(s.substring_char(i, i + 1));
            assert(s@.subrange(i as int, i + 1) =~= seq![c]);
        }
        assert(s@.take(i + 1) =~= s@.take(i as int).push(c));
        assert(ascii_lower(s@.take(i + 1)) =~= ascii_lower(s@.take(i as int)).push(
            ascii_lower_char(c),
        ));
        i = i + 1;
    }
    assert(s@.take(n as int) =~= s@);
    lower
}

/// Brings one zone into normal form; a zone that is empty in normal form is
/// an invalid config.
fn normalize_zone(zone: String, field: &str) -> (normalized: Result<String, Error>)
    ensures
        match normalized {
            Ok(z) => z@ == normalized_zone(zone@) && z@.len() > 0,
            Err(e) => normalized_zone(zone@).len() == 0 && (e matches Error::InvalidConfig(detail)
                && detail@ == empty_zone_message(field@)),
        },
{
    let chars = chars_of(zone.as_str());
    let (lo, hi) = trimmed_name_bounds(&chars);
    let trimmed = zone.as_str().substring_char(lo, hi);
    let normalized = to_ascii_lowercase(trimmed);
    if normalized.as_str().unicode_len() == 0 {
        return Err(Error::InvalidConfig(concat2(field, " contains an empty zone")));
    }
    Ok(normalized)
}

/// Brings every zone of an optional list into normal form, failing at the
/// first zone that is empty in normal form.
fn normalize_zones(zones: Option<Vec<String>>, field: &str) -> (normalized: Result<
    Option<Vec<String>>,
    Error,
>)
    ensures
        match normalized {
            Ok(z) => zones_valid(zones.deep_view()) && z.deep_view() == normalized_zones(
                zones.deep_view(),
            ),
            Err(e) => !zones_valid(zones.deep_view()) && (e matches Error::InvalidConfig(detail)
                && detail@ == empty_zone_message(field@)),
        },
{
    let ghost zones_view = zones.deep_view();
    match zones {
        None => Ok(None),
        Some(list) => {
            let ghost input = list.deep_view();
            assert(zones_view == Some(input));
            let mut out: Vec<String> = Vec::new();
            let n = list.len();
            let mut i: usize = 0;
            while i < n
                invariant
                    n == input.len(),
                    i <= n,
                    input == list.deep_view(),
                    zones_view == Some(input),
                    zones_view == zones.deep_view(),
                    out.deep_view() == input.take(i as int).map_values(
                        |zone: Seq<char>| normalized_zone(zone),
                    ),
                    forall|k: int| 0 <= k < i ==> normalized_zone(#[trigger] input[k]).len() > 0,
                decreases n - i,
            {
                let zone = list[i].clone();
                assert(zone@ == input[i as int]);
                match normalize_zone(zone, field) {
                    Ok(z) => {
                        let ghost before = out.deep_view();
                        let ghost zv = z@;
                        out.push(z);
                        assert(out.deep_view() =~= before.push(zv));
                        assert(input.take(i + 1) =~= input.take(i as int).push(input[i as int]));
                        assert(out.deep_view() =~= input.take(i + 1).map_values(
                            |zone: Seq<char>| normalized_zone(zone),
                        ));
                    },
                    Err(e) => {
                        assert(normalized_zone(input[i as int]).len() == 0);
                        assert(!(normalized_zone(zones_view.unwrap()[i as int]).len() > 0));
                        assert(!zones_valid(zones_view));
                        return Err(e);
                    },
                }
                i = i + 1;
            }
            assert(input.take(n as int) =~= input);
            assert(zones_valid(zones_view));
            Ok(Some(out))
        },
    }
}

/// Endpoint config for the `dns_query` implementation.
#[derive(Clone, Debug, PartialEq, Eq)]
pub struct DnsConfig {
    /// Optional allowlist of DNS RR types.
    pub allowed_types: Option<Vec<String>>,
    /// Optional domain suffix allowlist.
    pub allowlist_zones: Option<Vec<String>>,
    /// Optional domain suffix blocklist.
    pub blocklist_zones: Option<Vec<String>>,
    /// Default timeout in milliseconds.
    pub default_timeout_ms: Option<u64>,
}

impl Default for DnsConfig {
    fn default() -> (config: Self)
        ensures
            config.allowed_types is None,
            config.allowlist_zones is None,
            config.blocklist_zones is None,
            config.default_timeout_ms is None,
    {
        DnsConfig {
            allowed_types: None,
            allowlist_zones: None,
            blocklist_zones: None,
            default_timeout_ms: None,
        }
    }
}

/// Validated DNS endpoint policy config.
#[derive(Clone, Debug, PartialEq, Eq)]
pub struct PreparedConfig {
    allowed_types: Option<Vec<RecordType>>,
    allowlist_zones: Option<Vec<String>>,
    blocklist_zones: Option<Vec<String>>,
    default_timeout_ms: Option<u64>,
}

impl Default for PreparedConfig {
    fn default() -> (config: Self)
        ensures
            config.allowed_type_list() is None,
            config.allowlist() is None,
            config.blocklist() is None,
            config.timeout_default() is None,
    {
        PreparedConfig {
            allowed_types: None,
            allowlist_zones: None,
            blocklist_zones: None,
            default_timeout_ms: None,
        }
    }
}

impl DnsConfig {
    /// The config is valid: every allowed type was recognised and no zone is
    /// empty in normal form.
    pub open spec fn is_valid(&self, parsed: Seq<Option<RecordType>>) -> bool {
        &&& match self.allowed_types {
            Some(types) => all_known(types@.len() as int, parsed),
            None => true,
        }
        &&& zones_valid(self.allowlist_zones.deep_view())
        &&& zones_valid(self.blocklist_zones.deep_view())
    }

    /// What `prepare_inner` reports for an invalid config: the first
    /// unrecognised allowed type, else an empty allowlist zone, else an empty
    /// blocklist zone.
    pub open spec fn invalid_detail(&self, parsed: Seq<Option<RecordType>>) -> Seq<char> {
        match self.allowed_types {
            Some(types) if !all_known(types@.len() as int, parsed) => {
                let k = choose|k: int| is_first_unknown(types@.len() as int, parsed, k);
                unknown_allowed_type_message(types@[k]@)
            },
            _ => if !zones_valid(self.allowlist_zones.deep_view()) {
                empty_zone_message("allowlist_zones"@)
            } else {
                empty_zone_message("blocklist_zones"@)
            },
        }
    }

    /// The prepared config holds what this config asks for: the recognised
    /// allowed types, the zones in normal form and the clamped timeout.
    pub open spec fn prepared_as(&self, parsed: Seq<Option<RecordType>>, prepared: PreparedConfig) -> bool {
        &&& match self.allowed_types {
            Some(types) => prepared.allowed_type_list() matches Some(list) && (list.len()
                == types@.len() && forall|i: int|
                0 <= i < list.len() ==> Some(#[trigger] list[i]) == parsed_at(parsed, i)),
            None => prepared.allowed_type_list() is None,
        }
        &&& prepared.allowlist() == normalized_zones(self.allowlist_zones.deep_view())
        &&& prepared.blocklist() == normalized_zones(self.blocklist_zones.deep_view())
        &&& prepared.timeout_default() == match self.default_timeout_ms {
            Some(ms) => Some(clamped_timeout(ms)),
            None => None,
        }
    }

    /// Validates and normalizes the endpoint policy config. `parsed[i]` is
    /// the record type that `allowed_types[i]` was recognised as, or `None`
    /// when it names no known type.
    pub fn prepare(self, parsed: &[Option<RecordType>]) -> (prepared: Result<
        PreparedConfig,
        ImplementationError,
    >)
        ensures
            prepared is Ok <==> self.is_valid(parsed@),
            match prepared {
                Ok(config) => self.prepared_as(parsed@, config),
                Err(e) => e matches ImplementationError::InvalidConfig { detail } && detail@
                    == self.invalid_detail(parsed@),
            },
    {
        match self.prepare_inner(parsed) {
            Ok(config) => Ok(config),
            Err(e) => Err(ImplementationError::from(e)),
        }
    }

    /// Validates and normalizes the endpoint policy config.
    pub fn prepare_inner(self, parsed: &[Option<RecordType>]) -> (prepared: Result<
        PreparedConfig,
        Error,
    >)
        ensures
            prepared is Ok <==> self.is_valid(parsed@),
            match prepared {
                Ok(config) => self.prepared_as(parsed@, config),
                Err(e) => e matches Error::InvalidConfig(detail) && detail@ == self.invalid_detail(
                    parsed@,
                ),
            },
    {
        let ghost cfg = self;
        let allowed_types = match self.allowed_types {
            None => None,
            Some(types) => {
                let n = types.len();
                let mut known: Vec<RecordType> = Vec::new();
                let mut i: usize = 0;
                while i < n
                    invariant
                        n == types@.len(),
                        cfg.allowed_types == Some(types),
                        cfg == self,
                        i <= n,
                        known@.len() == i,
                        forall|j: int| 0 <= j < i ==> Some(#[trigger] known@[j]) == parsed_at(parsed@, j),
                    decreases n - i,
                {
                    let recognised = i < parsed.len() && parsed[i].is_some();
                    if !recognised {
                        assert(parsed_at(parsed@, i as int) is None);
                        assert forall|j: int| 0 <= j < i implies parsed_at(parsed@, j) is Some by {
                            assert(Some(known@[j]) == parsed_at(parsed@, j));
                        }
                        assert(is_first_unknown(n as int, parsed@, i as int));
                        proof {
                            let k = choose|k: int| is_first_unknown(n as int, parsed@, k);
                            if k < i {
                                assert(Some(known@[k]) == parsed_at(parsed@, k));
                            }
                            if k > i {
                                assert(parsed_at(parsed@, i as int) is Some);
                            }
                            assert(k == i);
                        }
                        let detail = concat3(
                            "unknown record type '",
                            types[i].as_str(),
                            "' in allowed_types",
                        );
                        assert(!all_known(n as int, parsed@));
                        assert(cfg.allowed_types == Some(types));
                        assert(!cfg.is_valid(parsed@));
                        assert(detail@ == cfg.invalid_detail(parsed@));
                        return Err(Error::InvalidConfig(detail));
                    }
                    match &parsed[i] {
                        Some(record_type) => {
                            known.push(record_type.duplicate());
                        },
                        None => {},
                    }
                    i = i + 1;
                }
                assert forall|j: int| 0 <= j < n implies parsed_at(parsed@, j) is Some by {
                    assert(Some(known@[j]) == parsed_at(parsed@, j));
                }
                Some(known)
            },
        };
        let allowlist_zones = match normalize_zones(self.allowlist_zones, "allowlist_zones") {
            Ok(z) => z,
            Err(e) => {
                return Err(e);
            },
        };
        let blocklist_zones = match normalize_zones(self.blocklist_zones, "blocklist_zones") {
            Ok(z) => z,
            Err(e) => {
                return Err(e);
            },
        };
        let default_timeout_ms = match self.default_timeout_ms {
            Some(ms) => Some(clamp_timeout_ms(ms)),
            None => None,
        };
        Ok(PreparedConfig { allowed_types, allowlist_zones, blocklist_zones, default_timeout_ms })
    }
}

impl PreparedConfig {
    /// The allowed RR types, if configured.
    pub closed spec fn allowed_type_list(&self) -> Option<Seq<RecordType>> {
        match self.allowed_types {
            Some(v) => Some(v@),
            None => None,
        }
    }

    /// The allowlisted zones, in normal form, if configured.
    pub closed spec fn allowlist(&self) -> Option<Seq<Seq<char>>> {
        self.allowlist_zones.deep_view()
    }

    /// The blocklisted zones, in normal form, if configured.
    pub closed spec fn blocklist(&self) -> Option<Seq<Seq<char>>> {
        self.blocklist_zones.deep_view()
    }

    /// The clamped default timeout, if configured.
    pub closed spec fn timeout_default(&self) -> Option<u64> {
        self.default_timeout_ms
    }

    /// Allowed RR types, if configured.
    pub fn allowed_types(&self) -> (types: Option<&[RecordType]>)
        ensures
            match types {
                Some(t) => self.allowed_type_list() == Some(t@),
                None => self.allowed_type_list() is None,
            },
    {
        match &self.allowed_types {
            Some(v) => Some(v.as_slice()),
            None => None,
        }
    }

    /// Allowlisted DNS suffixes, if configured.
    pub fn allowlist_zones(&self) -> (zones: Option<&[String]>)
        ensures
            match zones {
                Some(z) => self.allowlist() == Some(z.deep_view()),
                None => self.allowlist() is None,
            },
    {
        match &self.allowlist_zones {
            Some(v) => {
                let s = v.as_slice();
                assert(s.deep_view() =~= v.deep_view());
                Some(s)
            },
            None => None,
        }
    }

    /// Blocklisted DNS suffixes, if configured.
    pub fn blocklist_zones(&self) -> (zones: Option<&[String]>)
        ensures
            match zones {
                Some(z) => self.blocklist() == Some(z.deep_view()),
                None => self.blocklist() is None,
            },
    {
        match &self.blocklist_zones {
            Some(v) => {
                let s = v.as_slice();
                assert(s.deep_view() =~= v.deep_view());
                Some(s)
            },
            None => None,
        }
    }

    /// The record type passes the type allowlist.
    pub fn allows_type(&self, record_type: &RecordType) -> (allowed: bool)
        ensures
            allowed == type_allowed(self.allowed_type_list(), *record_type),
            self.allowed_type_list() is None ==> allowed,
            forall|i: int|
                self.allowed_type_list() is Some && 0 <= i < self.allowed_type_list().unwrap().len()
                    && (#[trigger] self.allowed_type_list().unwrap()[i]).code == record_type.code
                    ==> allowed,
            allowed && self.allowed_type_list() is Some ==> exists|i: int|
                0 <= i < self.allowed_type_list().unwrap().len()
                    && (#[trigger] self.allowed_type_list().unwrap()[i]).code == record_type.code,
    {
        match &self.allowed_types {
            None => true,
            Some(list) => {
                let n = list.len();
                let mut i: usize = 0;
                while i < n
                    invariant
                        n == list@.len(),
                        i <= n,
                        self.allowed_type_list() == Some(list@),
                        forall|k: int| 0 <= k < i ==> (#[trigger] list@[k]).code != record_type.code,
                    decreases n - i,
                {
                    if list[i].code == record_type.code {
                        assert(self.allowed_type_list().unwrap()[i as int].code == record_type.code);
                        return true;
                    }
                    i = i + 1;
                }
                false
            },
        }
    }

    /// Default timeout in milliseconds after clamping.
    pub fn default_timeout_ms(&self) -> (timeout_ms: Option<u64>)
        ensures
            timeout_ms == self.timeout_default(),
    {
        self.default_timeout_ms
    }
}

} // verus!
