use vstd::prelude::*;

verus! {

/// Joins two strings.
pub fn concat2(a: &str, b: &str) -> (joined: String)
    ensures
        joined@ == a@ + b@,
{
    let mut joined = String::from_str(a);
    joined.append(b);
    joined
}

/// Joins three strings.
pub fn concat3(a: &str, b: &str, c: &str) -> (joined: String)
    ensures
        joined@ == a@ + b@ + c@,
{
    let mut joined = String::from_str(a);
    joined.append(b);
    joined.append(c);
    joined
}

/// The decimal digit for `d < 10`.
pub open spec fn decimal_digit(d: nat) -> char {
    ((d + 48) as u32) as char
}

/// The decimal form of a number, most significant digit first.
pub open spec fn decimal(n: nat) -> Seq<char>
    decreases n,
{
    if n < 10 {
        seq![decimal_digit(n)]
    } else {
        decimal(n / 10).push(decimal_digit(n % 10))
    }
}

/// The one-char text of a decimal digit.
fn digit_text(d: u16) -> (text: &'static str)
    requires
        d < 10,
    ensures
        text@ == seq![decimal_digit(d as nat)],
{
    match d {
        0 => {
            proof {
                reveal_strlit("0");
            }
            "0"
        },
        1 => {
            proof {
                reveal_strlit("1");
            }
            "1"
        },
        2 => {
            proof {
                reveal_strlit("2");
            }
            "2"
        },
        3 => {
            proof {
                reveal_strlit("3");
            }
            "3"
        },
        4 => {
            proof {
                reveal_strlit("4");
            }
            "4"
        },
        5 => {
            proof {
                reveal_strlit("5");
            }
            "5"
        },
        6 => {
            proof {
                reveal_strlit("6");
            }
            "6"
        },
        7 => {
            proof {
                reveal_strlit("7");
            }
            "7"
        },
        8 => {
            proof {
                reveal_strlit("8");
            }
            "8"
        },
        9 => {
            proof {
                reveal_strlit("9");
            }
            "9"
        },
        _ => {
            proof {
                reveal_strlit("9");
            }
            "9"
        },
    }
}

/// The decimal form of a number, as `u16::to_string` writes it.
fn decimal_text(n: u16) -> (text: String)
    ensures
        text@ == decimal(n as nat),
    decreases n,
{
    if n < 10 {
        String::from_str(digit_text(n))
    } else {
        let mut text = decimal_text(n / 10);
        let digit = digit_text(n % 10);
        text.append(digit);
        assert(text@ =~= decimal((n / 10) as nat).push(decimal_digit((n % 10) as nat)));
        text
    }
}

/// The connector-level failure of one call: the categories that a connector
/// implementation reports to the framework.
#[derive(Clone, Debug, PartialEq, Eq)]
pub enum ImplementationError {
    /// Connector configuration was invalid or incomplete.
    InvalidConfig { detail: String },
    /// The upstream (here: the DNS server) answered with a failure status.
    UpstreamError { status: u16, body: String },
    /// The upstream did not answer within the allowed time.
    UpstreamTimeout,
    /// The caller-supplied request was invalid.
    InvalidRequest { detail: String },
    /// An internal error occurred in the connector implementation.
    Internal { detail: String },
}

impl ImplementationError {
    /// The human-readable text of the failure.
    pub open spec fn text(&self) -> Seq<char> {
        match self {
            ImplementationError::InvalidConfig { detail } => "invalid config: "@ + detail@,
            ImplementationError::UpstreamError { status, body } => "upstream returned non-success status "@
                + decimal(*status as nat) + ": "@ + body@,
            ImplementationError::UpstreamTimeout => "upstream timeout"@,
            ImplementationError::InvalidRequest { detail } => "invalid request: "@ + detail@,
            ImplementationError::Internal { detail } => "internal implementation error: "@ + detail@,
        }
    }

    /// The human-readable text of the failure.
    pub fn to_string(&self) -> (text: String)
        ensures
            text@ == self.text(),
    {
        match self {
            ImplementationError::InvalidConfig { detail } => concat2(
                "invalid config: ",
                detail.as_str(),
            ),
            ImplementationError::UpstreamError { status, body } => {
                let digits = decimal_text(*status);
                let mut text = concat3(
                    "upstream returned non-success status ",
                    digits.as_str(),
                    ": ",
                );
                text.append(body.as_str());
                text
            },
            ImplementationError::UpstreamTimeout => String::from_str("upstream timeout"),
            ImplementationError::InvalidRequest { detail } => concat2(
                "invalid request: ",
                detail.as_str(),
            ),
            ImplementationError::Internal { detail } => concat2(
                "internal implementation error: ",
                detail.as_str(),
            ),
        }
    }
}

/// Failures of this connector, before they are reported as an
/// [`ImplementationError`].
#[derive(Clone, Debug, PartialEq, Eq)]
pub enum Error {
    /// The endpoint config is invalid.
    InvalidConfig(String),
    /// The request is invalid or refused by the endpoint policy.
    InvalidRequest(String),
    /// The DNS server answered with an error RCODE.
    DnsRcode { status: u16, body: String },
    /// Any other failure.
    Internal(String),
}

/// The report of each connector failure.
pub open spec fn reported(error: Error) -> ImplementationError {
    match error {
        Error::InvalidConfig(detail) => ImplementationError::InvalidConfig { detail },
        Error::InvalidRequest(detail) => ImplementationError::InvalidRequest { detail },
        Error::DnsRcode { status, body } => ImplementationError::UpstreamError { status, body },
        Error::Internal(detail) => ImplementationError::Internal { detail },
    }
}

impl From<Error> for ImplementationError {
    fn from(value: Error) -> (reported: Self) {
        match value {
            Error::InvalidConfig(detail) => ImplementationError::InvalidConfig { detail },
            Error::InvalidRequest(detail) => ImplementationError::InvalidRequest { detail },
            Error::DnsRcode { status, body } => ImplementationError::UpstreamError { status, body },
            Error::Internal(detail) => ImplementationError::Internal { detail },
        }
    }
}

impl vstd::std_specs::convert::FromSpecImpl<Error> for ImplementationError {
    open spec fn obeys_from_spec() -> bool {
        true
    }

    open spec fn from_spec(v: Error) -> Self {
        reported(v)
    }
}

/// A failed resolver call, as the resolver reported it.
#[derive(Clone, Debug, PartialEq, Eq)]
pub enum ResolverError {
    /// A lookup that failed; `response_code` is the DNS RCODE when the server
    /// answered with one.
    Lookup {
        name: String,
        record_type: String,
        response_code: Option<u16>,
        message: String,
        /// The resolver's full description of the failure.
        description: String,
    },
    /// Any other resolver failure, with the resolver's description of it.
    Other { description: String },
}

/// The wire name of the DNS RCODEs that are reported as upstream errors.
pub open spec fn rcode_label(code: u16) -> Option<Seq<char>> {
    if code == 3 {
        Some("NXDOMAIN"@)
    } else if code == 2 {
        Some("SERVFAIL"@)
    } else if code == 4 {
        Some("NOTIMP"@)
    } else if code == 5 {
        Some("REFUSED"@)
    } else {
        None
    }
}

/// The wire name of an RCODE that is reported as an upstream error:
/// NXDOMAIN (3), SERVFAIL (2), NOTIMP (4) and REFUSED (5).
pub fn response_code_name(code: u16) -> (label: Option<&'static str>)
    ensures
        match label {
            Some(l) => rcode_label(code) == Some(l@),
            None => rcode_label(code) is None,
        },
{
    if code == 3 {
        Some("NXDOMAIN")
    } else if code == 2 {
        Some("SERVFAIL")
    } else if code == 4 {
        Some("NOTIMP")
    } else if code == 5 {
        Some("REFUSED")
    } else {
        None
    }
}

/// `classified` is how a resolver failure is reported: a lookup refused with
/// NXDOMAIN, SERVFAIL, NOTIMP or REFUSED is `DnsRcode` with the RCODE as its
/// status and `"<RCODE>: <name> <type>"` as its body; anything else is
/// `Internal`, carrying the resolver's description.
pub open spec fn classifies(error: ResolverError, classified: Error) -> bool {
    match error {
        ResolverError::Lookup { name, record_type, response_code, description, .. } => {
            match response_code {
                Some(code) if rcode_label(code) is Some => classified matches Error::DnsRcode {
                    status,
                    body,
                } && status == code && body@ == rcode_label(code).unwrap() + ": "@ + name@
                    + " "@ + record_type@,
                _ => classified matches Error::Internal(detail) && detail@ == description@,
            }
        },
        ResolverError::Other { description } => classified matches Error::Internal(detail)
            && detail@ == description@,
    }
}

impl Error {
    /// Classifies a resolver failure: a lookup refused with NXDOMAIN,
    /// SERVFAIL, NOTIMP or REFUSED becomes `DnsRcode` with the RCODE as its
    /// status and `"<RCODE>: <name> <type>"` as its body; anything else is
    /// `Internal`, carrying the resolver's description.
    pub fn from_resolver(error: ResolverError) -> (classified: Self)
        ensures
            classifies(error, classified),
    {
        match error {
            ResolverError::Lookup { name, record_type, response_code, description, .. } => {
                match response_code {
                    Some(code) => match response_code_name(code) {
                        Some(label) => {
                            let mut body = concat3(label, ": ", name.as_str());
                            body.append(" ");
                            body.append(record_type.as_str());
                            Error::DnsRcode { status: code, body }
                        },
                        None => Error::Internal(description),
                    },
                    None => Error::Internal(description),
                }
            },
            ResolverError::Other { description } => Error::Internal(description),
        }
    }
}

} // verus!
