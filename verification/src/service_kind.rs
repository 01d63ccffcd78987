//! The services that a transaction books: hotel, airline and bank.
use vstd::prelude::*;
use crate::text::{chars_are, chars_of, text};

verus! {

/// The three services that take part in a transaction.
#[derive(Clone, Copy, PartialEq, Eq, Structural, Debug, Hash)]
pub enum ServiceKind {
    Hotel,
    Airline,
    Bank,
}

/// The name under which a service kind is written.
pub open spec fn kind_text(kind: ServiceKind) -> Seq<char> {
    match kind {
        ServiceKind::Hotel => "hotel"@,
        ServiceKind::Airline => "airline"@,
        ServiceKind::Bank => "bank"@,
    }
}

/// The service kind that a name denotes, if any.
pub open spec fn spec_parse_kind(raw: Seq<char>) -> Option<ServiceKind> {
    if raw == "hotel"@ {
        Some(ServiceKind::Hotel)
    } else if raw == "airline"@ {
        Some(ServiceKind::Airline)
    } else if raw == "bank"@ {
        Some(ServiceKind::Bank)
    } else {
        None
    }
}

/// The port on which each service listens.
pub open spec fn spec_kind_address(kind: ServiceKind) -> i32 {
    match kind {
        ServiceKind::Hotel => 8001,
        ServiceKind::Airline => 8002,
        ServiceKind::Bank => 8003,
    }
}

/// Reads a service kind from its name; any other text is refused.
pub fn parse_kind(raw_kind: String) -> (res: Result<ServiceKind, &'static str>)
    ensures
        match spec_parse_kind(raw_kind@) {
            Some(k) => res == Ok::<ServiceKind, &'static str>(k),
            None => res == Err::<ServiceKind, &'static str>("Error parsing service kind"),
        },
{
    match kind_from_chars(&chars_of(&raw_kind)) {
        Some(k) => Ok(k),
        None => Err("Error parsing service kind"),
    }
}

/// Reads a service kind from the characters of its name.
pub fn kind_from_chars(raw: &Vec<char>) -> (res: Option<ServiceKind>)
    ensures
        res == spec_parse_kind(raw@),
{
    if chars_are(raw, "hotel") {
        Some(ServiceKind::Hotel)
    } else if chars_are(raw, "airline") {
        Some(ServiceKind::Airline)
    } else if chars_are(raw, "bank") {
        Some(ServiceKind::Bank)
    } else {
        None
    }
}

/// The port of a service.
pub fn kind_address(kind: ServiceKind) -> (res: i32)
    ensures
        res == spec_kind_address(kind),
{
    match kind {
        ServiceKind::Hotel => 8001,
        ServiceKind::Airline => 8002,
        ServiceKind::Bank => 8003,
    }
}

impl ServiceKind {
    /// The name of the service, as it is written on the wire and in logs.
    pub fn to_string(&self) -> (res: String)
        ensures
            res@ == kind_text(*self),
    {
        match self {
            ServiceKind::Hotel => text("hotel"),
            ServiceKind::Airline => text("airline"),
            ServiceKind::Bank => text("bank"),
        }
    }
}

/// The name of a service reads back as the same service.
pub proof fn lemma_kind_roundtrip(kind: ServiceKind)
    ensures
        spec_parse_kind(kind_text(kind)) == Some(kind),
{
    reveal_strlit("hotel");
    reveal_strlit("airline");
    reveal_strlit("bank");
    assert("hotel"@.len() != "airline"@.len());
    assert("hotel"@[0] != "bank"@[0]);
    assert("airline"@[0] != "bank"@[0]);
}

/// A service name holds none of the separators of the formats and no digit.
pub proof fn lemma_kind_text_chars(kind: ServiceKind)
    ensures
        kind_text(kind).len() > 0,
        forall|i: int|
            0 <= i < kind_text(kind).len() ==> 'a' <= #[trigger] kind_text(kind)[i] && kind_text(
                kind,
            )[i] <= 'z',
{
    reveal_strlit("hotel");
    reveal_strlit("airline");
    reveal_strlit("bank");
}

} // verus!
