//! One operation of a transaction: a service and an amount.
use vstd::prelude::*;
use crate::service_kind::{ServiceKind, kind_from_chars, spec_parse_kind};
use crate::text::{chars_of, parse_u64, spec_parse_u64, split_chars, split_fields};

verus! {

/// One operation of a transaction: what a service is asked to book.
#[derive(Clone, Copy, PartialEq, Eq, Structural, Debug)]
pub struct Operation {
    pub service: ServiceKind,
    pub amount: u64,
}

impl Operation {
    pub fn new(service: ServiceKind, amount: u64) -> (res: Operation)
        ensures
            res == (Operation { service, amount }),
    {
        Operation { service, amount }
    }
}

/// The operation that a line `id,service,amount,...` holds: its second
/// comma-separated field names the service and its third is the amount.
pub open spec fn spec_parse_operation(line: Seq<char>) -> Option<Operation> {
    let s = split_fields(line, ',');
    if s.len() >= 3 && spec_parse_kind(s[1]) is Some && spec_parse_u64(s[2]) is Some {
        Some(Operation { service: spec_parse_kind(s[1]).unwrap(), amount: spec_parse_u64(s[2]).unwrap() })
    } else {
        None
    }
}

/// Reads the operation of a line given as characters.
pub fn operation_from_chars(line: &Vec<char>) -> (res: Option<Operation>)
    ensures
        res == spec_parse_operation(line@),
{
    let s = split_chars(line, ',');
    let ghost f = split_fields(line@, ',');
    if s.len() < 3 {
        return None;
    }
    assert(s@[1]@ == f[1]);
    assert(s@[2]@ == f[2]);
    match (kind_from_chars(&s[1]), parse_u64(&s[2])) {
        (Some(service), Some(amount)) => Some(Operation { service, amount }),
        _ => None,
    }
}

/// Reads an operation, or tells that the line holds none.
pub fn try_parse_operation(str: &String) -> (res: Option<Operation>)
    ensures
        res == spec_parse_operation(str@),
{
    operation_from_chars(&chars_of(str))
}

/// Reads the operation of a line `id,service,amount,total`.
pub fn parse_operation(str: String) -> (res: Operation)
    requires
        spec_parse_operation(str@) is Some,
    ensures
        spec_parse_operation(str@) == Some(res),
{
    match try_parse_operation(&str) {
        Some(op) => op,
        None => {
            assert(false);
            Operation::new(ServiceKind::Hotel, 0)
        },
    }
}

} // verus!
