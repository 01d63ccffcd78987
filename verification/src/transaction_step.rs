//! One step of a transaction as a line `id,service,amount,total`.
use vstd::prelude::*;
use crate::message_body::{lemma_record_roundtrip, parse_record, record_text, record_to_string,
    spec_parse_record};
use crate::service_kind::ServiceKind;
use crate::text::chars_of;

verus! {

/// One step of a transaction: the transaction's id, the service, the amount
/// and the number of steps in the transaction.
#[derive(Clone, Copy, PartialEq, Eq, Structural, Debug)]
pub struct TransactionStep {
    pub id: i32,
    pub service: ServiceKind,
    pub amount: i32,
    pub total: i32,
}

impl TransactionStep {
    pub fn new(id: i32, service: ServiceKind, amount: i32, total: i32) -> (res: TransactionStep)
        ensures
            res == (TransactionStep { id, service, amount, total }),
    {
        TransactionStep { id, service, amount, total }
    }

    /// The step as it is written: `id,service,amount,total`.
    pub fn to_string(&self) -> (res: String)
        ensures
            res@ == step_text(*self),
    {
        record_to_string(self.id, self.service, self.amount, self.total)
    }
}

/// The text of a step.
pub open spec fn step_text(s: TransactionStep) -> Seq<char> {
    record_text(s.id, s.service, s.amount, s.total)
}

/// The step that a line holds, if it is well formed.
pub open spec fn spec_transaction_parser(line: Seq<char>) -> Option<TransactionStep> {
    match spec_parse_record(line) {
        Some((id, service, amount, total)) => Some(TransactionStep { id, service, amount, total }),
        None => None,
    }
}

/// Reads a step, or tells that the line is not a step.
pub fn try_transaction_parser(line: &String) -> (res: Option<TransactionStep>)
    ensures
        res == spec_transaction_parser(line@),
{
    match parse_record(&chars_of(line)) {
        Some((id, service, amount, total)) => Some(TransactionStep::new(id, service, amount, total)),
        None => None,
    }
}

/// Reads a step from a line `id,service,amount,total`.
pub fn transaction_parser(line: String) -> (res: TransactionStep)
    requires
        spec_transaction_parser(line@) is Some,
    ensures
        spec_transaction_parser(line@) == Some(res),
{
    match try_transaction_parser(&line) {
        Some(s) => s,
        None => {
            assert(false);
            TransactionStep::new(0, ServiceKind::Hotel, 0, 0)
        },
    }
}

/// The text of a step reads back as the same step.
pub proof fn lemma_step_roundtrip(s: TransactionStep)
    ensures
        spec_transaction_parser(step_text(s)) == Some(s),
{
    lemma_record_roundtrip(s.id, s.service, s.amount, s.total, Seq::<char>::empty());
}

} // verus!
