//! A transaction: an id and the operations that it books.
use vstd::prelude::*;
use crate::operation::{Operation, spec_parse_operation};
use crate::service_kind::{kind_text, lemma_kind_roundtrip, lemma_kind_text_chars};
use crate::text::{
    append_i32, append_natural, append_string, append_text, free_of, int_text, is_digit,
    lemma_digits_free_of, lemma_int_text_free_of, lemma_nat_text, lemma_split_four,
    lemma_u64_roundtrip, nat_text, split_fields,
};

verus! {

/// A transaction: its id and its operations, in order.
#[derive(Clone, Debug)]
pub struct Transaction {
    pub id: i32,
    pub operations: Vec<Operation>,
}

impl Transaction {
    pub fn new(id: i32, operations: Vec<Operation>) -> (res: Transaction)
        ensures
            res.id == id,
            res.operations@ == operations@,
    {
        Transaction { id, operations }
    }
}

/// The line that records one operation of a transaction of `total`
/// operations: `id,service,amount,total`.
pub open spec fn operation_line(id: i32, op: Operation, total: nat) -> Seq<char> {
    int_text(id as int) + seq![','] + kind_text(op.service) + seq![','] + nat_text(op.amount as nat)
        + seq![','] + nat_text(total)
}

/// The lines that record a transaction, one per operation.
pub open spec fn transaction_lines(id: i32, ops: Seq<Operation>) -> Seq<Seq<char>> {
    Seq::new(ops.len(), |j: int| operation_line(id, ops[j], ops.len()))
}

/// The line that records one operation of a transaction.
pub fn operation_line_string(id: i32, op: Operation, total: usize) -> (res: String)
    ensures
        res@ == operation_line(id, op, total as nat),
{
    let mut out = String::new();
    append_i32(&mut out, id);
    append_text(&mut out, ",");
    append_string(&mut out, &op.service.to_string());
    append_text(&mut out, ",");
    append_natural(&mut out, op.amount);
    append_text(&mut out, ",");
    append_natural(&mut out, total as u64);
    proof {
        reveal_strlit(",");
    }
    assert(out@ =~= operation_line(id, op, total as nat));
    out
}

/// The lines that record a transaction in the log of failed transactions,
/// one per operation, each ending with the number of operations.
pub fn transaction_log_lines(transaction: &Transaction) -> (res: Vec<String>)
    ensures
        res@.map_values(|l: String| l@) == transaction_lines(
            transaction.id,
            transaction.operations@,
        ),
{
    let total = transaction.operations.len();
    let mut res: Vec<String> = Vec::new();
    let mut i: usize = 0;
    while i < total
        invariant
            total == transaction.operations.len(),
            i <= total,
            res@.map_values(|l: String| l@) == transaction_lines(
                transaction.id,
                transaction.operations@,
            ).take(i as int),
        decreases total - i,
    {
        let line = operation_line_string(transaction.id, transaction.operations[i], total);
        let ghost prev = res@;
        res.push(line);
        assert(res@ == prev.push(line));
        assert(res@.map_values(|l: String| l@) =~= prev.map_values(|l: String| l@).push(line@));
        assert(res@.map_values(|l: String| l@) =~= transaction_lines(
            transaction.id,
            transaction.operations@,
        ).take(i + 1));
        i = i + 1;
    }
    assert(transaction_lines(transaction.id, transaction.operations@).take(total as int)
        =~= transaction_lines(transaction.id, transaction.operations@));
    res
}

/// The four comma-separated fields of an operation line.
pub proof fn lemma_operation_line_split(id: i32, op: Operation, total: nat)
    ensures
        split_fields(operation_line(id, op, total), ',') == seq![
            int_text(id as int),
            kind_text(op.service),
            nat_text(op.amount as nat),
            nat_text(total),
        ],
{
    lemma_int_text_free_of(id as int, ',');
    lemma_kind_text_chars(op.service);
    assert(free_of(kind_text(op.service), ','));
    lemma_nat_text(op.amount as nat);
    lemma_nat_text(total);
    assert(!is_digit(','));
    lemma_digits_free_of(nat_text(op.amount as nat), ',');
    lemma_digits_free_of(nat_text(total), ',');
    lemma_split_four(
        int_text(id as int),
        kind_text(op.service),
        nat_text(op.amount as nat),
        nat_text(total),
        ',',
    );
}

/// An operation line reads back as its operation.
pub proof fn lemma_operation_line_roundtrip(id: i32, op: Operation, total: nat)
    ensures
        spec_parse_operation(operation_line(id, op, total)) == Some(op),
{
    lemma_operation_line_split(id, op, total);
    lemma_kind_roundtrip(op.service);
    lemma_u64_roundtrip(op.amount);
}

} // verus!
