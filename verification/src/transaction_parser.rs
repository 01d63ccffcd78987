//! Reading transactions from lines `id,service,amount,total`: the first line
//! of a transaction gives its id and its number of operations, and that
//! many lines hold its operations.
use vstd::prelude::*;
use crate::operation::{Operation, operation_from_chars, spec_parse_operation};
use crate::transaction::{
    Transaction, lemma_operation_line_roundtrip, lemma_operation_line_split, operation_line,
    transaction_lines,
};
use crate::text::{
    chars_of, int_text, lemma_i32_roundtrip, lemma_split_nonempty, nat_text, parse_i32,
    spec_parse_i32, split_chars, split_fields,
};

verus! {

/// The first line of a transaction: its operation, the transaction's id
/// (the first comma-separated field) and its number of operations (the
/// last field).
pub open spec fn spec_header(line: Seq<char>) -> Option<(Operation, i32, i32)> {
    let f = split_fields(line, ',');
    if spec_parse_operation(line) is Some && spec_parse_i32(f[0]) is Some && spec_parse_i32(
        f.last(),
    ) is Some {
        Some(
            (
                spec_parse_operation(line).unwrap(),
                spec_parse_i32(f[0]).unwrap(),
                spec_parse_i32(f.last()).unwrap(),
            ),
        )
    } else {
        None
    }
}

/// How many lines follow the first line of a transaction of `total`
/// operations: one per operation after the first, none when `total` is
/// below two.
pub open spec fn extra_lines(total: i32) -> int {
    if total > 1 {
        total - 1
    } else {
        0
    }
}

/// The transaction that starts at line `pos` can be read: there is no line
/// left, or its first line is well formed and enough well-formed operation
/// lines follow it.
pub open spec fn transaction_well_formed(lines: Seq<Seq<char>>, pos: int) -> bool {
    pos >= lines.len() || match spec_header(lines[pos]) {
        Some((_, _, total)) => {
            &&& pos + 1 + extra_lines(total) <= lines.len()
            &&& forall|j: int|
                1 <= j <= extra_lines(total) ==> #[trigger] spec_parse_operation(lines[pos + j]) is Some
        },
        None => false,
    }
}

/// The number of lines that the transaction at `pos` takes.
pub open spec fn transaction_span(lines: Seq<Seq<char>>, pos: int) -> int {
    1 + extra_lines(spec_header(lines[pos]).unwrap().2)
}

/// The operations of the `n` lines from `pos` on.
pub open spec fn operations_at(lines: Seq<Seq<char>>, pos: int, n: int) -> Seq<Operation> {
    Seq::new(n as nat, |j: int| spec_parse_operation(lines[pos + j]).unwrap())
}

/// Every transaction from `pos` to the end of the lines can be read, one
/// after the other.
pub open spec fn all_well_formed(lines: Seq<Seq<char>>, pos: int) -> bool
    decreases lines.len() - pos,
{
    if pos < 0 || pos >= lines.len() {
        true
    } else {
        transaction_well_formed(lines, pos) && all_well_formed(
            lines,
            pos + transaction_span(lines, pos),
        )
    }
}

/// The transactions that a list of lines holds from `pos` on, one after the
/// other.
pub open spec fn read_all(lines: Seq<Seq<char>>, pos: int) -> Seq<(i32, Seq<Operation>)>
    decreases lines.len() - pos,
{
    if pos < 0 || pos >= lines.len() || !(spec_header(lines[pos]) is Some) || pos
        + transaction_span(lines, pos) > lines.len() {
        Seq::empty()
    } else {
        let span = transaction_span(lines, pos);
        seq![(spec_header(lines[pos]).unwrap().1, operations_at(lines, pos, span))] + read_all(
            lines,
            pos + span,
        )
    }
}

/// The operations of the first transaction with id `id` from line `pos` on,
/// and the line after it.
pub open spec fn seek_from(lines: Seq<Seq<char>>, pos: int, id: i32) -> Option<(Seq<Operation>, int)>
    decreases lines.len() - pos,
{
    if pos < 0 || pos >= lines.len() || !(spec_header(lines[pos]) is Some) || pos
        + transaction_span(lines, pos) > lines.len() {
        None
    } else {
        let span = transaction_span(lines, pos);
        if spec_header(lines[pos]).unwrap().1 == id {
            Some((operations_at(lines, pos, span), pos + span))
        } else {
            seek_from(lines, pos + span, id)
        }
    }
}

/// The transactions from `pos` on can be read up to and including the first
/// one with id `id` (all of them, if none has that id).
pub open spec fn seek_well_formed(lines: Seq<Seq<char>>, pos: int, id: i32) -> bool
    decreases lines.len() - pos,
{
    if pos < 0 || pos >= lines.len() {
        true
    } else {
        transaction_well_formed(lines, pos) && (spec_header(lines[pos]).unwrap().1 == id
            || seek_well_formed(lines, pos + transaction_span(lines, pos), id))
    }
}

/// Reads transactions, one after another, from a list of lines.
pub struct TransactionParser {
    lines: Vec<String>,
    next: usize,
}

impl TransactionParser {
    /// The lines, as text.
    pub closed spec fn lines_view(&self) -> Seq<Seq<char>> {
        self.lines@.map_values(|l: String| l@)
    }

    /// The index of the next line to read.
    pub closed spec fn position(&self) -> int {
        self.next as int
    }

    /// A parser that starts at the first of the given lines.
    pub fn new(lines: Vec<String>) -> (res: TransactionParser)
        ensures
            res.lines_view() == lines@.map_values(|l: String| l@),
            res.position() == 0,
    {
        TransactionParser { lines, next: 0 }
    }

    fn line_chars(&self, i: usize) -> (res: Vec<char>)
        requires
            i < self.lines_view().len(),
        ensures
            res@ == self.lines_view()[i as int],
    {
        chars_of(&self.lines[i])
    }

    /// Reads the first line of a transaction.
    fn header_at(&self, i: usize) -> (res: Option<(Operation, i32, i32)>)
        requires
            i < self.lines_view().len(),
        ensures
            res == spec_header(self.lines_view()[i as int]),
    {
        let chars = self.line_chars(i);
        let op = operation_from_chars(&chars);
        let f = split_chars(&chars, ',');
        let ghost fs = split_fields(chars@, ',');
        proof {
            lemma_split_nonempty(chars@, ',');
        }
        assert(f@[0]@ == fs[0]);
        assert(f@[f.len() - 1]@ == fs.last());
        let id = parse_i32(&f[0]);
        let total = parse_i32(&f[f.len() - 1]);
        match (op, id, total) {
            (Some(op), Some(id), Some(total)) => Some((op, id, total)),
            _ => None,
        }
    }

    /// The number of lines of the transaction at line `pos`, if it can be
    /// read.
    fn span_if_well_formed(&self, pos: usize) -> (res: Option<usize>)
        requires
            pos < self.lines_view().len(),
        ensures
            match res {
                Some(s) => transaction_well_formed(self.lines_view(), pos as int) && s
                    == transaction_span(self.lines_view(), pos as int),
                None => !transaction_well_formed(self.lines_view(), pos as int),
            },
    {
        let n = self.lines.len();
        let total = match self.header_at(pos) {
            Some((_, _, total)) => total,
            None => return None,
        };
        let extra: usize = if total > 1 {
            (total - 1) as usize
        } else {
            0
        };
        if extra >= n - pos {
            return None;
        }
        let mut j: usize = 1;
        while j <= extra
            invariant
                n == self.lines_view().len(),
                pos < n,
                spec_header(self.lines_view()[pos as int]) is Some,
                extra == extra_lines(spec_header(self.lines_view()[pos as int]).unwrap().2),
                pos + 1 + extra <= n,
                1 <= j <= extra + 1,
                forall|k: int|
                    1 <= k < j ==> #[trigger] spec_parse_operation(self.lines_view()[pos + k]) is Some,
            decreases extra + 1 - j,
        {
            let chars = self.line_chars(pos + j);
            if operation_from_chars(&chars).is_none() {
                return None;
            }
            j = j + 1;
        }
        Some(extra + 1)
    }

    /// Whether the next transaction can be read; true also when no line is
    /// left.
    pub fn is_next_well_formed(&self) -> (res: bool)
        ensures
            res == transaction_well_formed(self.lines_view(), self.position()),
    {
        if self.next >= self.lines.len() {
            return true;
        }
        self.span_if_well_formed(self.next).is_some()
    }

    /// Whether every transaction left can be read, one after the other.
    pub fn rest_well_formed(&self) -> (res: bool)
        ensures
            res == all_well_formed(self.lines_view(), self.position()),
    {
        let n = self.lines.len();
        let mut p: usize = self.next;
        while p < n
            invariant
                n == self.lines_view().len(),
                all_well_formed(self.lines_view(), p as int) == all_well_formed(
                    self.lines_view(),
                    self.position(),
                ),
            decreases n - p,
        {
            match self.span_if_well_formed(p) {
                Some(s) => {
                    p = p + s;
                },
                None => {
                    return false;
                },
            }
        }
        true
    }

    /// Whether the transactions left can be read up to and including the
    /// first one with id `id`.
    pub fn can_seek(&self, id: i32) -> (res: bool)
        ensures
            res == seek_well_formed(self.lines_view(), self.position(), id),
    {
        let n = self.lines.len();
        let mut p: usize = self.next;
        while p < n
            invariant
                n == self.lines_view().len(),
                seek_well_formed(self.lines_view(), p as int, id) == seek_well_formed(
                    self.lines_view(),
                    self.position(),
                    id,
                ),
            decreases n - p,
        {
            match self.span_if_well_formed(p) {
                Some(s) => {
                    let found = match self.header_at(p) {
                        Some((_, tid, _)) => tid == id,
                        None => false,
                    };
                    if found {
                        return true;
                    }
                    p = p + s;
                },
                None => {
                    return false;
                },
            }
        }
        true
    }

    /// Reads the next transaction: `None` when no line is left.
    pub fn read_transaction(&mut self) -> (res: Option<Transaction>)
        requires
            transaction_well_formed(old(self).lines_view(), old(self).position()),
        ensures
            final(self).lines_view() == old(self).lines_view(),
            old(self).position() >= old(self).lines_view().len() ==> res is None
                && final(self).position() == old(self).position(),
            old(self).position() < old(self).lines_view().len() ==> {
                let span = transaction_span(old(self).lines_view(), old(self).position());
                &&& res is Some
                &&& res->0.id == spec_header(
                    old(self).lines_view()[old(self).position()],
                ).unwrap().1
                &&& res->0.operations@ == operations_at(
                    old(self).lines_view(),
                    old(self).position(),
                    span,
                )
                &&& final(self).position() == old(self).position() + span
            },
    {
        let n = self.lines.len();
        if self.next >= n {
            return None;
        }
        let ghost lines = self.lines_view();
        let ghost pos = self.next as int;
        let (first, id, total) = match self.header_at(self.next) {
            Some(h) => h,
            None => {
                assert(false);
                return None;
            },
        };
        let mut operations: Vec<Operation> = Vec::new();
        operations.push(first);
        self.next = self.next + 1;
        assert(operations@ =~= operations_at(lines, pos, 1));
        let mut k: i32 = 1;
        while k < total
            invariant
                lines == self.lines_view(),
                n == lines.len(),
                0 <= pos < n,
                spec_header(lines[pos]) == Some((first, id, total)),
                pos + 1 + extra_lines(total) <= n,
                forall|j: int|
                    1 <= j <= extra_lines(total) ==> #[trigger] spec_parse_operation(lines[pos + j]) is Some,
                1 <= k,
                k <= total || k == 1,
                self.next == pos + k,
                operations@ == operations_at(lines, pos, k as int),
            decreases total - k,
        {
            let chars = self.line_chars(self.next);
            let op = match operation_from_chars(&chars) {
                Some(op) => op,
                None => {
                    assert(spec_parse_operation(lines[pos + k]) is Some);
                    assert(false);
                    return None;
                },
            };
            operations.push(op);
            assert(operations@ =~= operations_at(lines, pos, k + 1));
            self.next = self.next + 1;
            k = k + 1;
        }
        Some(Transaction::new(id, operations))
    }

    /// Reads transactions until the one with id `id`, and gives it; `None`
    /// when no transaction left has that id.
    pub fn seek_transaction(&mut self, id: i32) -> (res: Option<Transaction>)
        requires
            old(self).position() >= 0,
            seek_well_formed(old(self).lines_view(), old(self).position(), id),
        ensures
            final(self).lines_view() == old(self).lines_view(),
            match seek_from(old(self).lines_view(), old(self).position(), id) {
                Some((ops, next)) => res matches Some(t) && t.id == id && t.operations@ == ops
                    && final(self).position() == next,
                None => res is None && final(self).position() >= final(self).lines_view().len(),
            },
    {
        let ghost lines = self.lines_view();
        let ghost target = seek_from(lines, self.position(), id);
        loop
            invariant
                self.lines_view() == lines,
                self.position() >= 0,
                seek_well_formed(lines, self.position(), id),
                seek_from(lines, self.position(), id) == target,
                lines == old(self).lines_view(),
                target == seek_from(old(self).lines_view(), old(self).position(), id),
            decreases lines.len() - self.position(),
        {
            let ghost pos = self.position();
            proof {
                if pos < lines.len() {
                    assert(seek_well_formed(lines, pos, id) == (transaction_well_formed(lines, pos)
                        && (spec_header(lines[pos]).unwrap().1 == id || seek_well_formed(
                        lines,
                        pos + transaction_span(lines, pos),
                        id,
                    ))));
                }
            }
            match self.read_transaction() {
                Some(transaction) => {
                    if transaction.id == id {
                        return Some(transaction);
                    }
                },
                None => {
                    return None;
                },
            }
        }
    }
}

/// The lines that record a transaction, found anywhere in a list of lines,
/// read back as that transaction, and reading moves past exactly those
/// lines.
pub proof fn lemma_transaction_lines_roundtrip(
    lines: Seq<Seq<char>>,
    pos: int,
    id: i32,
    ops: Seq<Operation>,
)
    requires
        1 <= ops.len() <= i32::MAX,
        0 <= pos,
        pos + ops.len() <= lines.len(),
        lines.subrange(pos, pos + ops.len()) == transaction_lines(id, ops),
    ensures
        transaction_well_formed(lines, pos),
        spec_header(lines[pos]) matches Some((_, read_id, _)) && read_id == id,
        transaction_span(lines, pos) == ops.len(),
        operations_at(lines, pos, ops.len() as int) == ops,
{
    let n = ops.len();
    assert forall|j: int| 0 <= j < n implies #[trigger] lines[pos + j] == operation_line(
        id,
        ops[j],
        n,
    ) by {
        assert(lines.subrange(pos, pos + n)[j] == lines[pos + j]);
    }
    assert forall|j: int| 0 <= j < n implies #[trigger] spec_parse_operation(lines[pos + j])
        == Some(ops[j]) by {
        lemma_operation_line_roundtrip(id, ops[j], n);
    }
    let first = lines[pos];
    assert(lines[pos + 0] == operation_line(id, ops[0], n));
    assert(spec_parse_operation(lines[pos + 0]) == Some(ops[0]));
    assert(pos + 0 == pos);
    assert(first == operation_line(id, ops[0], n));
    lemma_operation_line_split(id, ops[0], n);
    lemma_i32_roundtrip(id);
    lemma_i32_roundtrip(n as i32);
    assert(int_text(n as i32 as int) == nat_text(n));
    assert(split_fields(first, ',').last() == nat_text(n));
    assert(spec_header(first) == Some((ops[0], id, n as i32)));
    assert forall|j: int| 1 <= j <= extra_lines(n as i32) implies #[trigger] spec_parse_operation(
        lines[pos + j],
    ) is Some by {
        assert(spec_parse_operation(lines[pos + j]) == Some(ops[j]));
    }
    assert(operations_at(lines, pos, n as int) =~= ops);
}

/// Reading back, from a list of lines, the lines that record a failed
/// transaction gives that transaction, then what follows those lines.
pub proof fn lemma_read_all_transaction_lines(
    lines: Seq<Seq<char>>,
    pos: int,
    id: i32,
    ops: Seq<Operation>,
)
    requires
        1 <= ops.len() <= i32::MAX,
        0 <= pos,
        pos + ops.len() <= lines.len(),
        lines.subrange(pos, pos + ops.len()) == transaction_lines(id, ops),
    ensures
        read_all(lines, pos) == seq![(id, ops)] + read_all(lines, pos + ops.len()),
{
    lemma_transaction_lines_roundtrip(lines, pos, id, ops);
}

} // verus!
