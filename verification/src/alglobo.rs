//! The coordinator: the decisions of the two-phase commit that it runs for
//! each transaction with the services, and the transactions that failed.
use vstd::prelude::*;
use std::collections::HashMap;
use vstd::std_specs::hash::spec_keys_iter;
use vstd::std_specs::iter::IteratorSpec;
use crate::message::{Message, spec_deserialize, try_deserialize};
use crate::message_body::MessageBody;
use crate::message_kind::MessageKind;
use crate::operation::Operation;
use crate::transaction::{Transaction, transaction_lines, transaction_log_lines};
use crate::transaction_log_parser::{phase_log_line, phase_log_string};
use crate::transaction_parser::{TransactionParser, all_well_formed, read_all, transaction_span};
use crate::transaction_phase::TransactionPhase;

verus! {

broadcast use vstd::std_specs::hash::group_hash_axioms;

// ---------------------------------------------------------------------------
// One exchange with the services
// ---------------------------------------------------------------------------

/// The message that asks the service of operation `i` to act on it: the
/// amount is taken as an `i32`, and the total is zero.
pub open spec fn spec_operation_message(t_id: i32, op: Operation, kind: MessageKind) -> Message {
    Message {
        kind,
        body: MessageBody { id: t_id, service: op.service, amount: op.amount as i32, total: 0 },
    }
}

/// The message for operation `i` of a transaction.
pub fn operation_message(transaction: &Transaction, i: usize, kind: MessageKind) -> (res: Message)
    requires
        i < transaction.operations.len(),
    ensures
        res == spec_operation_message(transaction.id, transaction.operations@[i as int], kind),
        res.kind == kind,
        res.body.id == transaction.id,
        res.body.service == transaction.operations@[i as int].service,
        res.body.total == 0,
        transaction.operations@[i as int].amount <= i32::MAX ==> res.body.amount
            == transaction.operations@[i as int].amount,
{
    let op = transaction.operations[i];
    #[verifier::truncate]
    let amount = op.amount as i32;
    Message::new(kind, MessageBody::new(transaction.id, op.service, amount, 0))
}

/// The message for an operation carries the kind that the phase asks for,
/// unchanged, with the transaction's id, the operation's service, its amount
/// (when it fits in an `i32`) and a zero total; in particular a retried
/// transaction sends `Retry` messages and a first attempt `Transaction` ones.
pub proof fn lemma_operation_message(t_id: i32, op: Operation, kind: MessageKind)
    ensures
        spec_operation_message(t_id, op, kind).kind == kind,
        spec_operation_message(t_id, op, kind).body.id == t_id,
        spec_operation_message(t_id, op, kind).body.service == op.service,
        spec_operation_message(t_id, op, kind).body.total == 0,
        op.amount <= i32::MAX ==> spec_operation_message(t_id, op, kind).body.amount == op.amount,
        spec_operation_message(t_id, op, spec_phase_kind(TransactionPhase::Init, true)).kind
            == MessageKind::Retry,
        spec_operation_message(t_id, op, spec_phase_kind(TransactionPhase::Init, false)).kind
            == MessageKind::Transaction,
{
}

/// How the exchange with the service of one operation went.
pub enum Delivery {
    /// The message could not be sent.
    NotSent,
    /// No answer could be read.
    NoAnswer,
    /// This line was read as the answer (empty when the service closed the
    /// connection without answering).
    Answer(String),
}

/// An answer that the coordinator can use: empty, or a message.
pub open spec fn delivery_readable(d: Delivery) -> bool {
    d matches Delivery::Answer(s) ==> s@.len() == 0 || spec_deserialize(s@) is Some
}

/// Records how the exchange for one operation went, in the list of the
/// kinds of the answers; says whether to go on with the next operation.
/// A failed exchange counts as a rejection and ends the round; an empty
/// answer is not recorded.
pub fn record_delivery(responses: &mut Vec<MessageKind>, delivery: Delivery) -> (go_on: bool)
    requires
        delivery_readable(delivery),
    ensures
        match delivery {
            Delivery::NotSent => !go_on && final(responses)@ == old(responses)@.push(
                MessageKind::Rejection,
            ),
            Delivery::NoAnswer => !go_on && final(responses)@ == old(responses)@.push(
                MessageKind::Rejection,
            ),
            Delivery::Answer(s) => go_on && if s@.len() == 0 {
                final(responses)@ == old(responses)@
            } else {
                final(responses)@ == old(responses)@.push(spec_deserialize(s@)->0.kind)
            },
        },
{
    match delivery {
        Delivery::NotSent => {
            responses.push(MessageKind::Rejection);
            false
        },
        Delivery::NoAnswer => {
            responses.push(MessageKind::Rejection);
            false
        },
        Delivery::Answer(s) => {
            if s.as_str().unicode_len() == 0 {
                return true;
            }
            match try_deserialize(&s) {
                Some(m) => responses.push(m.kind),
                None => {},
            }
            true
        },
    }
}

// ---------------------------------------------------------------------------
// The phases of a transaction
// ---------------------------------------------------------------------------

/// What the coordinator does on entering a phase of a transaction.
pub struct PhasePlan {
    /// The line to append to the transaction log.
    pub log_line: String,
    /// The lines to append to the log of failed transactions.
    pub failed_lines: Vec<String>,
    /// Whether the transaction is to be kept among the failed ones.
    pub record_failure: bool,
    /// The kind of the messages to send to the services of the operations.
    pub send_kind: MessageKind,
}

/// The kind of message sent in a phase: a request to prepare (a retry when
/// the transaction is retried), a rejection on abort, a confirmation on
/// commit.
pub open spec fn spec_phase_kind(phase: TransactionPhase, is_retry: bool) -> MessageKind {
    match phase {
        TransactionPhase::Init => if is_retry {
            MessageKind::Retry
        } else {
            MessageKind::Transaction
        },
        TransactionPhase::Abort => MessageKind::Rejection,
        TransactionPhase::Commit => MessageKind::Confirmation,
    }
}

/// What node `node` does on entering `phase` for a transaction: it logs the
/// phase, and on abort also logs the transaction among the failed ones and
/// keeps it; then it tells every service.
pub fn plan_phase(transaction: &Transaction, phase: TransactionPhase, is_retry: bool, node: u32) -> (res: PhasePlan)
    ensures
        res.log_line@ == phase_log_line(phase, transaction.id, node),
        phase == TransactionPhase::Abort ==> res.failed_lines@.map_values(|l: String| l@)
            == transaction_lines(transaction.id, transaction.operations@),
        phase != TransactionPhase::Abort ==> res.failed_lines@.len() == 0,
        res.record_failure == (phase == TransactionPhase::Abort),
        res.send_kind == spec_phase_kind(phase, is_retry),
{
    let log_line = phase_log_string(phase, transaction.id, node);
    match phase {
        TransactionPhase::Init => PhasePlan {
            log_line,
            failed_lines: Vec::new(),
            record_failure: false,
            send_kind: if is_retry {
                MessageKind::Retry
            } else {
                MessageKind::Transaction
            },
        },
        TransactionPhase::Abort => PhasePlan {
            log_line,
            failed_lines: transaction_log_lines(transaction),
            record_failure: true,
            send_kind: MessageKind::Rejection,
        },
        TransactionPhase::Commit => PhasePlan {
            log_line,
            failed_lines: Vec::new(),
            record_failure: false,
            send_kind: MessageKind::Confirmation,
        },
    }
}

/// How a phase ends.
#[derive(Clone, Copy, PartialEq, Eq, Structural, Debug)]
pub enum PhaseNext {
    /// Go on with this phase.
    Enter(TransactionPhase),
    /// The transaction is over: committed (`true`) or aborted (`false`).
    Finish(bool),
}

/// How a phase ends, given the kinds of the answers of the services: after
/// the requests, any rejection aborts the transaction and otherwise it
/// commits; an abort ends it as failed, a commit as done.
pub open spec fn spec_after_phase(phase: TransactionPhase, responses: Seq<MessageKind>) -> PhaseNext {
    match phase {
        TransactionPhase::Init => if responses.contains(MessageKind::Rejection) {
            PhaseNext::Enter(TransactionPhase::Abort)
        } else {
            PhaseNext::Enter(TransactionPhase::Commit)
        },
        TransactionPhase::Abort => PhaseNext::Finish(false),
        TransactionPhase::Commit => PhaseNext::Finish(true),
    }
}

/// Whether a service rejected the transaction.
pub fn any_rejection(responses: &Vec<MessageKind>) -> (res: bool)
    ensures
        res == responses@.contains(MessageKind::Rejection),
{
    let mut i: usize = 0;
    while i < responses.len()
        invariant
            i <= responses.len(),
            forall|k: int| 0 <= k < i ==> responses@[k] != MessageKind::Rejection,
        decreases responses.len() - i,
    {
        if responses[i] == MessageKind::Rejection {
            return true;
        }
        i = i + 1;
    }
    false
}

/// How a phase ends.
pub fn after_phase(phase: TransactionPhase, responses: &Vec<MessageKind>) -> (res: PhaseNext)
    ensures
        res == spec_after_phase(phase, responses@),
{
    match phase {
        TransactionPhase::Init => if any_rejection(responses) {
            PhaseNext::Enter(TransactionPhase::Abort)
        } else {
            PhaseNext::Enter(TransactionPhase::Commit)
        },
        TransactionPhase::Abort => PhaseNext::Finish(false),
        TransactionPhase::Commit => PhaseNext::Finish(true),
    }
}

/// A transaction that enters its requests is never left half done: it
/// aborts exactly when a service rejected it, and commits otherwise; an
/// abort ends it as failed and a commit as done.
pub proof fn lemma_commit_decision(responses: Seq<MessageKind>)
    ensures
        spec_after_phase(TransactionPhase::Init, responses) == PhaseNext::Enter(
            TransactionPhase::Abort,
        ) <==> responses.contains(MessageKind::Rejection),
        spec_after_phase(TransactionPhase::Init, responses) == PhaseNext::Enter(
            TransactionPhase::Commit,
        ) <==> !responses.contains(MessageKind::Rejection),
        spec_after_phase(TransactionPhase::Abort, responses) == PhaseNext::Finish(false),
        spec_after_phase(TransactionPhase::Commit, responses) == PhaseNext::Finish(true),
{
}

// ---------------------------------------------------------------------------
// The coordinator's loop
// ---------------------------------------------------------------------------

/// What the coordinator does next in its loop.
#[derive(Clone, Copy, PartialEq, Eq, Structural, Debug)]
pub enum LoopStep {
    /// Ctrl-C was pressed: remember it, and go on.
    MarkInterrupted,
    /// Another node leads: wait for the next change of leader.
    AwaitElection,
    /// This node leads: process the next transaction.
    ProcessNext,
}

/// The next step of the coordinator's loop.
pub fn loop_step(interrupted: bool, leader: bool) -> (res: LoopStep)
    ensures
        interrupted ==> res == LoopStep::MarkInterrupted,
        !interrupted && !leader ==> res == LoopStep::AwaitElection,
        !interrupted && leader ==> res == LoopStep::ProcessNext,
{
    if interrupted {
        LoopStep::MarkInterrupted
    } else if !leader {
        LoopStep::AwaitElection
    } else {
        LoopStep::ProcessNext
    }
}

/// What the coordinator does once the leader has changed.
#[derive(Clone, Copy, PartialEq, Eq, Structural, Debug)]
pub enum AfterChange {
    /// The nodes were told to close: leave the loop.
    Stop,
    /// This node now leads: take over the work left by the last leader.
    TakeOver,
    /// Another node leads: go on waiting in the loop.
    KeepWaiting,
}

/// The step after a change of leader: stop once the nodes were told to
/// close, otherwise take over when this node leads.
pub fn after_leader_change(done: bool, leader: bool) -> (res: AfterChange)
    ensures
        done ==> res == AfterChange::Stop,
        !done && leader ==> res == AfterChange::TakeOver,
        !done && !leader ==> res == AfterChange::KeepWaiting,
{
    if done {
        AfterChange::Stop
    } else if leader {
        AfterChange::TakeOver
    } else {
        AfterChange::KeepWaiting
    }
}

/// Whether the coordinator's run ended without finishing its work: it was
/// interrupted, or it does not lead.
pub fn stopped_early(interrupted: bool, leader: bool) -> (res: bool)
    ensures
        res == (interrupted || !leader),
{
    interrupted || !leader
}

/// A command of the interactive mode that follows an interrupted run.
#[derive(Clone, Copy, PartialEq, Eq, Structural, Debug)]
pub enum Command {
    ShowFailed,
    Retry,
    Exit,
    Unknown,
}

/// Reads a command from the first character typed, in upper case.
pub fn parse_command(c: char) -> (res: Command)
    ensures
        c == 'F' ==> res == Command::ShowFailed,
        c == 'R' ==> res == Command::Retry,
        c == 'X' ==> res == Command::Exit,
        c != 'F' && c != 'R' && c != 'X' ==> res == Command::Unknown,
{
    if c == 'F' {
        Command::ShowFailed
    } else if c == 'R' {
        Command::Retry
    } else if c == 'X' {
        Command::Exit
    } else {
        Command::Unknown
    }
}

/// The value of a decimal digit character.
pub fn digit_of(c: char) -> (res: Option<u32>)
    ensures
        ('0' <= c && c <= '9') ==> res == Some((c as u32 - '0' as u32) as u32),
        !('0' <= c && c <= '9') ==> res is None,
{
    if '0' <= c && c <= '9' {
        Some((c as u32) - ('0' as u32))
    } else {
        None
    }
}

// ---------------------------------------------------------------------------
// The failed transactions
// ---------------------------------------------------------------------------

/// The failed transactions after the given ones are read, in order: a
/// transaction whose id is already known is left out.
pub open spec fn absorb(
    failed: Map<i32, Seq<Operation>>,
    read: Seq<(i32, Seq<Operation>)>,
) -> Map<i32, Seq<Operation>>
    decreases read.len(),
{
    if read.len() == 0 {
        failed
    } else {
        let (id, ops) = read[0];
        let next = if failed.contains_key(id) {
            failed
        } else {
            failed.insert(id, ops)
        };
        absorb(next, read.drop_first())
    }
}

/// Reading one more transaction keeps it unless its id is kept already;
/// reading none changes nothing.
pub proof fn lemma_absorb_step(
    failed: Map<i32, Seq<Operation>>,
    id: i32,
    ops: Seq<Operation>,
    rest: Seq<(i32, Seq<Operation>)>,
)
    ensures
        absorb(failed, Seq::empty()) == failed,
        absorb(failed, seq![(id, ops)] + rest) == absorb(
            if failed.contains_key(id) {
                failed
            } else {
                failed.insert(id, ops)
            },
            rest,
        ),
{
    let read = seq![(id, ops)] + rest;
    assert(read[0] == (id, ops));
    assert(read.drop_first() =~= rest);
}

/// Reading failed transactions keeps every id read, keeps every id kept
/// before with its operations, keeps no other id, and keeps the operations of
/// the first transaction read with a new id.
pub proof fn lemma_absorb(failed: Map<i32, Seq<Operation>>, read: Seq<(i32, Seq<Operation>)>)
    ensures
        forall|i: int| 0 <= i < read.len() ==> #[trigger] absorb(failed, read).contains_key(read[i].0),
        forall|k: i32|
            #[trigger] failed.contains_key(k) ==> absorb(failed, read).contains_key(k) && absorb(
                failed,
                read,
            )[k] == failed[k],
        forall|k: i32|
            #[trigger] absorb(failed, read).contains_key(k) ==> failed.contains_key(k) || exists|
                i: int,
            |
                0 <= i < read.len() && #[trigger] read[i].0 == k,
        forall|i: int|
            0 <= i < read.len() && !failed.contains_key(read[i].0) && (forall|j: int|
                0 <= j < i ==> #[trigger] read[j].0 != read[i].0) ==> #[trigger] absorb(
                failed,
                read,
            )[read[i].0] == read[i].1,
    decreases read.len(),
{
    if read.len() > 0 {
        let (id, ops) = read[0];
        let next = if failed.contains_key(id) {
            failed
        } else {
            failed.insert(id, ops)
        };
        let tail = read.drop_first();
        lemma_absorb(next, tail);
        let res = absorb(failed, read);
        assert(res == absorb(next, tail));
        assert forall|i: int| 0 <= i < read.len() implies #[trigger] res.contains_key(read[i].0) by {
            if i > 0 {
                assert(read[i] == tail[i - 1]);
            } else {
                assert(next.contains_key(id));
            }
        }
        assert forall|k: i32| #[trigger] failed.contains_key(k) implies res.contains_key(k) && res[k]
            == failed[k] by {
            assert(next.contains_key(k) && next[k] == failed[k]);
        }
        assert forall|k: i32| #[trigger] res.contains_key(k) implies failed.contains_key(k) || exists|
            i: int,
        |
            0 <= i < read.len() && #[trigger] read[i].0 == k by {
            if !next.contains_key(k) {
                let i = choose|i: int| 0 <= i < tail.len() && #[trigger] tail[i].0 == k;
                assert(read[i + 1] == tail[i]);
            } else if !failed.contains_key(k) {
                assert(read[0].0 == k);
            }
        }
        assert forall|i: int|
            0 <= i < read.len() && !failed.contains_key(read[i].0) && (forall|j: int|
                0 <= j < i ==> #[trigger] read[j].0 != read[i].0) implies #[trigger] res[read[i].0]
            == read[i].1 by {
            if i == 0 {
                assert(next.contains_key(id) && next[id] == ops);
            } else {
                assert(read[i] == tail[i - 1]);
                assert(read[0].0 != read[i].0);
                assert(!next.contains_key(tail[i - 1].0));
                assert forall|j: int| 0 <= j < i - 1 implies #[trigger] tail[j].0 != tail[i - 1].0 by {
                    assert(tail[j] == read[j + 1]);
                }
            }
        }
    }
}

/// The transactions that failed, by id.
pub struct FailedTransactions {
    failed_transactions: HashMap<i32, Transaction>,
}

impl FailedTransactions {
    /// Every failed transaction is kept under its own id.
    #[verifier::type_invariant]
    closed spec fn keyed_by_id(&self) -> bool {
        forall|k: i32| #[trigger]
            self.failed_transactions@.contains_key(k) ==> self.failed_transactions@[k].id == k
    }

    /// The operations of each failed transaction, by id.
    pub closed spec fn failed(&self) -> Map<i32, Seq<Operation>> {
        self.failed_transactions@.map_values(|t: Transaction| t.operations@)
    }

    pub fn new() -> (res: Self)
        ensures
            res.failed() == Map::<i32, Seq<Operation>>::empty(),
    {
        let res = FailedTransactions { failed_transactions: HashMap::new() };
        assert(res.failed() =~= Map::<i32, Seq<Operation>>::empty());
        res
    }

    /// Keeps a failed transaction, unless one with its id is kept already.
    pub fn record_failure(&mut self, transaction: Transaction)
        ensures
            final(self).failed() == if old(self).failed().contains_key(transaction.id) {
                old(self).failed()
            } else {
                old(self).failed().insert(transaction.id, transaction.operations@)
            },
    {
        proof {
            use_type_invariant(&*self);
        }
        let id = transaction.id;
        if self.failed_transactions.contains_key(&id) {
            return;
        }
        let ghost before = self.failed_transactions@;
        let mut map = HashMap::new();
        std::mem::swap(&mut map, &mut self.failed_transactions);
        map.insert(id, transaction);
        self.failed_transactions = map;
        assert(self.failed() =~= before.map_values(|t: Transaction| t.operations@).insert(
            id,
            transaction.operations@,
        ));
    }

    /// The ids of the failed transactions, each once, in no particular
    /// order.
    pub fn ids(&self) -> (res: Vec<i32>)
        ensures
            res@.to_set() == self.failed().dom(),
            res@.no_duplicates(),
    {
        let mut res: Vec<i32> = Vec::new();
        let ghost all = spec_keys_iter(&self.failed_transactions).remaining().unref();
        for k in it: self.failed_transactions.keys()
            invariant
                all == spec_keys_iter(&self.failed_transactions).remaining().unref(),
                res@ == it.seq().unref().take(it.index() as int),
                it.seq().unref() == all,
        {
            res.push(*k);
            assert(res@ =~= it.seq().unref().take(it.index() + 1));
        }
        assert(all.take(all.len() as int) =~= all);
        assert(res@.to_set() =~= self.failed().dom());
        res
    }

    /// Whether a failed transaction with this id is kept.
    pub fn has_failed(&self, id: i32) -> (res: bool)
        ensures
            res == self.failed().contains_key(id),
    {
        self.failed_transactions.contains_key(&id)
    }

    /// The failed transaction with this id, if one is kept.
    pub fn failed_transaction(&self, id: i32) -> (res: Option<&Transaction>)
        ensures
            match res {
                Some(t) => self.failed().contains_key(id) && t.id == id && t.operations@
                    == self.failed()[id],
                None => !self.failed().contains_key(id),
            },
    {
        proof {
            use_type_invariant(self);
        }
        self.failed_transactions.get(&id)
    }

    /// Ends the retry of a failed transaction: once committed it is no
    /// longer kept. Says whether such a transaction was kept.
    pub fn settle_retry(&mut self, id: i32, committed: bool) -> (res: bool)
        ensures
            res == old(self).failed().contains_key(id),
            final(self).failed() == if committed {
                old(self).failed().remove(id)
            } else {
                old(self).failed()
            },
    {
        proof {
            use_type_invariant(&*self);
        }
        if !self.failed_transactions.contains_key(&id) {
            assert(old(self).failed().remove(id) =~= old(self).failed());
            return false;
        }
        if committed {
            let ghost before = self.failed_transactions@;
            let mut map = HashMap::new();
            std::mem::swap(&mut map, &mut self.failed_transactions);
            map.remove(&id);
            self.failed_transactions = map;
            assert(self.failed() =~= before.map_values(|t: Transaction| t.operations@).remove(id));
        }
        true
    }

    /// Keeps every transaction that a parser reads, in order, unless one
    /// with its id is kept already; the parser is read to its end.
    pub fn retrieve(&mut self, parser: &mut TransactionParser)
        requires
            old(parser).position() >= 0,
            all_well_formed(old(parser).lines_view(), old(parser).position()),
        ensures
            final(self).failed() == absorb(
                old(self).failed(),
                read_all(old(parser).lines_view(), old(parser).position()),
            ),
            forall|i: int|
                0 <= i < read_all(old(parser).lines_view(), old(parser).position()).len()
                    ==> #[trigger] final(self).failed().contains_key(
                    read_all(old(parser).lines_view(), old(parser).position())[i].0,
                ),
            forall|k: i32|
                #[trigger] old(self).failed().contains_key(k) ==> final(self).failed()[k] == old(
                    self,
                ).failed()[k],
            final(parser).lines_view() == old(parser).lines_view(),
            final(parser).position() >= final(parser).lines_view().len(),
    {
        proof {
            lemma_absorb(self.failed(), read_all(parser.lines_view(), parser.position()));
        }
        let ghost lines = parser.lines_view();
        let ghost target = absorb(self.failed(), read_all(lines, parser.position()));
        loop
            invariant
                parser.lines_view() == lines,
                parser.position() >= 0,
                all_well_formed(lines, parser.position()),
                absorb(self.failed(), read_all(lines, parser.position())) == target,
            ensures
                parser.lines_view() == lines,
                parser.position() >= lines.len(),
                self.failed() == target,
            decreases lines.len() - parser.position(),
        {
            let ghost pos = parser.position();
            proof {
                if pos < lines.len() {
                    assert(all_well_formed(lines, pos) == (crate::transaction_parser::transaction_well_formed(lines, pos)
                        && all_well_formed(lines, pos + transaction_span(lines, pos))));
                }
            }
            match parser.read_transaction() {
                Some(transaction) => {
                    let ghost id = transaction.id;
                    let ghost ops = transaction.operations@;
                    assert(read_all(lines, pos) == seq![(id, ops)] + read_all(
                        lines,
                        pos + transaction_span(lines, pos),
                    ));
                    assert((seq![(id, ops)] + read_all(lines, pos + transaction_span(lines, pos))).drop_first()
                        =~= read_all(lines, pos + transaction_span(lines, pos)));
                    self.record_failure(transaction);
                },
                None => {
                    assert(read_all(lines, pos) =~= Seq::<(i32, Seq<Operation>)>::empty());
                    break;
                },
            }
        }
    }
}

/// The coordinator node: where it runs, and the transactions that failed.
pub struct Alglobo {
    pub host: String,
    pub port: i32,
    pub id: u32,
    pub failed_transactions: FailedTransactions,
}

impl Alglobo {
    pub fn new(host: String, port: i32, id: u32) -> (res: Self)
        ensures
            res.host == host,
            res.port == port,
            res.id == id,
            res.failed_transactions.failed() == Map::<i32, Seq<Operation>>::empty(),
    {
        Alglobo { host, port, id, failed_transactions: FailedTransactions::new() }
    }

    /// Keeps every transaction that a parser reads from the log of failed
    /// transactions, unless one with its id is kept already.
    pub fn retrieve_failed_transactions(&mut self, parser: &mut TransactionParser)
        requires
            old(parser).position() >= 0,
            all_well_formed(old(parser).lines_view(), old(parser).position()),
        ensures
            final(self).host == old(self).host,
            final(self).port == old(self).port,
            final(self).id == old(self).id,
            final(self).failed_transactions.failed() == absorb(
                old(self).failed_transactions.failed(),
                read_all(old(parser).lines_view(), old(parser).position()),
            ),
            forall|i: int|
                0 <= i < read_all(old(parser).lines_view(), old(parser).position()).len()
                    ==> #[trigger] final(self).failed_transactions.failed().contains_key(
                    read_all(old(parser).lines_view(), old(parser).position())[i].0,
                ),
            final(parser).lines_view() == old(parser).lines_view(),
            final(parser).position() >= final(parser).lines_view().len(),
    {
        self.failed_transactions.retrieve(parser);
    }

    /// Ends the retry of a failed transaction: once committed it is no
    /// longer kept. Says whether such a transaction was kept.
    pub fn settle_retry(&mut self, id: i32, committed: bool) -> (res: bool)
        ensures
            res == old(self).failed_transactions.failed().contains_key(id),
            final(self).host == old(self).host,
            final(self).port == old(self).port,
            final(self).id == old(self).id,
            final(self).failed_transactions.failed() == if committed {
                old(self).failed_transactions.failed().remove(id)
            } else {
                old(self).failed_transactions.failed()
            },
    {
        self.failed_transactions.settle_retry(id, committed)
    }
}

} // verus!
