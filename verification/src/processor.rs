//! What a service answers to each message of the coordinator: it prepares a
//! transaction (accepting it or not, by chance), and acknowledges commits
//! and aborts.
use vstd::prelude::*;
use std::collections::HashMap;
use rand::Rng;
use rand::rngs::ThreadRng;
use crate::chance::{Draw, draw};
use crate::message::{Message, spec_deserialize, try_deserialize};
use crate::message_kind::MessageKind;
use crate::service_kind::{ServiceKind, kind_text};
use crate::text::{append_i32, append_text, int_text};

verus! {

broadcast use vstd::std_specs::hash::group_hash_axioms;

#[verifier::external_type_specification]
#[verifier::external_body]
pub struct ExThreadRng(ThreadRng);

/// `rand::thread_rng`: the random number generator of this thread. Nothing
/// is stated of it.
#[verifier::external_body]
pub(crate) fn thread_rng() -> (res: ThreadRng) {
    rand::thread_rng()
}

/// `Rng::gen_range` on the half-open range `low..high`: a number at least
/// `low` and below `high`, drawn by chance. The range must not be empty, on
/// which `gen_range` panics.
#[verifier::external_body]
pub(crate) fn gen_range(rng: &mut ThreadRng, low: u64, high: u64) -> (res: u64)
    requires
        low < high,
    ensures
        low <= res < high,
{
    rng.gen_range(low..high)
}

/// The line a service logs: `service WORD id`.
pub open spec fn service_log_line(service: ServiceKind, word: Seq<char>, id: i32) -> Seq<char> {
    kind_text(service) + seq![' '] + word + seq![' '] + int_text(id as int)
}

fn service_log_string(service: ServiceKind, word: &str, id: i32) -> (res: String)
    ensures
        res@ == service_log_line(service, word@, id),
{
    let mut out = service.to_string();
    append_text(&mut out, " ");
    append_text(&mut out, word);
    append_text(&mut out, " ");
    append_i32(&mut out, id);
    proof {
        reveal_strlit(" ");
    }
    assert(out@ =~= service_log_line(service, word@, id));
    out
}

/// The answer to a transaction seen for the first time, and the line logged
/// for it: accepted when the draw `luck` is above two.
pub open spec fn spec_new_transaction(message: Message, service: ServiceKind, luck: u64) -> (
    Message,
    Seq<char>,
) {
    if luck > 2 {
        (
            Message { kind: MessageKind::Confirmation, body: message.body },
            service_log_line(service, "ACCEPTED"@, message.body.id),
        )
    } else {
        (
            Message { kind: MessageKind::Rejection, body: message.body },
            service_log_line(service, "REJECTED"@, message.body.id),
        )
    }
}

/// The answers that a service has given, by transaction id, after a
/// message, with the answer and the logged line, for the draw `luck`.
pub open spec fn spec_decide(
    results: Map<i32, Message>,
    message: Message,
    service: ServiceKind,
    luck: u64,
) -> (Map<i32, Message>, Message, Option<Seq<char>>) {
    let id = message.body.id;
    match message.kind {
        MessageKind::Confirmation => (
            results,
            Message { kind: MessageKind::Ack, body: message.body },
            Some(service_log_line(service, "COMMIT"@, id)),
        ),
        MessageKind::Rejection => (
            results,
            Message { kind: MessageKind::Ack, body: message.body },
            Some(service_log_line(service, "ABORT"@, id)),
        ),
        MessageKind::Transaction => if results.contains_key(id) {
            (results, results[id], None)
        } else {
            let (r, line) = spec_new_transaction(message, service, luck);
            (results.insert(id, r), r, Some(line))
        },
        MessageKind::Retry => {
            let (r, line) = spec_new_transaction(message, service, luck);
            (results, r, Some(line))
        },
        MessageKind::Ack => (results, Message { kind: MessageKind::Rejection, body: message.body }, None),
    }
}

/// A transaction asked twice gets the same answer: once a service has
/// prepared a transaction, a later request for the same id, whatever its
/// draw, is answered as the first one was, and changes nothing.
pub proof fn lemma_prepare_answer_kept(
    results: Map<i32, Message>,
    first: Message,
    again: Message,
    service: ServiceKind,
    luck1: u64,
    luck2: u64,
)
    requires
        first.kind == MessageKind::Transaction,
        again.kind == MessageKind::Transaction,
        again.body.id == first.body.id,
    ensures
        ({
            let (after, answer, _) = spec_decide(results, first, service, luck1);
            let (after2, answer2, line2) = spec_decide(after, again, service, luck2);
            &&& answer2 == answer
            &&& after2 == after
            &&& line2 is None
        }),
{
}

/// A transaction asked for the first time is accepted exactly when the draw
/// is above two, and then kept: of the ten draws below ten, seven accept it
/// (with an `ACCEPTED` line) and three reject it (with a `REJECTED` line). A
/// retry is decided the same way, but not kept.
pub proof fn lemma_new_transaction_answer(
    results: Map<i32, Message>,
    message: Message,
    service: ServiceKind,
    luck: u64,
)
    requires
        message.kind == MessageKind::Transaction && !results.contains_key(message.body.id)
            || message.kind == MessageKind::Retry,
    ensures
        ({
            let (after, answer, line) = spec_decide(results, message, service, luck);
            &&& answer.body == message.body
            &&& luck > 2 ==> answer.kind == MessageKind::Confirmation && line == Some(
                service_log_line(service, "ACCEPTED"@, message.body.id),
            )
            &&& luck <= 2 ==> answer.kind == MessageKind::Rejection && line == Some(
                service_log_line(service, "REJECTED"@, message.body.id),
            )
            &&& message.kind == MessageKind::Transaction ==> after == results.insert(
                message.body.id,
                answer,
            )
            &&& message.kind == MessageKind::Retry ==> after == results
        }),
{
}

/// Commits and aborts are always acknowledged, and change no kept answer.
pub proof fn lemma_commit_abort_acknowledged(
    results: Map<i32, Message>,
    message: Message,
    service: ServiceKind,
    luck: u64,
)
    requires
        message.kind == MessageKind::Confirmation || message.kind == MessageKind::Rejection,
    ensures
        ({
            let (after, answer, _) = spec_decide(results, message, service, luck);
            &&& after == results
            &&& answer == (Message { kind: MessageKind::Ack, body: message.body })
        }),
{
}

/// What a service does with a message: the answer to send back, the line to
/// log, if any, and how long to wait before answering.
pub struct Reply {
    pub response: Message,
    pub log_line: Option<String>,
    pub delay_ms: u64,
    /// The draw that decided on a transaction prepared anew.
    pub luck: Draw,
}

/// The answers of a service, kept so that a transaction asked twice gets
/// the same answer.
pub struct Processor {
    results: HashMap<i32, Message>,
}

impl Processor {
    /// The answer given to each transaction prepared so far, by id.
    pub closed spec fn results(&self) -> Map<i32, Message> {
        self.results@
    }

    pub fn new() -> (res: Processor)
        ensures
            res.results() == Map::<i32, Message>::empty(),
    {
        Processor { results: HashMap::new() }
    }

    /// Answers a transaction seen for the first time, for the draw `luck`.
    pub fn process_new_transaction(&self, message: Message, service: ServiceKind, luck: u64) -> (res: (
        Message,
        String,
    ))
        ensures
            (res.0, res.1@) == spec_new_transaction(message, service, luck),
    {
        if luck > 2 {
            (
                Message::new(MessageKind::Confirmation, message.body),
                service_log_string(service, "ACCEPTED", message.body.id),
            )
        } else {
            (
                Message::new(MessageKind::Rejection, message.body),
                service_log_string(service, "REJECTED", message.body.id),
            )
        }
    }

    /// Answers a message, for the draw `luck` (used when a transaction is
    /// prepared anew).
    pub fn decide(&mut self, message: Message, service: ServiceKind, luck: u64) -> (res: (
        Message,
        Option<String>,
    ))
        ensures
            ({
                let (m, r, l) = spec_decide(old(self).results(), message, service, luck);
                &&& final(self).results() == m
                &&& res.0 == r
                &&& l matches Some(line) ==> res.1 matches Some(s) && s@ == line
                &&& l is None ==> res.1 is None
            }),
    {
        let id = message.body.id;
        match message.kind {
            MessageKind::Confirmation => (
                Message::new(MessageKind::Ack, message.body),
                Some(service_log_string(service, "COMMIT", id)),
            ),
            MessageKind::Rejection => (
                Message::new(MessageKind::Ack, message.body),
                Some(service_log_string(service, "ABORT", id)),
            ),
            MessageKind::Transaction => {
                match self.results.get(&id) {
                    Some(result) => (*result, None),
                    None => {
                        let (result, line) = self.process_new_transaction(message, service, luck);
                        self.results.insert(id, result);
                        (result, Some(line))
                    },
                }
            },
            MessageKind::Retry => {
                let (result, line) = self.process_new_transaction(message, service, luck);
                (result, Some(line))
            },
            MessageKind::Ack => (Message::new(MessageKind::Rejection, message.body), None),
        }
    }

    /// Answers a message: draws the chance of accepting a new transaction
    /// (a number below ten) and, for a transaction, a wait of 500 to 1999
    /// milliseconds before the answer.
    pub fn process(&mut self, message: Message, service: ServiceKind) -> (res: Reply)
        ensures
            exists|luck: u64|
                #![trigger spec_decide(old(self).results(), message, service, luck)]
                luck < 10 && ({
                    let (m, r, l) = spec_decide(old(self).results(), message, service, luck);
                    &&& final(self).results() == m
                    &&& res.response == r
                    &&& l matches Some(line) ==> res.log_line matches Some(s) && s@ == line
                    &&& l is None ==> res.log_line is None
                }),
            message.kind == MessageKind::Transaction ==> 500 <= res.delay_ms < 2000,
            message.kind != MessageKind::Transaction ==> res.delay_ms == 0,
            res.luck.low() == 0,
            res.luck.high() == 10,
            res.luck.drawn() < 10,
            ({
                let (m, r, l) = spec_decide(old(self).results(), message, service, res.luck.drawn());
                &&& final(self).results() == m
                &&& res.response == r
                &&& l matches Some(line) ==> res.log_line matches Some(s) && s@ == line
                &&& l is None ==> res.log_line is None
            }),
    {
        let delay_ms = if message.kind == MessageKind::Transaction {
            draw(500, 2000).get()
        } else {
            0
        };
        let luck = draw(0, 10);
        let (response, log_line) = self.decide(message, service, luck.get());
        Reply { response, log_line, delay_ms, luck }
    }

    /// Answers a line received from the coordinator; `None` when the line is
    /// not a message.
    pub fn handle_line(&mut self, line: &String, service: ServiceKind) -> (res: Option<Reply>)
        ensures
            spec_deserialize(line@) is None ==> res is None && final(self).results() == old(
                self,
            ).results(),
            spec_deserialize(line@) matches Some(message) ==> res matches Some(reply) && exists|
                luck: u64,
            |
                #![trigger spec_decide(old(self).results(), message, service, luck)]
                luck < 10 && ({
                    let (m, r, l) = spec_decide(old(self).results(), message, service, luck);
                    &&& final(self).results() == m
                    &&& reply.response == r
                    &&& l matches Some(line) ==> reply.log_line matches Some(s) && s@ == line
                    &&& l is None ==> reply.log_line is None
                }),
            spec_deserialize(line@) matches Some(message) ==> res matches Some(reply)
                && reply.luck.low() == 0 && reply.luck.high() == 10 && ({
                let (m, r, l) = spec_decide(
                    old(self).results(),
                    message,
                    service,
                    reply.luck.drawn(),
                );
                &&& final(self).results() == m
                &&& reply.response == r
                &&& l matches Some(line) ==> reply.log_line matches Some(s) && s@ == line
                &&& l is None ==> reply.log_line is None
            }),
    {
        match try_deserialize(line) {
            Some(message) => Some(self.process(message, service)),
            None => None,
        }
    }
}

} // verus!
