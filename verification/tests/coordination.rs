use alglobo::alglobo::{
    after_leader_change, after_phase, AfterChange, any_rejection, digit_of, loop_step, operation_message, parse_command, plan_phase,
    record_delivery, stopped_early, Alglobo, Command, Delivery, FailedTransactions, LoopStep,
    PhaseNext,
};
use alglobo::launch::{parse_mode, Mode};
use alglobo::message::Message;
use alglobo::message_body::MessageBody;
use alglobo::message_kind::MessageKind;
use alglobo::operation::Operation;
use alglobo::pending_storage::PendingStorage;
use alglobo::processor::Processor;
use alglobo::service_kind::ServiceKind;
use alglobo::service_stream::{local_stream, ServiceStream};
use alglobo::transaction::{transaction_log_lines, Transaction};
use alglobo::transaction_log_parser::{phase_log_string, TransactionLogParser};
use alglobo::transaction_parser::TransactionParser;
use alglobo::transaction_phase::TransactionPhase;

fn lines(ls: &[&str]) -> Vec<String> {
    ls.iter().map(|l| l.to_string()).collect()
}

fn sample() -> Transaction {
    Transaction::new(
        7,
        vec![Operation::new(ServiceKind::Hotel, 100), Operation::new(ServiceKind::Bank, 250)],
    )
}

#[test]
fn pending_storage_holds_each_value_once() {
    let mut p = PendingStorage::new();
    assert!(p.get_all().is_empty());
    p.store("a".to_string());
    p.store("b".to_string());
    p.store("a".to_string());
    let mut all = p.get_all();
    all.sort();
    assert_eq!(all, vec!["a".to_string(), "b".to_string()]);
    p.remove("a".to_string());
    p.remove("zzz".to_string());
    assert_eq!(p.get_all(), vec!["b".to_string()]);
    p.remove("b".to_string());
    assert!(p.get_all().is_empty());
}

#[test]
fn read_transaction_reads_grouped_lines() {
    let mut parser = TransactionParser::new(lines(&[
        "1,hotel,100,2",
        "1,bank,50,2",
        "2,airline,300,1",
        "3,bank,5,0",
    ]));
    let t = parser.read_transaction().unwrap();
    assert_eq!(t.id, 1);
    assert_eq!(t.operations, vec![Operation::new(ServiceKind::Hotel, 100), Operation::new(ServiceKind::Bank, 50)]);
    let t = parser.read_transaction().unwrap();
    assert_eq!(t.id, 2);
    assert_eq!(t.operations, vec![Operation::new(ServiceKind::Airline, 300)]);
    let t = parser.read_transaction().unwrap();
    assert_eq!(t.id, 3);
    assert_eq!(t.operations, vec![Operation::new(ServiceKind::Bank, 5)]);
    assert!(parser.read_transaction().is_none());
    assert!(parser.read_transaction().is_none());
}

#[test]
fn malformed_transactions_are_detected() {
    let parser = TransactionParser::new(lines(&["1,hotel,100,3", "1,bank,50,3"]));
    assert!(!parser.is_next_well_formed());
    let parser = TransactionParser::new(lines(&["1,spa,100,1"]));
    assert!(!parser.is_next_well_formed());
    let parser = TransactionParser::new(lines(&["1,hotel,100,2", "1,bank,-1,2"]));
    assert!(!parser.is_next_well_formed());
    let parser = TransactionParser::new(lines(&[]));
    assert!(parser.is_next_well_formed());
    let parser = TransactionParser::new(lines(&["1,hotel,100,2", "1,bank,1,2"]));
    assert!(parser.is_next_well_formed());
}

#[test]
fn seek_transaction_finds_the_id() {
    let mut parser = TransactionParser::new(lines(&[
        "1,hotel,100,1",
        "2,bank,50,2",
        "2,hotel,5,2",
        "3,airline,1,1",
    ]));
    let t = parser.seek_transaction(2).unwrap();
    assert_eq!(t.operations.len(), 2);
    assert_eq!(parser.read_transaction().unwrap().id, 3);
    let mut parser = TransactionParser::new(lines(&["1,hotel,100,1"]));
    assert!(parser.seek_transaction(9).is_none());
}

#[test]
fn failed_transaction_log_reads_back() {
    let t = sample();
    let logged = transaction_log_lines(&t);
    assert_eq!(logged, lines(&["7,hotel,100,2", "7,bank,250,2"]));
    let mut parser = TransactionParser::new(logged);
    let back = parser.read_transaction().unwrap();
    assert_eq!(back.id, t.id);
    assert_eq!(back.operations, t.operations);
}

#[test]
fn log_lines_read_back_their_id() {
    let line = phase_log_string(TransactionPhase::Commit, 42, 3);
    assert_eq!(line, "COMMIT 42 alglobo <3>");
    let p = TransactionLogParser::new();
    assert_eq!(p.parse_log_line(line.clone()), (42, TransactionPhase::Init));
    assert_eq!(p.parse_log_line(format!("{} :: Instant {{ tv_sec: 1, tv_nsec: 2 }}", line)), (42, TransactionPhase::Init));
    assert_eq!(p.try_parse_log_line(&"COMMIT".to_string()), None);
    assert_eq!(p.get_last_transaction(&vec![]), None);
    assert_eq!(
        p.get_last_transaction(&lines(&["INIT 1 alglobo <0>", "ABORT 2 alglobo <0>"])),
        Some((2, TransactionPhase::Init))
    );
}

#[test]
fn operation_messages_carry_the_operation() {
    let t = sample();
    let m = operation_message(&t, 1, MessageKind::Transaction);
    assert_eq!(m, Message::new(MessageKind::Transaction, MessageBody::new(7, ServiceKind::Bank, 250, 0)));
    let big = Transaction::new(1, vec![Operation::new(ServiceKind::Hotel, 4294967297)]);
    assert_eq!(operation_message(&big, 0, MessageKind::Retry).body.amount, 1);
}

#[test]
fn deliveries_are_recorded() {
    let mut r = vec![];
    assert!(record_delivery(&mut r, Delivery::Answer("confirmation|7,hotel,100,0,\n".to_string())));
    assert!(record_delivery(&mut r, Delivery::Answer(String::new())));
    assert_eq!(r, vec![MessageKind::Confirmation]);
    assert!(!record_delivery(&mut r, Delivery::NoAnswer));
    assert!(!record_delivery(&mut r, Delivery::NotSent));
    assert_eq!(r, vec![MessageKind::Confirmation, MessageKind::Rejection, MessageKind::Rejection]);
}

#[test]
fn phases_follow_the_answers() {
    assert!(!any_rejection(&vec![MessageKind::Confirmation, MessageKind::Ack]));
    assert!(any_rejection(&vec![MessageKind::Confirmation, MessageKind::Rejection]));
    assert_eq!(after_phase(TransactionPhase::Init, &vec![MessageKind::Confirmation]), PhaseNext::Enter(TransactionPhase::Commit));
    assert_eq!(after_phase(TransactionPhase::Init, &vec![]), PhaseNext::Enter(TransactionPhase::Commit));
    assert_eq!(after_phase(TransactionPhase::Init, &vec![MessageKind::Rejection]), PhaseNext::Enter(TransactionPhase::Abort));
    assert_eq!(after_phase(TransactionPhase::Abort, &vec![]), PhaseNext::Finish(false));
    assert_eq!(after_phase(TransactionPhase::Commit, &vec![]), PhaseNext::Finish(true));
}

#[test]
fn phase_plans() {
    let t = sample();
    let p = plan_phase(&t, TransactionPhase::Init, false, 2);
    assert_eq!(p.log_line, "INIT 7 alglobo <2>");
    assert_eq!(p.send_kind, MessageKind::Transaction);
    assert!(!p.record_failure && p.failed_lines.is_empty());
    let p = plan_phase(&t, TransactionPhase::Init, true, 2);
    assert_eq!(p.send_kind, MessageKind::Retry);
    let p = plan_phase(&t, TransactionPhase::Abort, false, 0);
    assert_eq!(p.log_line, "ABORT 7 alglobo <0>");
    assert_eq!(p.send_kind, MessageKind::Rejection);
    assert!(p.record_failure);
    assert_eq!(p.failed_lines, lines(&["7,hotel,100,2", "7,bank,250,2"]));
    let p = plan_phase(&t, TransactionPhase::Commit, false, 0);
    assert_eq!(p.send_kind, MessageKind::Confirmation);
}

#[test]
fn failed_transactions_are_kept_once_and_retried() {
    let mut a = Alglobo::new("localhost".to_string(), 10000, 1);
    a.failed_transactions.record_failure(sample());
    a.failed_transactions.record_failure(Transaction::new(7, vec![]));
    assert_eq!(a.failed_transactions.failed_transaction(7).unwrap().operations.len(), 2);
    assert_eq!(a.failed_transactions.ids(), vec![7]);
    assert!(!a.settle_retry(8, true));
    assert!(a.settle_retry(7, false));
    assert!(a.failed_transactions.has_failed(7));
    assert!(a.settle_retry(7, true));
    assert!(!a.failed_transactions.has_failed(7));
    assert!(a.failed_transactions.failed_transaction(7).is_none());
}

#[test]
fn failed_transactions_are_retrieved_from_their_log() {
    let mut a = Alglobo::new("localhost".to_string(), 10000, 0);
    let mut parser = TransactionParser::new(lines(&[
        "3,hotel,1,1",
        "4,bank,2,2",
        "4,hotel,3,2",
        "3,airline,9,1",
    ]));
    a.retrieve_failed_transactions(&mut parser);
    let mut ids = a.failed_transactions.ids();
    ids.sort();
    assert_eq!(ids, vec![3, 4]);
    assert_eq!(a.failed_transactions.failed_transaction(3).unwrap().operations, vec![Operation::new(ServiceKind::Hotel, 1)]);
    assert!(FailedTransactions::new().ids().is_empty());
}

#[test]
fn loop_decisions() {
    assert_eq!(loop_step(true, true), LoopStep::MarkInterrupted);
    assert_eq!(loop_step(false, false), LoopStep::AwaitElection);
    assert_eq!(loop_step(false, true), LoopStep::ProcessNext);
    assert!(stopped_early(true, true));
    assert!(stopped_early(false, false));
    assert!(!stopped_early(false, true));
    assert_eq!(parse_command('F'), Command::ShowFailed);
    assert_eq!(parse_command('R'), Command::Retry);
    assert_eq!(parse_command('X'), Command::Exit);
    assert_eq!(parse_command('f'), Command::Unknown);
    assert_eq!(digit_of('7'), Some(7));
    assert_eq!(digit_of('a'), None);
}

#[test]
fn modes_are_read_from_arguments() {
    assert_eq!(parse_mode(&lines(&["prog", "clear"])), Some(Mode::Clear));
    assert_eq!(parse_mode(&lines(&["prog", "alglobo", "3"])), Some(Mode::Alglobo(3)));
    assert_eq!(parse_mode(&lines(&["prog", "service", "bank"])), Some(Mode::Service(ServiceKind::Bank)));
    assert_eq!(parse_mode(&lines(&["prog", "other"])), Some(Mode::Invalid));
    assert_eq!(parse_mode(&lines(&["prog"])), None);
    assert_eq!(parse_mode(&lines(&["prog", "alglobo", "-1"])), None);
    assert_eq!(parse_mode(&lines(&["prog", "service"])), None);
}

#[test]
fn service_streams() {
    assert_eq!(local_stream(ServiceKind::Bank).addr, "localhost:8003");
    assert_eq!(ServiceStream::new("x:1".to_string()).addr, "x:1");
}

fn body(id: i32) -> MessageBody {
    MessageBody::new(id, ServiceKind::Hotel, 10, 0)
}

#[test]
fn processor_acknowledges_commits_and_aborts() {
    let mut p = Processor::new();
    let (r, line) = p.decide(Message::new(MessageKind::Confirmation, body(1)), ServiceKind::Hotel, 0);
    assert_eq!(r, Message::new(MessageKind::Ack, body(1)));
    assert_eq!(line.unwrap(), "hotel COMMIT 1");
    let (r, line) = p.decide(Message::new(MessageKind::Rejection, body(1)), ServiceKind::Bank, 0);
    assert_eq!(r, Message::new(MessageKind::Ack, body(1)));
    assert_eq!(line.unwrap(), "bank ABORT 1");
    let (r, line) = p.decide(Message::new(MessageKind::Ack, body(1)), ServiceKind::Bank, 0);
    assert_eq!(r, Message::new(MessageKind::Rejection, body(1)));
    assert!(line.is_none());
}

#[test]
fn processor_keeps_the_answer_to_a_transaction() {
    let mut p = Processor::new();
    let (r, line) = p.decide(Message::new(MessageKind::Transaction, body(5)), ServiceKind::Airline, 9);
    assert_eq!(r.kind, MessageKind::Confirmation);
    assert_eq!(line.unwrap(), "airline ACCEPTED 5");
    let (r, line) = p.decide(Message::new(MessageKind::Transaction, body(5)), ServiceKind::Airline, 0);
    assert_eq!(r.kind, MessageKind::Confirmation);
    assert!(line.is_none());
    let (r, line) = p.decide(Message::new(MessageKind::Retry, body(5)), ServiceKind::Airline, 2);
    assert_eq!(r.kind, MessageKind::Rejection);
    assert_eq!(line.unwrap(), "airline REJECTED 5");
    let (r, _) = p.decide(Message::new(MessageKind::Transaction, body(6)), ServiceKind::Airline, 2);
    assert_eq!(r.kind, MessageKind::Rejection);
    let (r, _) = p.decide(Message::new(MessageKind::Transaction, body(6)), ServiceKind::Airline, 9);
    assert_eq!(r.kind, MessageKind::Rejection);
}

#[test]
fn processor_draws_by_chance() {
    let mut p = Processor::new();
    let mut accepted = 0;
    let mut rejected = 0;
    let mut delays = std::collections::HashSet::new();
    for i in 0..300 {
        let reply = p.process(Message::new(MessageKind::Retry, body(i)), ServiceKind::Bank);
        assert_eq!(reply.delay_ms, 0);
        match reply.response.kind {
            MessageKind::Confirmation => accepted += 1,
            MessageKind::Rejection => rejected += 1,
            _ => panic!("unexpected answer"),
        }
    }
    assert!(accepted > 0 && rejected > 0);
    for i in 0..50 {
        let reply = p.process(Message::new(MessageKind::Transaction, body(1000 + i)), ServiceKind::Bank);
        assert!(500 <= reply.delay_ms && reply.delay_ms < 2000);
        delays.insert(reply.delay_ms);
    }
    assert!(delays.len() > 1);
}

#[test]
fn processor_handles_lines() {
    let mut p = Processor::new();
    assert!(p.handle_line(&"garbage".to_string(), ServiceKind::Hotel).is_none());
    let reply = p.handle_line(&"confirmation|3,hotel,1,0,\n".to_string(), ServiceKind::Hotel).unwrap();
    assert_eq!(reply.response.serialize(), "ack|3,hotel,1,0,\n");
    assert_eq!(reply.log_line.unwrap(), "hotel COMMIT 3");
}

#[test]
fn leader_change_decisions() {
    assert_eq!(after_leader_change(true, true), AfterChange::Stop);
    assert_eq!(after_leader_change(true, false), AfterChange::Stop);
    assert_eq!(after_leader_change(false, true), AfterChange::TakeOver);
    assert_eq!(after_leader_change(false, false), AfterChange::KeepWaiting);
}

#[test]
fn seek_needs_only_the_lines_up_to_the_found_transaction() {
    let mut parser = TransactionParser::new(lines(&["1,hotel,100,1", "2,bank,50,1", "garbage"]));
    assert!(!parser.rest_well_formed());
    assert!(parser.can_seek(2));
    assert!(!parser.can_seek(3));
    let t = parser.seek_transaction(2).unwrap();
    assert_eq!(t.operations, vec![Operation::new(ServiceKind::Bank, 50)]);
}

#[test]
fn pending_storage_history() {
    let mut p = PendingStorage::new();
    p.store("x".to_string());
    p.remove("x".to_string());
    p.store("y".to_string());
    p.store("x".to_string());
    p.remove("y".to_string());
    p.store("z".to_string());
    p.remove("w".to_string());
    let mut all = p.get_all();
    all.sort();
    assert_eq!(all, vec!["x".to_string(), "z".to_string()]);
    let mut again = p.get_all();
    again.sort();
    assert_eq!(again, all);
}
