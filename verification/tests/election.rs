use alglobo::leader_election::{
    decode_msg, election_targets, id_to_msg, other_nodes, to_pingaddr, to_workaddr, Conclusion,
    ElectionState, PingPlan, Reaction, CLOSE, ELECTION, LEADER, NON_LEADER_ID, OK, PING, PONG,
};

#[test]
fn addresses() {
    assert_eq!(to_pingaddr("localhost".to_string(), 10000, 2), "localhost:9997");
    assert_eq!(to_workaddr("localhost".to_string(), 10000, 2), "localhost:10002");
}

#[test]
fn messages_are_five_little_endian_bytes() {
    assert_eq!(id_to_msg(0x01020304, b'E'), vec![b'E', 4, 3, 2, 1]);
    for id in [0u32, 1, 4, 255, 256, 65536, u32::MAX] {
        let m = id_to_msg(id, b'L');
        assert_eq!(m, [vec![b'L'], id.to_le_bytes().to_vec()].concat());
        assert_eq!(decode_msg(&m), (b'L', id));
    }
    assert_eq!([PING, ELECTION, LEADER, OK, CLOSE, PONG], [b'P', b'E', b'L', b'O', b'X', b'Z']);
}

#[test]
fn a_node_answers_each_message() {
    let mut s = ElectionState::new(2);
    assert!(s.am_i_leader());
    assert_eq!(s.process_message(b'P', 4), Reaction::AnswerPing);
    assert_eq!(s.process_message(b'E', 3), Reaction::Nothing);
    assert_eq!(s.process_message(b'E', 2), Reaction::Nothing);
    assert_eq!(s.process_message(b'E', 1), Reaction::AnswerElection);
    assert_eq!(s, ElectionState::new(2));
    assert_eq!(s.process_message(b'O', 4), Reaction::Nothing);
    assert!(s.got_ok);
    assert_eq!(s.process_message(b'L', 4), Reaction::WakePinger);
    assert_eq!(s.current_leader, Some(4));
    assert!(s.leader_changed);
    assert!(!s.am_i_leader());
    s.take_leader_change();
    assert!(!s.leader_changed);
    assert_eq!(s.process_message(b'Q', 4), Reaction::Nothing);
    assert_eq!(s.process_message(b'X', 4), Reaction::Nothing);
    assert!(s.is_done());
    assert_eq!(s.current_leader, Some(NON_LEADER_ID));
}

#[test]
fn an_election_without_answer_makes_the_caller_leader() {
    let mut s = ElectionState::new(1);
    assert!(s.begin_election());
    assert_eq!(s.current_leader, None);
    assert!(!s.begin_election());
    assert_eq!(s.conclude_election(), Conclusion::Proclaim);
    assert!(s.am_i_leader());
    s.finish_election();
    assert!(!s.electing);
    assert_eq!(s.ping_plan(), PingPlan::AwaitPings);
}

#[test]
fn an_answered_election_waits_for_the_leader() {
    let mut s = ElectionState::new(1);
    assert!(s.begin_election());
    s.process_message(b'O', 3);
    assert_eq!(s.conclude_election(), Conclusion::AwaitLeader);
    assert_eq!(s.current_leader, None);
    s.process_message(b'L', 4);
    assert_eq!(s.ping_plan(), PingPlan::PingLeader(4));
    s.close();
    assert!(s.finished);
}

#[test]
fn election_and_broadcast_targets() {
    assert_eq!(election_targets(1), vec![2, 3, 4]);
    assert_eq!(election_targets(4), Vec::<u32>::new());
    assert_eq!(election_targets(9), Vec::<u32>::new());
    assert_eq!(other_nodes(2), vec![0, 1, 3, 4]);
    assert_eq!(other_nodes(7), vec![0, 1, 2, 3, 4]);
}
