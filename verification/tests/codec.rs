use alglobo::message::{deserialize, try_deserialize, Message};
use alglobo::message_body::{body_parser, try_body_parser, MessageBody};
use alglobo::message_kind::{decode, encode, MessageKind};
use alglobo::operation::{parse_operation, try_parse_operation, Operation};
use alglobo::service_kind::{kind_address, parse_kind, ServiceKind};
use alglobo::text::{chars_of, i32_to_string, parse_i32, parse_u32, parse_u64, split_chars, u64_to_string};
use alglobo::transaction_phase::{self, TransactionPhase};
use alglobo::transaction_step::{transaction_parser, try_transaction_parser, TransactionStep};

fn chars(s: &str) -> Vec<char> {
    s.chars().collect()
}

#[test]
fn parse_kind_reads_the_three_services() {
    assert_eq!(parse_kind("hotel".to_string()), Ok(ServiceKind::Hotel));
    assert_eq!(parse_kind("airline".to_string()), Ok(ServiceKind::Airline));
    assert_eq!(parse_kind("bank".to_string()), Ok(ServiceKind::Bank));
}

#[test]
fn parse_kind_refuses_other_names() {
    assert_eq!(parse_kind("Hotel".to_string()), Err("Error parsing service kind"));
    assert_eq!(parse_kind("".to_string()), Err("Error parsing service kind"));
    assert_eq!(parse_kind("bank ".to_string()), Err("Error parsing service kind"));
}

#[test]
fn kind_address_gives_each_port() {
    assert_eq!(kind_address(ServiceKind::Hotel), 8001);
    assert_eq!(kind_address(ServiceKind::Airline), 8002);
    assert_eq!(kind_address(ServiceKind::Bank), 8003);
}

#[test]
fn service_names_read_back() {
    for k in [ServiceKind::Hotel, ServiceKind::Airline, ServiceKind::Bank] {
        assert_eq!(parse_kind(k.to_string()), Ok(k));
    }
    assert_eq!(ServiceKind::Airline.to_string(), "airline");
}

#[test]
fn message_kind_decode_and_encode() {
    assert_eq!(decode("confirmation".to_string()), MessageKind::Confirmation);
    assert_eq!(decode("rejection".to_string()), MessageKind::Rejection);
    assert_eq!(decode("ack".to_string()), MessageKind::Ack);
    assert_eq!(decode("retry".to_string()), MessageKind::Retry);
    assert_eq!(decode("transaction".to_string()), MessageKind::Transaction);
    assert_eq!(decode("anything".to_string()), MessageKind::Transaction);
    assert_eq!(encode(MessageKind::Confirmation), "confirmation");
    assert_eq!(encode(MessageKind::Rejection), "rejection");
    assert_eq!(encode(MessageKind::Ack), "ack");
    assert_eq!(encode(MessageKind::Transaction), "");
    assert_eq!(encode(MessageKind::Retry), "");
}

#[test]
fn message_kind_names_read_back() {
    for k in [
        MessageKind::Confirmation,
        MessageKind::Rejection,
        MessageKind::Transaction,
        MessageKind::Ack,
        MessageKind::Retry,
    ] {
        assert_eq!(decode(k.to_string()), k);
    }
    for k in [MessageKind::Confirmation, MessageKind::Rejection, MessageKind::Transaction, MessageKind::Ack] {
        assert_eq!(decode(encode(k)), k);
    }
}

#[test]
fn phases_read_back() {
    for p in [TransactionPhase::Init, TransactionPhase::Abort, TransactionPhase::Commit] {
        assert_eq!(transaction_phase::decode(transaction_phase::encode(p)), p);
    }
    assert_eq!(transaction_phase::encode(TransactionPhase::Commit), "COMMIT");
    assert_eq!(transaction_phase::decode("commit".to_string()), TransactionPhase::Init);
    assert_eq!(TransactionPhase::Abort.to_string(), "ABORT");
}

#[test]
fn integers_are_read_as_str_parse_reads_them() {
    for s in ["0", "7", "-7", "+7", "2147483647", "-2147483648", "007", "", "-", "+", "2147483648",
        "-2147483649", "1a", " 1", "+-1", "--1", "99999999999999999999"] {
        assert_eq!(parse_i32(&chars(s)), s.parse::<i32>().ok(), "i32 {:?}", s);
        assert_eq!(parse_u64(&chars(s)), s.parse::<u64>().ok(), "u64 {:?}", s);
        assert_eq!(parse_u32(&chars(s)), s.parse::<u32>().ok(), "u32 {:?}", s);
    }
    for s in ["18446744073709551615", "18446744073709551616", "-0", "4294967295", "4294967296"] {
        assert_eq!(parse_u64(&chars(s)), s.parse::<u64>().ok(), "u64 {:?}", s);
        assert_eq!(parse_u32(&chars(s)), s.parse::<u32>().ok(), "u32 {:?}", s);
    }
}

#[test]
fn integers_are_written_as_display_writes_them() {
    for v in [0, 1, -1, 10, 99, -100, i32::MAX, i32::MIN, 123456] {
        assert_eq!(i32_to_string(v), v.to_string());
        assert_eq!(parse_i32(&chars_of(&i32_to_string(v))), Some(v));
    }
    for v in [0u64, 9, 10, u64::MAX, 4096] {
        assert_eq!(u64_to_string(v), v.to_string());
        assert_eq!(parse_u64(&chars_of(&u64_to_string(v))), Some(v));
    }
}

#[test]
fn split_is_str_split() {
    for s in ["a,b,c", "", ",", "a,", ",a", "a,,b", "abc"] {
        let got: Vec<String> = split_chars(&chars(s), ',').iter().map(|f| f.iter().collect()).collect();
        let want: Vec<String> = s.split(',').map(|f| f.to_string()).collect();
        assert_eq!(got, want);
    }
}

#[test]
fn message_wire_form() {
    let m = Message::new(MessageKind::Confirmation, MessageBody::new(5, ServiceKind::Hotel, 100, 0));
    assert_eq!(m.serialize(), "confirmation|5,hotel,100,0,\n");
    assert_eq!(m.to_string(), "confirmation,5,hotel,100,0");
}

#[test]
fn messages_read_back() {
    for kind in [
        MessageKind::Confirmation,
        MessageKind::Rejection,
        MessageKind::Transaction,
        MessageKind::Ack,
        MessageKind::Retry,
    ] {
        let m = Message::new(kind, MessageBody::new(-3, ServiceKind::Bank, i32::MIN, i32::MAX));
        assert_eq!(deserialize(m.serialize()), m);
    }
}

#[test]
fn deserialize_reads_a_service_answer() {
    let m = deserialize("ack|12,airline,50,3".to_string());
    assert_eq!(m.kind, MessageKind::Ack);
    assert_eq!(m.body, MessageBody::new(12, ServiceKind::Airline, 50, 3));
    let m = deserialize("whatever|1,bank,2,3|ignored".to_string());
    assert_eq!(m.kind, MessageKind::Transaction);
}

#[test]
fn malformed_messages_are_refused() {
    assert_eq!(try_deserialize(&"ack".to_string()), None);
    assert_eq!(try_deserialize(&"ack|1,hotel,2".to_string()), None);
    assert_eq!(try_deserialize(&"ack|1,spa,2,3".to_string()), None);
    assert_eq!(try_deserialize(&"ack|x,hotel,2,3".to_string()), None);
    assert_eq!(try_deserialize(&"ack|1,hotel,2,3\n".to_string()), None);
}

#[test]
fn body_parser_reads_four_fields() {
    assert_eq!(body_parser("1,hotel,2,3".to_string()), MessageBody::new(1, ServiceKind::Hotel, 2, 3));
    assert_eq!(body_parser("1,hotel,2,3,extra".to_string()), MessageBody::new(1, ServiceKind::Hotel, 2, 3));
    assert_eq!(try_body_parser(&"1,hotel,2".to_string()), None);
    let b = MessageBody::new(-9, ServiceKind::Airline, 0, 4);
    assert_eq!(b.to_string(), "-9,airline,0,4");
    assert_eq!(body_parser(b.to_string()), b);
}

#[test]
fn transaction_steps_read_back() {
    let s = TransactionStep::new(4, ServiceKind::Bank, 300, 2);
    assert_eq!(s.to_string(), "4,bank,300,2");
    assert_eq!(transaction_parser(s.to_string()), s);
    assert_eq!(try_transaction_parser(&"4,bank,3e,2".to_string()), None);
}

#[test]
fn parse_operation_reads_service_and_amount() {
    assert_eq!(parse_operation("1,airline,250,3".to_string()), Operation::new(ServiceKind::Airline, 250));
    assert_eq!(parse_operation("x,bank,18446744073709551615".to_string()), Operation::new(ServiceKind::Bank, u64::MAX));
    assert_eq!(try_parse_operation(&"1,airline,-250,3".to_string()), None);
    assert_eq!(try_parse_operation(&"1,airline".to_string()), None);
}
