//! Messages between the coordinator and the services, and their wire form
//! `kind|id,service,amount,total,` followed by a newline.
use vstd::prelude::*;
use crate::message_body::{
    MessageBody, body_text, lemma_record_chars, lemma_record_roundtrip,
    record_char, spec_body_parser,
};
use crate::message_kind::{
    MessageKind, decode_chars, kind_name, lemma_kind_name_chars, lemma_name_roundtrip,
    spec_decode,
};
use crate::text::{
    append_string, append_text, chars_of, free_of, lemma_free_of_join, lemma_split_free,
    lemma_split_join, split_chars, split_fields,
};
use crate::message_body::parse_record;

verus! {

/// A message: its kind and its body.
#[derive(Clone, Copy, PartialEq, Eq, Structural, Debug)]
pub struct Message {
    pub kind: MessageKind,
    pub body: MessageBody,
}

/// The wire form of a message.
pub open spec fn message_text(m: Message) -> Seq<char> {
    kind_name(m.kind) + seq!['|'] + body_text(m.body) + seq![',', '\n']
}

/// The message that a line holds, if it is well formed: the text before the
/// first `|` names the kind, and the text between the first and the second
/// `|` holds the body.
pub open spec fn spec_deserialize(raw: Seq<char>) -> Option<Message> {
    let p = split_fields(raw, '|');
    if p.len() >= 2 {
        match spec_body_parser(p[1]) {
            Some(body) => Some(Message { kind: spec_decode(p[0]), body }),
            None => None,
        }
    } else {
        None
    }
}

/// A message as it is shown: `kind,id,service,amount,total`.
pub open spec fn message_display(m: Message) -> Seq<char> {
    kind_name(m.kind) + seq![','] + body_text(m.body)
}

impl Message {
    pub fn new(kind: MessageKind, body: MessageBody) -> (res: Message)
        ensures
            res == (Message { kind, body }),
    {
        Message { kind, body }
    }

    /// The wire form of the message.
    pub fn serialize(&self) -> (res: String)
        ensures
            res@ == message_text(*self),
    {
        let mut out = self.kind.to_string();
        append_text(&mut out, "|");
        append_string(&mut out, &self.body.to_string());
        append_text(&mut out, ",\n");
        proof {
            reveal_strlit("|");
            reveal_strlit(",\n");
        }
        assert(out@ =~= message_text(*self));
        out
    }

    /// The message as it is shown.
    pub fn to_string(&self) -> (res: String)
        ensures
            res@ == message_display(*self),
    {
        let mut out = self.kind.to_string();
        append_text(&mut out, ",");
        append_string(&mut out, &self.body.to_string());
        proof {
            reveal_strlit(",");
        }
        assert(out@ =~= message_display(*self));
        out
    }
}

/// Reads a message, or tells that the line is not a message.
pub fn try_deserialize(raw_message: &String) -> (res: Option<Message>)
    ensures
        res == spec_deserialize(raw_message@),
{
    let chars = chars_of(raw_message);
    let params = split_chars(&chars, '|');
    let ghost p = split_fields(raw_message@, '|');
    if params.len() < 2 {
        return None;
    }
    assert(params@[0]@ == p[0]);
    assert(params@[1]@ == p[1]);
    match parse_record(&params[1]) {
        Some((id, service, amount, total)) => {
            let kind = decode_chars(&params[0]);
            Some(Message::new(kind, MessageBody::new(id, service, amount, total)))
        },
        None => None,
    }
}

/// Reads a message from its wire form.
pub fn deserialize(raw_message: String) -> (res: Message)
    requires
        spec_deserialize(raw_message@) is Some,
    ensures
        spec_deserialize(raw_message@) == Some(res),
{
    match try_deserialize(&raw_message) {
        Some(m) => m,
        None => {
            assert(false);
            Message::new(
                MessageKind::Ack,
                MessageBody::new(0, crate::service_kind::ServiceKind::Hotel, 0, 0),
            )
        },
    }
}

/// The wire form of a message reads back as the same message.
pub proof fn lemma_message_roundtrip(m: Message)
    ensures
        spec_deserialize(message_text(m)) == Some(m),
{
    let k = kind_name(m.kind);
    let b = body_text(m.body);
    let rest = seq!['\n'];
    let tail = b + seq![','] + rest;
    lemma_kind_name_chars(m.kind);
    assert(free_of(k, '|'));
    lemma_record_chars(m.body.id, m.body.service, m.body.amount, m.body.total);
    assert(free_of(b, '|')) by {
        assert forall|i: int| 0 <= i < b.len() implies #[trigger] b[i] != '|' by {
            assert(record_char(b[i]));
        }
    }
    lemma_free_of_join(b, seq![','], '|');
    lemma_free_of_join(b + seq![','], rest, '|');
    lemma_split_free(k, '|');
    lemma_split_free(tail, '|');
    lemma_split_join(k, tail, '|');
    assert(message_text(m) =~= k + seq!['|'] + tail);
    let p = split_fields(message_text(m), '|');
    assert(p =~= seq![k, tail]);
    lemma_record_roundtrip(m.body.id, m.body.service, m.body.amount, m.body.total, rest);
    lemma_name_roundtrip(m.kind);
}

} // verus!
