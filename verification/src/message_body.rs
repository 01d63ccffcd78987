//! The body of a message: which transaction, which service, how much.
use vstd::prelude::*;
use crate::service_kind::{
    ServiceKind, kind_from_chars, kind_text, lemma_kind_roundtrip, lemma_kind_text_chars,
    spec_parse_kind,
};
use crate::text::{
    append_i32, append_string, append_text, chars_of, free_of, int_text, is_digit,
    lemma_i32_roundtrip, lemma_int_text_free_of, lemma_nat_text, lemma_split_free,
    lemma_split_join, nat_text, parse_i32, spec_parse_i32, split_chars, split_fields,
};

verus! {

/// The body of a message between the coordinator and a service.
#[derive(Clone, Copy, PartialEq, Eq, Structural, Debug)]
pub struct MessageBody {
    pub id: i32,
    pub service: ServiceKind,
    pub amount: i32,
    pub total: i32,
}

impl MessageBody {
    pub fn new(id: i32, service: ServiceKind, amount: i32, total: i32) -> (res: MessageBody)
        ensures
            res == (MessageBody { id, service, amount, total }),
    {
        MessageBody { id, service, amount, total }
    }

    /// The body as it is written: `id,service,amount,total`.
    pub fn to_string(&self) -> (res: String)
        ensures
            res@ == body_text(*self),
    {
        record_to_string(self.id, self.service, self.amount, self.total)
    }
}

/// A record of four comma-separated fields: an id, a service name, an
/// amount and a total.
pub open spec fn record_text(id: i32, service: ServiceKind, amount: i32, total: i32) -> Seq<
    char,
> {
    int_text(id as int) + seq![','] + kind_text(service) + seq![','] + int_text(amount as int)
        + seq![','] + int_text(total as int)
}

/// The fields of a record, if its first four comma-separated pieces read as
/// an `i32`, a service name, an `i32` and an `i32`; further pieces are
/// ignored.
pub open spec fn spec_parse_record(line: Seq<char>) -> Option<(i32, ServiceKind, i32, i32)> {
    let f = split_fields(line, ',');
    if f.len() >= 4 && spec_parse_i32(f[0]) is Some && spec_parse_kind(f[1]) is Some
        && spec_parse_i32(f[2]) is Some && spec_parse_i32(f[3]) is Some {
        Some(
            (
                spec_parse_i32(f[0]).unwrap(),
                spec_parse_kind(f[1]).unwrap(),
                spec_parse_i32(f[2]).unwrap(),
                spec_parse_i32(f[3]).unwrap(),
            ),
        )
    } else {
        None
    }
}

/// The text of a body.
pub open spec fn body_text(b: MessageBody) -> Seq<char> {
    record_text(b.id, b.service, b.amount, b.total)
}

/// The body that a line holds, if it is well formed.
pub open spec fn spec_body_parser(line: Seq<char>) -> Option<MessageBody> {
    match spec_parse_record(line) {
        Some((id, service, amount, total)) => Some(MessageBody { id, service, amount, total }),
        None => None,
    }
}

/// The text of a record.
pub fn record_to_string(id: i32, service: ServiceKind, amount: i32, total: i32) -> (res: String)
    ensures
        res@ == record_text(id, service, amount, total),
{
    let mut out = String::new();
    append_i32(&mut out, id);
    append_text(&mut out, ",");
    append_string(&mut out, &service.to_string());
    append_text(&mut out, ",");
    append_i32(&mut out, amount);
    append_text(&mut out, ",");
    append_i32(&mut out, total);
    proof {
        reveal_strlit(",");
    }
    assert(out@ =~= record_text(id, service, amount, total));
    out
}

/// Reads the four fields of a record.
pub fn parse_record(line: &Vec<char>) -> (res: Option<(i32, ServiceKind, i32, i32)>)
    ensures
        res == spec_parse_record(line@),
{
    let f = split_chars(line, ',');
    let ghost fs = split_fields(line@, ',');
    if f.len() < 4 {
        return None;
    }
    assert(f@[0]@ == fs[0]);
    assert(f@[1]@ == fs[1]);
    assert(f@[2]@ == fs[2]);
    assert(f@[3]@ == fs[3]);
    let id = parse_i32(&f[0]);
    let service = kind_from_chars(&f[1]);
    let amount = parse_i32(&f[2]);
    let total = parse_i32(&f[3]);
    match (id, service, amount, total) {
        (Some(id), Some(service), Some(amount), Some(total)) => Some((id, service, amount, total)),
        _ => None,
    }
}

/// The characters that a record is written with.
pub open spec fn record_char(c: char) -> bool {
    is_digit(c) || ('a' <= c && c <= 'z') || c == '-' || c == ','
}

/// Every character of a record is a digit, a lowercase letter, a minus
/// sign or a comma.
pub proof fn lemma_record_chars(id: i32, service: ServiceKind, amount: i32, total: i32)
    ensures
        forall|i: int|
            0 <= i < record_text(id, service, amount, total).len() ==> record_char(
                #[trigger] record_text(id, service, amount, total)[i],
            ),
{
    let t = record_text(id, service, amount, total);
    lemma_kind_text_chars(service);
    lemma_int_chars(id as int);
    lemma_int_chars(amount as int);
    lemma_int_chars(total as int);
    let a = int_text(id as int);
    let k = kind_text(service);
    let b = int_text(amount as int);
    let c = int_text(total as int);
    assert forall|i: int| 0 <= i < t.len() implies record_char(#[trigger] t[i]) by {
        let l1 = a.len();
        let l2 = l1 + 1 + k.len();
        let l3 = l2 + 1 + b.len();
        if i < l1 {
            assert(t[i] == a[i]);
        } else if i == l1 {
            assert(t[i] == ',');
        } else if i < l2 {
            assert(t[i] == k[i - l1 - 1]);
        } else if i == l2 {
            assert(t[i] == ',');
        } else if i < l3 {
            assert(t[i] == b[i - l2 - 1]);
        } else if i == l3 {
            assert(t[i] == ',');
        } else {
            assert(t[i] == c[i - l3 - 1]);
        }
    }
}

/// The text of an integer is made of digits and a leading minus sign.
pub proof fn lemma_int_chars(v: int)
    ensures
        forall|i: int|
            0 <= i < int_text(v).len() ==> is_digit(#[trigger] int_text(v)[i]) || int_text(v)[i]
                == '-',
{
    if v < 0 {
        lemma_nat_text((-v) as nat);
        let t = int_text(v);
        let d = nat_text((-v) as nat);
        assert forall|i: int| 0 <= i < t.len() implies is_digit(#[trigger] t[i]) || t[i] == '-' by {
            if i > 0 {
                assert(t[i] == d[i - 1]);
            }
        }
    } else {
        lemma_nat_text(v as nat);
    }
}

/// The comma-separated pieces of a record followed by a comma and `rest`
/// are its four fields and then the pieces of `rest`.
pub proof fn lemma_record_split(
    id: i32,
    service: ServiceKind,
    amount: i32,
    total: i32,
    rest: Seq<char>,
)
    ensures
        split_fields(record_text(id, service, amount, total), ',') == seq![
            int_text(id as int),
            kind_text(service),
            int_text(amount as int),
            int_text(total as int),
        ],
        split_fields(record_text(id, service, amount, total) + seq![','] + rest, ',') == seq![
            int_text(id as int),
            kind_text(service),
            int_text(amount as int),
            int_text(total as int),
        ] + split_fields(rest, ','),
{
    let a = int_text(id as int);
    let k = kind_text(service);
    let b = int_text(amount as int);
    let c = int_text(total as int);
    lemma_int_text_free_of(id as int, ',');
    lemma_int_text_free_of(amount as int, ',');
    lemma_int_text_free_of(total as int, ',');
    lemma_kind_text_chars(service);
    assert(free_of(k, ','));
    lemma_split_free(a, ',');
    lemma_split_free(k, ',');
    lemma_split_free(b, ',');
    lemma_split_free(c, ',');
    let sep = seq![','];
    // c + , + rest
    lemma_split_join(c, rest, ',');
    let c_r = c + sep + rest;
    // b + , + c
    lemma_split_join(b, c, ',');
    lemma_split_join(b, c_r, ',');
    let b_c = b + sep + c;
    let b_cr = b + sep + c_r;
    lemma_split_join(k, b_c, ',');
    lemma_split_join(k, b_cr, ',');
    let k_bc = k + sep + b_c;
    let k_bcr = k + sep + b_cr;
    lemma_split_join(a, k_bc, ',');
    lemma_split_join(a, k_bcr, ',');
    assert(record_text(id, service, amount, total) =~= a + sep + k_bc);
    assert(record_text(id, service, amount, total) + sep + rest =~= a + sep + k_bcr);
    assert(split_fields(record_text(id, service, amount, total), ',') =~= seq![a, k, b, c]);
    assert(split_fields(record_text(id, service, amount, total) + sep + rest, ',') =~= seq![
        a,
        k,
        b,
        c,
    ] + split_fields(rest, ','));
}

/// A record reads back as its fields, alone or followed by a comma and
/// anything.
pub proof fn lemma_record_roundtrip(
    id: i32,
    service: ServiceKind,
    amount: i32,
    total: i32,
    rest: Seq<char>,
)
    ensures
        spec_parse_record(record_text(id, service, amount, total)) == Some(
            (id, service, amount, total),
        ),
        spec_parse_record(record_text(id, service, amount, total) + seq![','] + rest) == Some(
            (id, service, amount, total),
        ),
{
    lemma_record_split(id, service, amount, total, rest);
    lemma_i32_roundtrip(id);
    lemma_i32_roundtrip(amount);
    lemma_i32_roundtrip(total);
    lemma_kind_roundtrip(service);
}

/// Reads a body from a line, or tells that the line is not a body.
pub fn try_body_parser(line: &String) -> (res: Option<MessageBody>)
    ensures
        res == spec_body_parser(line@),
{
    match parse_record(&chars_of(line)) {
        Some((id, service, amount, total)) => Some(MessageBody::new(id, service, amount, total)),
        None => None,
    }
}

/// Reads a body from a line `id,service,amount,total`.
pub fn body_parser(line: String) -> (res: MessageBody)
    requires
        spec_body_parser(line@) is Some,
    ensures
        spec_body_parser(line@) == Some(res),
{
    match try_body_parser(&line) {
        Some(b) => b,
        None => {
            assert(false);
            MessageBody::new(0, ServiceKind::Hotel, 0, 0)
        },
    }
}

/// The text of a body reads back as the same body.
pub proof fn lemma_body_roundtrip(b: MessageBody)
    ensures
        spec_body_parser(body_text(b)) == Some(b),
{
    lemma_record_roundtrip(b.id, b.service, b.amount, b.total, Seq::<char>::empty());
}

} // verus!
