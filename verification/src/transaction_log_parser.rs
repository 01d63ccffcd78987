//! The transaction log of the coordinator: one line per phase that a
//! transaction enters, `PHASE id alglobo <node>`.
use vstd::prelude::*;
use crate::transaction_phase::{
    TransactionPhase, decode_phase_chars, lemma_phase_name_chars, phase_name, spec_decode_phase,
};
use crate::text::{
    append_i32, append_natural, append_text, chars_of, free_of, int_text,
    lemma_i32_roundtrip, lemma_int_text_free_of, lemma_split_free, lemma_split_join, nat_text,
    parse_i32, spec_parse_i32, split_chars, split_fields,
};

verus! {

/// The line that records that a transaction entered a phase, as node `node`
/// writes it.
pub open spec fn phase_log_line(phase: TransactionPhase, id: i32, node: u32) -> Seq<char> {
    phase_name(phase) + seq![' '] + int_text(id as int) + " alglobo <"@ + nat_text(node as nat)
        + seq!['>']
}

/// What a log line is read as: its second space-separated field is the
/// transaction's id, and the phase is decoded from that same field.
pub open spec fn spec_parse_log_line(line: Seq<char>) -> Option<(i32, TransactionPhase)> {
    let v = split_fields(line, ' ');
    if v.len() >= 2 && spec_parse_i32(v[1]) is Some {
        Some((spec_parse_i32(v[1]).unwrap(), spec_decode_phase(v[1])))
    } else {
        None
    }
}

/// The line that records that a transaction entered a phase.
pub fn phase_log_string(phase: TransactionPhase, id: i32, node: u32) -> (res: String)
    ensures
        res@ == phase_log_line(phase, id, node),
{
    let mut out = phase.to_string();
    append_text(&mut out, " ");
    append_i32(&mut out, id);
    append_text(&mut out, " alglobo <");
    append_natural(&mut out, node as u64);
    append_text(&mut out, ">");
    proof {
        reveal_strlit(" ");
        reveal_strlit(">");
    }
    assert(out@ =~= phase_log_line(phase, id, node));
    out
}

/// Reads the lines of the transaction log.
pub struct TransactionLogParser {}

impl TransactionLogParser {
    pub fn new() -> (res: Self) {
        TransactionLogParser {  }
    }

    /// Reads a log line, or tells that it cannot be read.
    pub fn try_parse_log_line(&self, line: &String) -> (res: Option<(i32, TransactionPhase)>)
        ensures
            res == spec_parse_log_line(line@),
    {
        let chars = chars_of(line);
        let v = split_chars(&chars, ' ');
        let ghost vs = split_fields(line@, ' ');
        if v.len() < 2 {
            return None;
        }
        assert(v@[1]@ == vs[1]);
        match parse_i32(&v[1]) {
            Some(id) => Some((id, decode_phase_chars(&v[1]))),
            None => None,
        }
    }

    /// Reads the transaction id of a log line, with the phase decoded from
    /// the same field.
    pub fn parse_log_line(&self, line: String) -> (res: (i32, TransactionPhase))
        requires
            spec_parse_log_line(line@) is Some,
        ensures
            spec_parse_log_line(line@) == Some(res),
    {
        match self.try_parse_log_line(&line) {
            Some(r) => r,
            None => {
                assert(false);
                (0, TransactionPhase::Init)
            },
        }
    }

    /// Reads the last line of the log, if there is one.
    pub fn get_last_transaction(&self, lines: &Vec<String>) -> (res: Option<(i32, TransactionPhase)>)
        requires
            lines.len() > 0 ==> spec_parse_log_line(lines@.last()@) is Some,
        ensures
            lines.len() == 0 ==> res is None,
            lines.len() > 0 ==> res == spec_parse_log_line(lines@.last()@),
    {
        if lines.len() == 0 {
            return None;
        }
        let last = &lines[lines.len() - 1];
        Some(self.parse_log_line(last.clone()))
    }
}

/// A logged phase line, whatever follows it on its line, reads back as the
/// transaction's id; the phase read back is `Init` whatever the phase was,
/// since it is decoded from the id's field.
pub proof fn lemma_log_line_roundtrip(phase: TransactionPhase, id: i32, node: u32, rest: Seq<char>)
    ensures
        spec_parse_log_line(phase_log_line(phase, id, node) + rest) == Some(
            (id, TransactionPhase::Init),
        ),
{
    let name = phase_name(phase);
    let t = int_text(id as int);
    let r = " alglobo <"@ + nat_text(node as nat) + seq!['>'] + rest;
    reveal_strlit(" alglobo <");
    reveal_strlit("alglobo <");
    lemma_phase_name_chars(phase);
    assert(free_of(name, ' '));
    lemma_int_text_free_of(id as int, ' ');
    assert(" alglobo <"@ =~= seq![' '] + "alglobo <"@);
    let r2 = "alglobo <"@ + nat_text(node as nat) + seq!['>'] + rest;
    assert(r =~= seq![' '] + r2);
    lemma_split_join(t, r2, ' ');
    lemma_split_join(name, t + seq![' '] + r2, ' ');
    assert(phase_log_line(phase, id, node) + rest =~= name + seq![' '] + (t + seq![' '] + r2));
    lemma_split_free(name, ' ');
    lemma_split_free(t, ' ');
    let v = split_fields(phase_log_line(phase, id, node) + rest, ' ');
    assert(v[1] == t);
    lemma_i32_roundtrip(id);
    reveal_strlit("COMMIT");
    reveal_strlit("ABORT");
    reveal_strlit("INIT");
    if t == "COMMIT"@ {
        assert(t[0] == 'C');
        lemma_phase_digit_or_minus(id);
    }
    if t == "ABORT"@ {
        assert(t[0] == 'A');
        lemma_phase_digit_or_minus(id);
    }
}

proof fn lemma_phase_digit_or_minus(id: i32)
    ensures
        int_text(id as int)[0] == '-' || ('0' <= int_text(id as int)[0] && int_text(
            id as int,
        )[0] <= '9'),
{
    crate::message_body::lemma_int_chars(id as int);
    crate::text::lemma_nat_text(if id < 0 { (-id) as nat } else { id as nat });
}

} // verus!
