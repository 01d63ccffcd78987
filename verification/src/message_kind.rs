//! The kinds of message exchanged between the coordinator and the services.
use vstd::prelude::*;
use crate::text::{chars_are, chars_of, text};

verus! {

/// What a message asks for or answers.
///
/// `Transaction` asks a service to prepare its part of a transaction, and
/// `Retry` asks it again for a transaction that failed before; `Confirmation`
/// commits it, `Rejection` aborts it (or refuses it), and `Ack` answers a
/// commit or an abort.
#[derive(Clone, Copy, PartialEq, Eq, Structural, Debug, Hash)]
pub enum MessageKind {
    Confirmation,
    Rejection,
    Transaction,
    Ack,
    Retry,
}

/// The name under which a kind is written in a message.
pub open spec fn kind_name(kind: MessageKind) -> Seq<char> {
    match kind {
        MessageKind::Confirmation => "confirmation"@,
        MessageKind::Rejection => "rejection"@,
        MessageKind::Transaction => "transaction"@,
        MessageKind::Ack => "ack"@,
        MessageKind::Retry => "retry"@,
    }
}

/// The kind that a name denotes: any text that names no other kind is read
/// as `Transaction`.
pub open spec fn spec_decode(raw: Seq<char>) -> MessageKind {
    if raw == "confirmation"@ {
        MessageKind::Confirmation
    } else if raw == "rejection"@ {
        MessageKind::Rejection
    } else if raw == "ack"@ {
        MessageKind::Ack
    } else if raw == "retry"@ {
        MessageKind::Retry
    } else {
        MessageKind::Transaction
    }
}

/// The short code of a kind: the answers have their names, the requests an
/// empty text.
pub open spec fn spec_encode(kind: MessageKind) -> Seq<char> {
    match kind {
        MessageKind::Confirmation => "confirmation"@,
        MessageKind::Rejection => "rejection"@,
        MessageKind::Ack => "ack"@,
        _ => Seq::<char>::empty(),
    }
}

/// Reads a message kind from its name.
pub fn decode(raw_message: String) -> (res: MessageKind)
    ensures
        res == spec_decode(raw_message@),
{
    decode_chars(&chars_of(&raw_message))
}

/// Reads a message kind from the characters of its name.
pub fn decode_chars(raw: &Vec<char>) -> (res: MessageKind)
    ensures
        res == spec_decode(raw@),
{
    if chars_are(raw, "confirmation") {
        MessageKind::Confirmation
    } else if chars_are(raw, "rejection") {
        MessageKind::Rejection
    } else if chars_are(raw, "ack") {
        MessageKind::Ack
    } else if chars_are(raw, "retry") {
        MessageKind::Retry
    } else {
        MessageKind::Transaction
    }
}

/// The short code of a message kind.
pub fn encode(msg: MessageKind) -> (res: String)
    ensures
        res@ == spec_encode(msg),
{
    match msg {
        MessageKind::Confirmation => text("confirmation"),
        MessageKind::Rejection => text("rejection"),
        MessageKind::Ack => text("ack"),
        _ => String::new(),
    }
}

impl MessageKind {
    /// The name of the kind, as it is written in a message.
    pub fn to_string(&self) -> (res: String)
        ensures
            res@ == kind_name(*self),
    {
        match self {
            MessageKind::Confirmation => text("confirmation"),
            MessageKind::Rejection => text("rejection"),
            MessageKind::Transaction => text("transaction"),
            MessageKind::Ack => text("ack"),
            MessageKind::Retry => text("retry"),
        }
    }
}

proof fn lemma_names_revealed()
    ensures
        "confirmation"@ =~= seq!['c', 'o', 'n', 'f', 'i', 'r', 'm', 'a', 't', 'i', 'o', 'n'],
        "rejection"@ =~= seq!['r', 'e', 'j', 'e', 'c', 't', 'i', 'o', 'n'],
        "transaction"@ =~= seq!['t', 'r', 'a', 'n', 's', 'a', 'c', 't', 'i', 'o', 'n'],
        "ack"@ =~= seq!['a', 'c', 'k'],
        "retry"@ =~= seq!['r', 'e', 't', 'r', 'y'],
{
    reveal_strlit("confirmation");
    reveal_strlit("rejection");
    reveal_strlit("transaction");
    reveal_strlit("ack");
    reveal_strlit("retry");
}

/// The name of every kind reads back as that kind.
pub proof fn lemma_name_roundtrip(kind: MessageKind)
    ensures
        spec_decode(kind_name(kind)) == kind,
{
    lemma_names_revealed();
    assert("confirmation"@.len() != "rejection"@.len());
    assert("confirmation"@.len() != "ack"@.len());
    assert("confirmation"@.len() != "retry"@.len());
    assert("confirmation"@.len() != "transaction"@.len());
    assert("rejection"@.len() != "ack"@.len());
    assert("rejection"@.len() != "retry"@.len());
    assert("rejection"@.len() != "transaction"@.len());
    assert("ack"@.len() != "retry"@.len());
    assert("ack"@.len() != "transaction"@.len());
    assert("retry"@.len() != "transaction"@.len());
}

/// Decoding the code of a kind gives the kind back, for every kind but
/// `Retry`, whose code is the empty text like that of `Transaction`.
pub proof fn lemma_code_roundtrip(kind: MessageKind)
    requires
        kind != MessageKind::Retry,
    ensures
        spec_decode(spec_encode(kind)) == kind,
{
    lemma_names_revealed();
    lemma_name_roundtrip(kind);
    assert(Seq::<char>::empty().len() != "confirmation"@.len());
    assert(Seq::<char>::empty().len() != "rejection"@.len());
    assert(Seq::<char>::empty().len() != "ack"@.len());
    assert(Seq::<char>::empty().len() != "retry"@.len());
}

/// A kind's name is made of lowercase letters only.
pub proof fn lemma_kind_name_chars(kind: MessageKind)
    ensures
        forall|i: int|
            0 <= i < kind_name(kind).len() ==> 'a' <= #[trigger] kind_name(kind)[i] && kind_name(
                kind,
            )[i] <= 'z',
{
    lemma_names_revealed();
}

} // verus!
