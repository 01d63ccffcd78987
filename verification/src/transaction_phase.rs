//! The phases of the two-phase commit that the coordinator logs.
use vstd::prelude::*;
use crate::text::{chars_are, chars_of, text};

verus! {

/// Where a transaction stands in the commit protocol.
#[derive(Clone, Copy, PartialEq, Eq, Structural, Debug, Hash)]
pub enum TransactionPhase {
    Init,
    Abort,
    Commit,
}

/// The name of a phase in the transaction log.
pub open spec fn phase_name(phase: TransactionPhase) -> Seq<char> {
    match phase {
        TransactionPhase::Init => "INIT"@,
        TransactionPhase::Commit => "COMMIT"@,
        TransactionPhase::Abort => "ABORT"@,
    }
}

/// The phase that a name denotes: any other text is read as `Init`.
pub open spec fn spec_decode_phase(raw: Seq<char>) -> TransactionPhase {
    if raw == "INIT"@ {
        TransactionPhase::Init
    } else if raw == "COMMIT"@ {
        TransactionPhase::Commit
    } else if raw == "ABORT"@ {
        TransactionPhase::Abort
    } else {
        TransactionPhase::Init
    }
}

/// Reads a phase from its name.
pub fn decode(raw_message: String) -> (res: TransactionPhase)
    ensures
        res == spec_decode_phase(raw_message@),
{
    decode_phase_chars(&chars_of(&raw_message))
}

/// Reads a phase from the characters of its name.
pub fn decode_phase_chars(raw: &Vec<char>) -> (res: TransactionPhase)
    ensures
        res == spec_decode_phase(raw@),
{
    if chars_are(raw, "INIT") {
        TransactionPhase::Init
    } else if chars_are(raw, "COMMIT") {
        TransactionPhase::Commit
    } else if chars_are(raw, "ABORT") {
        TransactionPhase::Abort
    } else {
        TransactionPhase::Init
    }
}

/// The name of a phase.
pub fn encode(msg: TransactionPhase) -> (res: String)
    ensures
        res@ == phase_name(msg),
{
    match msg {
        TransactionPhase::Init => text("INIT"),
        TransactionPhase::Commit => text("COMMIT"),
        TransactionPhase::Abort => text("ABORT"),
    }
}

impl TransactionPhase {
    /// The name of the phase, as `encode` gives it.
    pub fn to_string(&self) -> (res: String)
        ensures
            res@ == phase_name(*self),
    {
        encode(*self)
    }
}

/// Decoding the name of a phase gives the phase back.
pub proof fn lemma_phase_roundtrip(phase: TransactionPhase)
    ensures
        spec_decode_phase(phase_name(phase)) == phase,
{
    reveal_strlit("INIT");
    reveal_strlit("COMMIT");
    reveal_strlit("ABORT");
    assert("INIT"@.len() != "COMMIT"@.len());
    assert("INIT"@.len() != "ABORT"@.len());
    assert("COMMIT"@.len() != "ABORT"@.len());
}

/// A phase name holds only uppercase letters.
pub proof fn lemma_phase_name_chars(phase: TransactionPhase)
    ensures
        forall|i: int|
            0 <= i < phase_name(phase).len() ==> 'A' <= #[trigger] phase_name(phase)[i]
                && phase_name(phase)[i] <= 'Z',
{
    reveal_strlit("INIT");
    reveal_strlit("COMMIT");
    reveal_strlit("ABORT");
}

} // verus!
