//! How the program is started: `clear`, `alglobo <node id>` or
//! `service <hotel|airline|bank>`.
use vstd::prelude::*;
use crate::service_kind::{
    ServiceKind, kind_from_chars, kind_text, lemma_kind_roundtrip, spec_parse_kind,
};
use crate::text::{
    chars_are, chars_of, lemma_u64_roundtrip, nat_text, parse_u32, spec_parse_u32,
};

verus! {

/// What the program is asked to run.
#[derive(Clone, Copy, PartialEq, Eq, Structural, Debug)]
pub enum Mode {
    /// Empty the log files.
    Clear,
    /// Run the coordinator node with this id.
    Alglobo(u32),
    /// Run this service.
    Service(ServiceKind),
    /// No known mode was asked for.
    Invalid,
}

/// The mode that the arguments ask for (the program's name comes first);
/// `None` where the arguments miss the mode, or a mode misses or mistypes
/// its argument.
pub open spec fn spec_mode(args: Seq<Seq<char>>) -> Option<Mode> {
    if args.len() < 2 {
        None
    } else if args[1] == "clear"@ {
        Some(Mode::Clear)
    } else if args[1] == "alglobo"@ {
        if args.len() >= 3 && spec_parse_u32(args[2]) is Some {
            Some(Mode::Alglobo(spec_parse_u32(args[2]).unwrap()))
        } else {
            None
        }
    } else if args[1] == "service"@ {
        if args.len() >= 3 && spec_parse_kind(args[2]) is Some {
            Some(Mode::Service(spec_parse_kind(args[2]).unwrap()))
        } else {
            None
        }
    } else {
        Some(Mode::Invalid)
    }
}

/// Every node id starts its coordinator, every service name its service, and
/// `clear` clears, whatever the program's name and whatever follows.
pub proof fn lemma_modes(p: Seq<char>, n: u32, kind: ServiceKind, rest: Seq<Seq<char>>)
    ensures
        spec_mode(seq![p, "alglobo"@, nat_text(n as nat)] + rest) == Some(Mode::Alglobo(n)),
        spec_mode(seq![p, "service"@, kind_text(kind)] + rest) == Some(Mode::Service(kind)),
        spec_mode(seq![p, "clear"@] + rest) == Some(Mode::Clear),
{
    reveal_strlit("alglobo");
    reveal_strlit("service");
    reveal_strlit("clear");
    lemma_u64_roundtrip(n as u64);
    lemma_kind_roundtrip(kind);
    let a = seq![p, "alglobo"@, nat_text(n as nat)] + rest;
    assert(a[1] == "alglobo"@);
    assert(a[2] == nat_text(n as nat));
    assert("alglobo"@.len() != "clear"@.len());
    let b = seq![p, "service"@, kind_text(kind)] + rest;
    assert(b[1] == "service"@);
    assert(b[2] == kind_text(kind));
    assert("service"@.len() != "clear"@.len());
    assert("service"@[0] != "alglobo"@[0]);
    let c = seq![p, "clear"@] + rest;
    assert(c[1] == "clear"@);
}

/// Reads the mode from the command-line arguments.
pub fn parse_mode(args: &Vec<String>) -> (res: Option<Mode>)
    ensures
        res == spec_mode(args@.map_values(|a: String| a@)),
{
    let ghost views = args@.map_values(|a: String| a@);
    if args.len() < 2 {
        return None;
    }
    let mode = chars_of(&args[1]);
    assert(mode@ == views[1]);
    if chars_are(&mode, "clear") {
        Some(Mode::Clear)
    } else if chars_are(&mode, "alglobo") {
        if args.len() < 3 {
            return None;
        }
        let arg = chars_of(&args[2]);
        assert(arg@ == views[2]);
        match parse_u32(&arg) {
            Some(id) => Some(Mode::Alglobo(id)),
            None => None,
        }
    } else if chars_are(&mode, "service") {
        if args.len() < 3 {
            return None;
        }
        let arg = chars_of(&args[2]);
        assert(arg@ == views[2]);
        match kind_from_chars(&arg) {
            Some(kind) => Some(Mode::Service(kind)),
            None => None,
        }
    } else {
        Some(Mode::Invalid)
    }
}

} // verus!
