//! The display matcher: does a human-supplied descriptor string denote a
//! given output? A descriptor matches the name, the make, the model, or the
//! exact concatenations `make model` and `make model serial` with single
//! space separators; nothing is normalized or trimmed.
use crate::output::{Output, OutputV};
use vstd::prelude::*;
use vstd::string::StringExecFns;

verus! {

/// A descriptor matches an output exactly when it equals the output's
/// name, make or model, or the byte-exact concatenation of make and model,
/// or of make, model and serial, each pair separated by a single space.
pub open spec fn descriptor_matches(o: OutputV, s: Seq<char>) -> bool {
    ||| s == o.name
    ||| s == o.make
    ||| s == o.model
    ||| s == o.make + seq![' '] + o.model
    ||| s == o.make + seq![' '] + o.model + seq![' '] + o.serial
}

/// Decides [`descriptor_matches`] by building the two candidate
/// concatenations and comparing for exact equality.
pub fn display_matches(o: &Output, s: &String) -> (r: bool)
    ensures
        r == descriptor_matches(o@, s@),
{
    proof {
        reveal_strlit(" ");
        assert(" "@ =~= seq![' ']);
    }
    if *s == o.name {
        return true;
    }
    if *s == o.make {
        return true;
    }
    if *s == o.model {
        return true;
    }
    let mut mm = o.make.clone();
    mm.append(" ");
    mm.append(o.model.as_str());
    proof {
        assert(mm@ =~= o@.make + seq![' '] + o@.model);
    }
    if *s == mm {
        return true;
    }
    let mut mms = mm;
    mms.append(" ");
    mms.append(o.serial.as_str());
    proof {
        assert(mms@ =~= o@.make + seq![' '] + o@.model + seq![' '] + o@.serial);
    }
    if *s == mms {
        return true;
    }
    false
}

} // verus!
