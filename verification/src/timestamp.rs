//! Human-readable rendering of wait times.

use vstd::prelude::*;
use vstd::string::*;

use crate::text::{dec_rep, u64_string};

verus! {

/// The rendering of a second count: hours, minutes and seconds, each
/// omitted when zero, joined by single spaces; zero renders as nothing.
pub open spec fn readable(n: nat) -> Seq<char> {
    let h = n / 3600;
    let m = (n % 3600) / 60;
    let s = (n % 3600) % 60;
    if h > 0 && m > 0 && s > 0 {
        dec_rep(h) + "h "@ + dec_rep(m) + "m "@ + dec_rep(s) + "s"@
    } else if h > 0 && m > 0 {
        dec_rep(h) + "h "@ + dec_rep(m) + "m"@
    } else if h > 0 && s > 0 {
        dec_rep(h) + "h "@ + dec_rep(s) + "s"@
    } else if h > 0 {
        dec_rep(h) + "h"@
    } else if m > 0 && s > 0 {
        dec_rep(m) + "m "@ + dec_rep(s) + "s"@
    } else if m > 0 {
        dec_rep(m) + "m"@
    } else if s > 0 {
        dec_rep(s) + "s"@
    } else {
        Seq::<char>::empty()
    }
}

pub trait Timestamp {
    spec fn readable_spec(&self) -> Seq<char>;

    /// Render the value as readable text.
    fn as_readable(&self) -> (r: String)
        ensures
            r@ == self.readable_spec(),
    ;
}

impl Timestamp for u64 {
    open spec fn readable_spec(&self) -> Seq<char> {
        readable(*self as nat)
    }

    fn as_readable(&self) -> (r: String) {
        let n = *self;
        let h = n / 3600;
        let rem = n % 3600;
        let m = rem / 60;
        let s = rem % 60;
        let mut out = String::new();
        if h > 0 {
            out.append(u64_string(h).as_str());
            out.append("h");
        }
        if m > 0 {
            if h > 0 {
                out.append(" ");
            }
            out.append(u64_string(m).as_str());
            out.append("m");
        }
        if s > 0 {
            if h > 0 || m > 0 {
                out.append(" ");
            }
            out.append(u64_string(s).as_str());
            out.append("s");
        }
        proof {
            reveal_strlit("h");
            reveal_strlit("m");
            reveal_strlit("s");
            reveal_strlit(" ");
            reveal_strlit("h ");
            reveal_strlit("m ");
            assert(out@ =~= readable(n as nat));
        }
        out
    }
}

} // verus!
