//! Capture-time handling: the photo metadata field holds a fixed
//! 19-character local date-time `YYYY:MM:DD HH:MM:SS`, with colons in the
//! date. It is rewritten as an RFC 3339 text (`YYYY-MM-DDTHH:MM:SSZ`),
//! parsed, and shifted by the process's local UTC offset to a Unix
//! timestamp.

use vstd::prelude::*;
use crate::timeparse::{rfc3339_unix, parse_rfc3339_unix};

verus! {

/// The byte `':'`.
pub const COLON: u8 = 58;

/// The byte `'-'`.
pub const DASH: u8 = 45;

/// The byte `'T'`.
pub const TEE: u8 = 84;

/// The byte `'Z'`.
pub const ZED: u8 = 90;

/// Every colon replaced by a dash; all other bytes kept.
pub open spec fn dashed(s: Seq<u8>) -> Seq<u8> {
    s.map_values(|b: u8| if b == COLON { DASH } else { b })
}

/// The RFC 3339 text a capture field rewrites to: the first ten bytes with
/// colons dashed, a `T`, bytes eleven through eighteen, and a final `Z`.
/// Fields shorter than the fixed 19-character pattern have no rewriting.
pub open spec fn normalize_capture(s: Seq<u8>) -> Option<Seq<u8>> {
    if s.len() >= 19 {
        Some(dashed(s.subrange(0, 10)) + seq![TEE] + s.subrange(11, 19) + seq![ZED])
    } else {
        None
    }
}

/// Rewrites a capture field's bytes into RFC 3339 form.
pub fn normalize_capture_text(s: &Vec<u8>) -> (r: Option<Vec<u8>>)
    ensures
        match r {
            Some(v) => normalize_capture(s@) == Some(v@),
            None => normalize_capture(s@) is None,
        },
{
    if s.len() < 19 {
        return None;
    }
    let mut out: Vec<u8> = Vec::new();
    let mut i: usize = 0;
    while i < 10
        invariant
            i <= 10,
            s@.len() >= 19,
            out@.len() == i,
            forall|k: int| 0 <= k < i ==> out@[k] == (if s@[k] == COLON { DASH } else { s@[k] }),
        decreases 10 - i,
    {
        let b = s[i];
        if b == COLON {
            out.push(DASH);
        } else {
            out.push(b);
        }
        i += 1;
    }
    out.push(TEE);
    let mut j: usize = 11;
    while j < 19
        invariant
            11 <= j <= 19,
            s@.len() >= 19,
            out@.len() == j,
            forall|k: int| 0 <= k < 10 ==> out@[k] == (if s@[k] == COLON { DASH } else { s@[k] }),
            out@[10] == TEE,
            forall|k: int| 11 <= k < j ==> out@[k] == s@[k],
        decreases 19 - j,
    {
        out.push(s[j]);
        j += 1;
    }
    out.push(ZED);
    proof {
        assert(out@ =~= dashed(s@.subrange(0, 10)) + seq![TEE] + s@.subrange(11, 19) + seq![ZED]);
    }
    Some(out)
}

/// The Unix timestamp a capture field denotes once its local date-time is
/// taken at the given UTC offset: the rewritten text's timestamp minus the
/// offset, or nothing when the field cannot be read as a timestamp.
pub open spec fn spec_capture_unix(s: Seq<u8>, utc_offset: int) -> Option<int> {
    match normalize_capture(s) {
        Option::None => None,
        Option::Some(n) => match rfc3339_unix(n) {
            Option::None => None,
            Option::Some(t) => Some(t - utc_offset),
        },
    }
}

/// Parses a capture field and shifts it by the local UTC offset.
pub fn capture_unix_utc(s: &Vec<u8>, utc_offset: i32) -> (r: Option<i64>)
    ensures
        match spec_capture_unix(s@, utc_offset as int) {
            Option::Some(t) => r matches Some(x) && x == t,
            Option::None => r is None,
        },
{
    match normalize_capture_text(s) {
        None => None,
        Some(n) => match parse_rfc3339_unix(&n) {
            None => None,
            Some(t) => Some(t - (utc_offset as i64)),
        },
    }
}

} // verus!
