//! Hidden origin vault. Typing the passphrase into the search bar reveals the
//! origin story. The passphrase is derived from `ORIGIN`, so removing the
//! author signature also disables the egg.

use vstd::prelude::*;

use crate::text::{chars_of, chars_eq, lower_text, split_whitespace, string_of, to_lowercase, trim, trim_str, words};

verus! {

/// Author signature and discoverable breadcrumb. The second word is the
/// passphrase that unlocks the origin vault (see `is_trigger`).
pub const ORIGIN: &'static str = "HMRDSmoke hooah";

/// The word after the name in `ORIGIN`, or nothing.
pub open spec fn passphrase_spec() -> Seq<char> {
    if words(ORIGIN@).len() > 1 {
        words(ORIGIN@)[1]
    } else {
        Seq::empty()
    }
}

/// The passphrase, derived from ORIGIN at runtime (the word after the name).
fn passphrase() -> (r: String)
    ensures
        r@ == passphrase_spec(),
{
    let cs = chars_of(ORIGIN);
    let ws = split_whitespace(cs.as_slice());
    if ws.len() > 1 {
        string_of(ws[1].as_slice())
    } else {
        String::new()
    }
}

/// The query, trimmed and lowercased, is non-empty and equals the
/// lowercased passphrase.
pub open spec fn trigger_spec(query: Seq<char>) -> bool {
    let q = lower_text(trim(query));
    q.len() > 0 && q == lower_text(passphrase_spec())
}

/// True if the typed query matches the origin-vault passphrase.
pub fn is_trigger(query: &str) -> (b: bool)
    ensures
        b == trigger_spec(query@),
{
    let t = trim_str(query);
    let q = to_lowercase(t.as_slice());
    let p = passphrase();
    let pc = chars_of(p.as_str());
    let pl = to_lowercase(pc.as_slice());
    q.len() > 0 && chars_eq(q.as_slice(), pl.as_slice())
}

} // verus!
