//! Outbound dispatcher: checks before a send, and how a send's outcome
//! reaches the shell.
//!
//! A message is only sent to a room identifier of the right shape; the
//! network call itself is the runtime's. A failed send surfaces to the
//! shell so the user can retry; it never brings the process down.

use vstd::prelude::*;

use crate::shell::ShellEvent;

verus! {

/// The shape of a room identifier: `!opaque:server`.
pub open spec fn is_room_id(s: Seq<char>) -> bool {
    &&& s.len() >= 1
    &&& s[0] == '!'
    &&& exists|i: int| 1 <= i < s.len() && s[i] == ':'
}

/// Whether `room_id` has the shape of a room identifier, so a send to it
/// can be attempted at all.
pub fn validate_room_id(room_id: &String) -> (ok: bool)
    ensures
        ok == is_room_id(room_id@),
{
    let st = room_id.as_str();
    let n = st.unicode_len();
    if n == 0 {
        return false;
    }
    if st.get_char(0) != '!' {
        return false;
    }
    let mut i: usize = 1;
    while i < n
        invariant
            st@ == room_id@,
            1 <= i <= n,
            n == room_id@.len(),
            room_id@[0] == '!',
            forall|j: int| 1 <= j < i ==> room_id@[j] != ':',
        decreases n - i,
    {
        if st.get_char(i) == ':' {
            return true;
        }
        i = i + 1;
    }
    false
}

/// The event the shell is handed when a send finished: nothing on success,
/// the failure marker otherwise.
pub fn send_outcome_event(ok: bool) -> (r: ShellEvent)
    ensures
        ok ==> r@ is Noop,
        !ok ==> r@ is SendFailed,
{
    if ok {
        ShellEvent::Noop
    } else {
        ShellEvent::SendFailed
    }
}

} // verus!
