use crate::history::SessionStore;
use crate::message::MessageView;
use crate::supervisor::LlmServerState;
use vstd::prelude::*;

verus! {

/// Whether the server has no session left to serve once `session` is gone.
pub open spec fn last_session(sessions: Map<Seq<char>, Seq<MessageView>>, session: Seq<char>) -> bool {
    sessions.remove(session) == Map::<Seq<char>, Seq<MessageView>>::empty()
}

/// Cleans up after a session that has ended: its history is forgotten, and
/// where no other session has one the server process is given up. Returns the
/// handle of the process for the caller to kill, if it is given up.
pub fn end_session<H>(store: &mut SessionStore, state: &mut LlmServerState<H>, session: &str) -> (child:
    Option<H>)
    ensures
        final(store)@ == old(store)@.remove(session@),
        final(store).max_messages() == old(store).max_messages(),
        final(store).preamble() == old(store).preamble(),
        final(state)@ == if last_session(old(store)@, session@) {
            old(state)@.terminated()
        } else {
            old(state)@
        },
        child == if last_session(old(store)@, session@) {
            old(state)@.child
        } else {
            None
        },
{
    let _ = store.remove(session);
    if store.is_empty() {
        state.terminate()
    } else {
        None
    }
}

} // verus!
