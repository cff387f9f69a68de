use crate::message::{clone_history, history_view, Message, MessageView, Role};
use vstd::prelude::*;
use vstd::string::*;

verus! {

/// How many messages a conversation keeps unless told otherwise.
pub const MAX_HISTORY_MSGS: usize = 100;

/// The system message that opens every conversation unless told otherwise.
pub const PREAMBLE: &'static str = r#"
You are Message Mate, a professional and efficient AI writing assistant dedicated to helping users craft clear, precise, and effective communications.

• At the start of each new interaction, briefly and professionally introduce yourself, greet the user warmly, and prompt them to provide details about their message request.
• After your initial introduction, avoid repeating your name or full introduction unless necessary for clarity.
• Maintain a professional yet approachable tone, ensuring clarity and effectiveness in all communications.
• Provide concise, actionable guidance for writing emails, reports, business correspondence, formal letters, announcements, and social media posts.
• Tailor your responses based on the user's specified context, audience, tone, and style; politely request additional information if details are insufficient.
• Use clear, professional language suitable for diverse users; simplify complex information and offer relevant examples or templates when helpful.
• Be transparent if you're uncertain about any details, and suggest logical next steps or request further clarification.
• Conclude each interaction positively, reinforcing your availability for further assistance.
"#;

/// `history` cut down to its last `max` entries: what is dropped is dropped
/// from the front.
pub open spec fn trimmed<T>(history: Seq<T>, max: nat) -> Seq<T> {
    if history.len() > max {
        history.skip(history.len() - max)
    } else {
        history
    }
}

/// Drops the oldest messages of `history` until at most `max` are left.
pub fn trim_history(history: &mut Vec<Message>, max: usize)
    ensures
        final(history)@ == trimmed(old(history)@, max as nat),
{
    if history.len() > max {
        let drop = history.len() - max;
        let kept = history.split_off(drop);
        *history = kept;
        assert(history@ =~= trimmed(old(history)@, max as nat));
    }
}

/// A trimmed history is no longer than the limit, and it is the end of what
/// it was cut from: some messages from the front are gone, none from the back,
/// and none has moved.
pub proof fn lemma_trimmed_keeps_the_end<T>(history: Seq<T>, max: nat)
    ensures
        trimmed(history, max).len() <= max,
        trimmed(history, max).len() <= history.len(),
        trimmed(history, max).len() == history.len() <==> history.len() <= max,
        forall|i: int|
            0 <= i < trimmed(history, max).len() ==> #[trigger] trimmed(history, max)[i]
                == history[history.len() - trimmed(history, max).len() + i],
{
}

/// What a history is once its session has been opened: an empty one gets the
/// preamble as its first message, any other is left as it is.
pub open spec fn opened(history: Seq<MessageView>, preamble: Seq<char>) -> Seq<MessageView> {
    if history.len() == 0 {
        seq![MessageView { role: Role::System, content: preamble }]
    } else {
        history
    }
}

/// The history that `sessions` holds for `id`; empty where it holds none.
pub open spec fn history_of(
    sessions: Map<Seq<char>, Seq<MessageView>>,
    id: Seq<char>,
) -> Seq<MessageView> {
    if sessions.contains_key(id) {
        sessions[id]
    } else {
        Seq::empty()
    }
}

struct Session {
    id: String,
    history: Vec<Message>,
}

spec fn holds(sessions: Seq<Session>, id: Seq<char>) -> bool {
    exists|i: int| 0 <= i < sessions.len() && (#[trigger] sessions[i]).id@ == id
}

spec fn place(sessions: Seq<Session>, id: Seq<char>) -> int {
    choose|i: int| 0 <= i < sessions.len() && (#[trigger] sessions[i]).id@ == id
}

spec fn distinct(sessions: Seq<Session>) -> bool {
    forall|i: int, j: int|
        0 <= i < j < sessions.len() ==> (#[trigger] sessions[i]).id@ != (#[trigger] sessions[j]).id@
}

spec fn as_map(sessions: Seq<Session>) -> Map<Seq<char>, Seq<MessageView>> {
    Map::new(
        |id: Seq<char>| holds(sessions, id),
        |id: Seq<char>| history_view(sessions[place(sessions, id)].history@),
    )
}

proof fn lemma_place(sessions: Seq<Session>, i: int)
    requires
        distinct(sessions),
        0 <= i < sessions.len(),
    ensures
        holds(sessions, sessions[i].id@),
        place(sessions, sessions[i].id@) == i,
        as_map(sessions).contains_key(sessions[i].id@),
        as_map(sessions)[sessions[i].id@] == history_view(sessions[i].history@),
{
    let id = sessions[i].id@;
    let k = place(sessions, id);
    assert(0 <= k < sessions.len() && sessions[k].id@ == id);
    if k < i {
        assert(sessions[k].id@ != sessions[i].id@);
    } else if i < k {
        assert(sessions[i].id@ != sessions[k].id@);
    }
}

proof fn lemma_same_ids(before: Seq<Session>, after: Seq<Session>, id: Seq<char>)
    requires
        before.len() == after.len(),
        forall|j: int| 0 <= j < before.len() ==> (#[trigger] after[j]).id@ == before[j].id@,
    ensures
        holds(after, id) == holds(before, id),
{
    if holds(before, id) {
        let k = place(before, id);
        assert(after[k].id@ == id);
    }
    if holds(after, id) {
        let k = place(after, id);
        assert(after[k].id@ == before[k].id@);
        assert(before[k].id@ == id);
    }
}

proof fn lemma_history_changed(before: Seq<Session>, after: Seq<Session>, i: int)
    requires
        distinct(before),
        0 <= i < before.len(),
        before.len() == after.len(),
        forall|j: int| 0 <= j < before.len() ==> (#[trigger] after[j]).id@ == before[j].id@,
        forall|j: int|
            0 <= j < before.len() && j != i ==> (#[trigger] after[j]).history@ == before[j].history@,
    ensures
        distinct(after),
        as_map(after) == as_map(before).insert(before[i].id@, history_view(after[i].history@)),
{
    assert(distinct(after)) by {
        assert forall|a: int, b: int| 0 <= a < b < after.len() implies (#[trigger] after[a]).id@
            != (#[trigger] after[b]).id@ by {
            assert(before[a].id@ != before[b].id@);
        }
    }
    let goal = as_map(before).insert(before[i].id@, history_view(after[i].history@));
    assert forall|id: Seq<char>| as_map(after).contains_key(id) == goal.contains_key(id) by {
        lemma_same_ids(before, after, id);
        lemma_place(before, i);
    }
    assert forall|id: Seq<char>| as_map(after).contains_key(id) implies as_map(after)[id]
        == goal[id] by {
        let k = place(after, id);
        lemma_place(after, k);
        lemma_place(before, k);
        lemma_place(before, i);
        if k != i {
            assert(before[k].id@ != before[i].id@);
        }
    }
    assert(as_map(after) =~= goal);
}

proof fn lemma_added(before: Seq<Session>, session: Session)
    requires
        distinct(before),
        !holds(before, session.id@),
    ensures
        distinct(before.push(session)),
        as_map(before.push(session)) == as_map(before).insert(
            session.id@,
            history_view(session.history@),
        ),
{
    let after = before.push(session);
    assert(distinct(after)) by {
        assert forall|a: int, b: int| 0 <= a < b < after.len() implies (#[trigger] after[a]).id@
            != (#[trigger] after[b]).id@ by {
            assert(after[a] == before[a]);
            if b < before.len() {
                assert(after[b] == before[b]);
            } else {
                assert(before[a].id@ != session.id@);
            }
        }
    }
    let goal = as_map(before).insert(session.id@, history_view(session.history@));
    assert forall|id: Seq<char>| as_map(after).contains_key(id) == goal.contains_key(id) by {
        if holds(after, id) {
            let k = place(after, id);
            if k < before.len() {
                assert(before[k] == after[k]);
            }
        }
        if holds(before, id) {
            let k = place(before, id);
            assert(after[k] == before[k]);
        }
        if id == session.id@ {
            assert(after[before.len() as int].id@ == id);
        }
    }
    assert forall|id: Seq<char>| as_map(after).contains_key(id) implies as_map(after)[id]
        == goal[id] by {
        let k = place(after, id);
        lemma_place(after, k);
        if k < before.len() {
            assert(after[k] == before[k]);
            lemma_place(before, k);
        }
    }
    assert(as_map(after) =~= goal);
}

proof fn lemma_taken(before: Seq<Session>, i: int)
    requires
        distinct(before),
        0 <= i < before.len(),
    ensures
        distinct(before.update(i, before.last()).drop_last()),
        as_map(before.update(i, before.last()).drop_last()) == as_map(before).remove(before[i].id@),
{
    let after = before.update(i, before.last()).drop_last();
    let n = before.len() - 1;
    assert forall|a: int| 0 <= a < after.len() implies #[trigger] after[a] == before[if a == i {
        n
    } else {
        a
    }] by {}
    assert(distinct(after)) by {
        assert forall|a: int, b: int| 0 <= a < b < after.len() implies (#[trigger] after[a]).id@
            != (#[trigger] after[b]).id@ by {
            let a2 = if a == i {
                n
            } else {
                a
            };
            let b2 = if b == i {
                n
            } else {
                b
            };
            assert(after[a] == before[a2]);
            assert(after[b] == before[b2]);
            if a2 < b2 {
                assert(before[a2].id@ != before[b2].id@);
            } else {
                assert(before[b2].id@ != before[a2].id@);
            }
        }
    }
    let goal = as_map(before).remove(before[i].id@);
    assert forall|id: Seq<char>| as_map(after).contains_key(id) == goal.contains_key(id) by {
        if holds(after, id) {
            let k = place(after, id);
            let k2 = if k == i {
                n
            } else {
                k
            };
            assert(after[k] == before[k2]);
            assert(before[k2].id@ == id);
            if k2 < i {
                assert(before[k2].id@ != before[i].id@);
            } else {
                assert(before[i].id@ != before[k2].id@);
            }
        }
        if holds(before, id) && id != before[i].id@ {
            let k = place(before, id);
            if k == n {
                assert(after[i] == before[n]);
            } else {
                assert(after[k] == before[k]);
            }
        }
    }
    assert forall|id: Seq<char>| as_map(after).contains_key(id) implies as_map(after)[id]
        == goal[id] by {
        let k = place(after, id);
        let k2 = if k == i {
            n
        } else {
            k
        };
        lemma_place(after, k);
        assert(after[k] == before[k2]);
        lemma_place(before, k2);
    }
    assert(as_map(after) =~= goal);
}

fn find_in(sessions: &Vec<Session>, id: &String) -> (found: Option<usize>)
    ensures
        match found {
            Some(i) => i < sessions@.len() && sessions@[i as int].id@ == id@,
            None => !holds(sessions@, id@),
        },
{
    let mut i: usize = 0;
    while i < sessions.len()
        invariant
            0 <= i <= sessions@.len(),
            forall|j: int| 0 <= j < i ==> (#[trigger] sessions@[j]).id@ != id@,
        decreases sessions@.len() - i,
    {
        if sessions[i].id == *id {
            return Some(i);
        }
        i = i + 1;
    }
    None
}

fn slot_in(sessions: &mut Vec<Session>, key: String) -> (i: usize)
    requires
        distinct(old(sessions)@),
    ensures
        distinct(final(sessions)@),
        i < final(sessions)@.len(),
        final(sessions)@[i as int].id@ == key@,
        as_map(final(sessions)@) == as_map(old(sessions)@).insert(
            key@,
            history_of(as_map(old(sessions)@), key@),
        ),
        history_view(final(sessions)@[i as int].history@) == history_of(
            as_map(old(sessions)@),
            key@,
        ),
{
    match find_in(sessions, &key) {
        Some(i) => {
            proof {
                lemma_place(sessions@, i as int);
                assert(as_map(sessions@) =~= as_map(sessions@).insert(
                    key@,
                    history_of(as_map(sessions@), key@),
                ));
            }
            i
        },
        None => {
            let session = Session { id: key, history: Vec::new() };
            proof {
                assert(history_view(session.history@) =~= Seq::<MessageView>::empty());
                lemma_added(sessions@, session);
            }
            sessions.push(session);
            sessions.len() - 1
        },
    }
}

fn open_in(sessions: &mut Vec<Session>, key: String, system: Message)
    requires
        distinct(old(sessions)@),
        system@.role == Role::System,
    ensures
        distinct(final(sessions)@),
        as_map(final(sessions)@) == as_map(old(sessions)@).insert(
            key@,
            opened(history_of(as_map(old(sessions)@), key@), system@.content),
        ),
{
    let ghost id = key@;
    let i = slot_in(sessions, key);
    let ghost middle = sessions@;
    proof {
        lemma_place(middle, i as int);
    }
    if sessions[i].history.len() == 0 {
        sessions[i].history.push(system);
        proof {
            assert(history_view(sessions@[i as int].history@) =~= opened(
                history_view(middle[i as int].history@),
                system@.content,
            ));
            lemma_history_changed(middle, sessions@, i as int);
        }
    }
    assert(as_map(sessions@) =~= as_map(old(sessions)@).insert(
        id,
        opened(history_of(as_map(old(sessions)@), id), system@.content),
    ));
}

fn append_in(sessions: &mut Vec<Session>, key: String, message: Message, max: usize)
    requires
        distinct(old(sessions)@),
    ensures
        distinct(final(sessions)@),
        as_map(final(sessions)@) == as_map(old(sessions)@).insert(
            key@,
            trimmed(history_of(as_map(old(sessions)@), key@).push(message@), max as nat),
        ),
{
    let ghost id = key@;
    let i = slot_in(sessions, key);
    let ghost middle = sessions@;
    proof {
        lemma_place(middle, i as int);
    }
    sessions[i].history.push(message);
    trim_history(&mut sessions[i].history, max);
    proof {
        assert(history_view(sessions@[i as int].history@) =~= trimmed(
            history_view(middle[i as int].history@).push(message@),
            max as nat,
        ));
        lemma_history_changed(middle, sessions@, i as int);
    }
    assert(as_map(sessions@) =~= as_map(old(sessions)@).insert(
        id,
        trimmed(history_of(as_map(old(sessions)@), id).push(message@), max as nat),
    ));
}

fn trim_in(sessions: &mut Vec<Session>, key: String, max: usize)
    requires
        distinct(old(sessions)@),
    ensures
        distinct(final(sessions)@),
        as_map(final(sessions)@) == if as_map(old(sessions)@).contains_key(key@) {
            as_map(old(sessions)@).insert(
                key@,
                trimmed(as_map(old(sessions)@)[key@], max as nat),
            )
        } else {
            as_map(old(sessions)@)
        },
{
    match find_in(sessions, &key) {
        Some(i) => {
            let ghost before = sessions@;
            proof {
                lemma_place(before, i as int);
            }
            trim_history(&mut sessions[i].history, max);
            proof {
                assert(history_view(sessions@[i as int].history@) =~= trimmed(
                    history_view(before[i as int].history@),
                    max as nat,
                ));
                lemma_history_changed(before, sessions@, i as int);
            }
        },
        None => {},
    }
}

fn remove_in(sessions: &mut Vec<Session>, key: String) -> (removed: bool)
    requires
        distinct(old(sessions)@),
    ensures
        distinct(final(sessions)@),
        removed == as_map(old(sessions)@).contains_key(key@),
        as_map(final(sessions)@) == as_map(old(sessions)@).remove(key@),
{
    match find_in(sessions, &key) {
        Some(i) => {
            proof {
                lemma_place(sessions@, i as int);
                lemma_taken(sessions@, i as int);
            }
            let _ = sessions.swap_remove(i);
            true
        },
        None => {
            assert(as_map(sessions@) =~= as_map(sessions@).remove(key@));
            false
        },
    }
}

/// The conversations, one per session identifier, each an ordered log of
/// messages that is capped at `max_messages`.
pub struct SessionStore {
    sessions: Vec<Session>,
    max_messages: usize,
    preamble: String,
}

impl View for SessionStore {
    type V = Map<Seq<char>, Seq<MessageView>>;

    closed spec fn view(&self) -> Map<Seq<char>, Seq<MessageView>> {
        as_map(self.sessions@)
    }
}

impl SessionStore {
    #[verifier::type_invariant]
    spec fn inv(self) -> bool {
        distinct(self.sessions@)
    }

    /// The most messages a history keeps.
    pub closed spec fn max_messages(&self) -> nat {
        self.max_messages as nat
    }

    /// The text of the system message that opens every history.
    pub closed spec fn preamble(&self) -> Seq<char> {
        self.preamble@
    }

    /// The history kept for `id`; empty where none is kept.
    pub open spec fn history(&self, id: Seq<char>) -> Seq<MessageView> {
        history_of(self@, id)
    }

    /// A store without sessions, with the usual limit and the usual preamble.
    pub fn new() -> (store: Self)
        ensures
            store@ == Map::<Seq<char>, Seq<MessageView>>::empty(),
            store.max_messages() == MAX_HISTORY_MSGS,
            store.preamble() == PREAMBLE@,
    {
        SessionStore::with_limit(MAX_HISTORY_MSGS, PREAMBLE)
    }

    /// Whether no session has a history.
    pub fn is_empty(&self) -> (empty: bool)
        ensures
            empty == (self@ == Map::<Seq<char>, Seq<MessageView>>::empty()),
    {
        proof {
            use_type_invariant(self);
            if self.sessions@.len() > 0 {
                lemma_place(self.sessions@, 0);
            } else {
                assert(self@ =~= Map::<Seq<char>, Seq<MessageView>>::empty());
            }
        }
        self.sessions.len() == 0
    }

    /// A store without sessions that keeps `max_messages` messages per
    /// session and opens each with `preamble`.
    pub fn with_limit(max_messages: usize, preamble: &str) -> (store: Self)
        ensures
            store@ == Map::<Seq<char>, Seq<MessageView>>::empty(),
            store.max_messages() == max_messages,
            store.preamble() == preamble@,
    {
        let store = SessionStore {
            sessions: Vec::new(),
            max_messages,
            preamble: preamble.to_owned(),
        };
        assert(store@ =~= Map::<Seq<char>, Seq<MessageView>>::empty());
        store
    }

    fn find(&self, id: &String) -> (found: Option<usize>)
        ensures
            match found {
                Some(i) => i < self.sessions@.len() && self.sessions@[i as int].id@ == id@,
                None => !holds(self.sessions@, id@),
            },
    {
        find_in(&self.sessions, id)
    }

    /// Whether a history is kept for `id`.
    pub fn contains(&self, id: &str) -> (present: bool)
        ensures
            present == self@.contains_key(id@),
    {
        let key = id.to_owned();
        self.find(&key).is_some()
    }

    /// How many sessions have a history.
    pub fn session_count(&self) -> (count: usize)
        ensures
            count == self@.dom().len(),
            self@.dom().finite(),
    {
        proof {
            use_type_invariant(self);
            lemma_domain_size(self.sessions@);
        }
        self.sessions.len()
    }

    /// A copy of the history kept for `id`, oldest message first; empty where
    /// none is kept.
    pub fn snapshot(&self, id: &str) -> (copy: Vec<Message>)
        ensures
            history_view(copy@) == self.history(id@),
    {
        proof {
            use_type_invariant(self);
        }
        let key = id.to_owned();
        match self.find(&key) {
            Some(i) => {
                proof {
                    lemma_place(self.sessions@, i as int);
                }
                clone_history(&self.sessions[i].history)
            },
            None => {
                let copy: Vec<Message> = Vec::new();
                assert(history_view(copy@) =~= Seq::<MessageView>::empty());
                copy
            },
        }
    }

    /// Opens the session `id`: where it has no history yet, or an empty one,
    /// the history becomes the preamble alone. A history with messages is left
    /// as it is.
    pub fn get_or_create(&mut self, id: &str)
        ensures
            final(self)@ == old(self)@.insert(
                id@,
                opened(old(self).history(id@), old(self).preamble()),
            ),
            final(self).max_messages() == old(self).max_messages(),
            final(self).preamble() == old(self).preamble(),
    {
        proof {
            use_type_invariant(&*self);
        }
        let system = Message::system(self.preamble.as_str());
        let mut sessions: Vec<Session> = Vec::new();
        core::mem::swap(&mut self.sessions, &mut sessions);
        open_in(&mut sessions, id.to_owned(), system);
        core::mem::swap(&mut self.sessions, &mut sessions);
    }

    /// Adds `message` at the end of the history of `id`, which is begun where
    /// there was none, and then drops the oldest messages until the limit holds.
    pub fn append(&mut self, id: &str, message: Message)
        ensures
            final(self)@ == old(self)@.insert(
                id@,
                trimmed(old(self).history(id@).push(message@), old(self).max_messages()),
            ),
            final(self).history(id@).len() <= old(self).max_messages(),
            final(self).max_messages() == old(self).max_messages(),
            final(self).preamble() == old(self).preamble(),
    {
        proof {
            use_type_invariant(&*self);
        }
        let max = self.max_messages;
        let mut sessions: Vec<Session> = Vec::new();
        core::mem::swap(&mut self.sessions, &mut sessions);
        append_in(&mut sessions, id.to_owned(), message, max);
        core::mem::swap(&mut self.sessions, &mut sessions);
    }

    /// Drops the oldest messages of the history of `id` until the limit holds.
    /// A session without history stays without.
    pub fn trim(&mut self, id: &str)
        ensures
            final(self)@ == if old(self)@.contains_key(id@) {
                old(self)@.insert(id@, trimmed(old(self)@[id@], old(self).max_messages()))
            } else {
                old(self)@
            },
            final(self).max_messages() == old(self).max_messages(),
            final(self).preamble() == old(self).preamble(),
    {
        proof {
            use_type_invariant(&*self);
        }
        let max = self.max_messages;
        let mut sessions: Vec<Session> = Vec::new();
        core::mem::swap(&mut self.sessions, &mut sessions);
        trim_in(&mut sessions, id.to_owned(), max);
        core::mem::swap(&mut self.sessions, &mut sessions);
    }

    /// Forgets the history of `id`. Returns whether there was one.
    pub fn remove(&mut self, id: &str) -> (removed: bool)
        ensures
            removed == old(self)@.contains_key(id@),
            final(self)@ == old(self)@.remove(id@),
            final(self).max_messages() == old(self).max_messages(),
            final(self).preamble() == old(self).preamble(),
    {
        proof {
            use_type_invariant(&*self);
        }
        let mut sessions: Vec<Session> = Vec::new();
        core::mem::swap(&mut self.sessions, &mut sessions);
        let removed = remove_in(&mut sessions, id.to_owned());
        core::mem::swap(&mut self.sessions, &mut sessions);
        removed
    }
}

proof fn lemma_domain_size(sessions: Seq<Session>)
    requires
        distinct(sessions),
    ensures
        as_map(sessions).dom().finite(),
        as_map(sessions).dom().len() == sessions.len(),
    decreases sessions.len(),
{
    if sessions.len() == 0 {
        assert(as_map(sessions).dom() =~= Set::<Seq<char>>::empty());
    } else {
        let init = sessions.drop_last();
        let last = sessions.last();
        assert(distinct(init)) by {
            assert forall|i: int, j: int| 0 <= i < j < init.len() implies (#[trigger] init[i]).id@
                != (#[trigger] init[j]).id@ by {
                assert(init[i] == sessions[i]);
                assert(init[j] == sessions[j]);
            }
        }
        lemma_domain_size(init);
        assert(!holds(init, last.id@)) by {
            if holds(init, last.id@) {
                let k = place(init, last.id@);
                assert(init[k] == sessions[k]);
                assert(sessions[k].id@ != sessions[sessions.len() - 1].id@);
            }
        }
        assert(as_map(sessions).dom() =~= as_map(init).dom().insert(last.id@)) by {
            assert forall|id: Seq<char>| holds(sessions, id) <==> (holds(init, id) || id
                == last.id@) by {
                if holds(sessions, id) {
                    let k = place(sessions, id);
                    if k < init.len() {
                        assert(init[k] == sessions[k]);
                    }
                }
                if holds(init, id) {
                    let k = place(init, id);
                    assert(init[k] == sessions[k]);
                }
                if id == last.id@ {
                    assert(sessions[sessions.len() - 1].id@ == id);
                }
            }
        }
    }
}

} // verus!
