use vstd::prelude::*;
use vstd::string::*;

verus! {

/// Who a message of a conversation is from.
#[derive(Clone, Copy, Debug, PartialEq, Eq, Structural)]
pub enum Role {
    /// The preamble that sets the assistant's manner.
    System,
    /// The person who asks.
    User,
    /// The model that answers.
    Assistant,
}

impl Role {
    /// The name of the role on the wire.
    pub open spec fn name_text(self) -> Seq<char> {
        match self {
            Role::System => "system"@,
            Role::User => "user"@,
            Role::Assistant => "assistant"@,
        }
    }

    /// The name of the role on the wire.
    pub fn name(&self) -> (name: &'static str)
        ensures
            name@ == self.name_text(),
    {
        match self {
            Role::System => "system",
            Role::User => "user",
            Role::Assistant => "assistant",
        }
    }
}

/// A message as contracts see it.
pub struct MessageView {
    pub role: Role,
    pub content: Seq<char>,
}

/// One message of a conversation.
#[derive(Debug, PartialEq, Eq)]
pub struct Message {
    pub role: Role,
    pub content: String,
}

impl View for Message {
    type V = MessageView;

    open spec fn view(&self) -> MessageView {
        MessageView { role: self.role, content: self.content@ }
    }
}

impl Clone for Message {
    fn clone(&self) -> (copy: Self)
        ensures
            copy@ == self@,
    {
        Message { role: self.role, content: self.content.clone() }
    }
}

impl Message {
    /// A message of `role` that says `content`.
    pub fn new(role: Role, content: &str) -> (message: Self)
        ensures
            message@ == (MessageView { role, content: content@ }),
    {
        Message { role, content: content.to_owned() }
    }

    /// The preamble message.
    pub fn system(content: &str) -> (message: Self)
        ensures
            message@ == (MessageView { role: Role::System, content: content@ }),
    {
        Message::new(Role::System, content)
    }

    /// A prompt of the user.
    pub fn user(content: &str) -> (message: Self)
        ensures
            message@ == (MessageView { role: Role::User, content: content@ }),
    {
        Message::new(Role::User, content)
    }

    /// A reply of the model.
    pub fn assistant(content: &str) -> (message: Self)
        ensures
            message@ == (MessageView { role: Role::Assistant, content: content@ }),
    {
        Message::new(Role::Assistant, content)
    }
}

/// The messages of `history` as contracts see them.
pub open spec fn history_view(history: Seq<Message>) -> Seq<MessageView> {
    history.map_values(|m: Message| m@)
}

/// Copies a history, message by message.
pub fn clone_history(history: &Vec<Message>) -> (copy: Vec<Message>)
    ensures
        history_view(copy@) == history_view(history@),
{
    let mut copy: Vec<Message> = Vec::new();
    let mut i: usize = 0;
    while i < history.len()
        invariant
            0 <= i <= history.len(),
            copy.len() == i,
            forall|j: int| 0 <= j < i ==> (#[trigger] copy@[j])@ == history@[j]@,
        decreases history.len() - i,
    {
        copy.push(history[i].clone());
        i = i + 1;
    }
    assert(history_view(copy@) =~= history_view(history@));
    copy
}

} // verus!
