//! Conversations with a secondary model, turn by turn.

use vstd::prelude::*;

verus! {

/// Who speaks in a message.
#[derive(Debug, Clone, Copy, PartialEq, Eq, Structural)]
pub enum Role {
    System,
    User,
    Assistant,
}

/// One message of a conversation.
#[derive(Debug)]
pub struct Message {
    pub role: Role,
    pub content: String,
}

/// One message, with its text as a sequence of characters.
pub struct MessageView {
    pub role: Role,
    pub content: Seq<char>,
}

impl View for Message {
    type V = MessageView;

    open spec fn view(&self) -> MessageView {
        MessageView { role: self.role, content: self.content@ }
    }
}

/// What a list of messages says.
pub open spec fn message_views(messages: Seq<Message>) -> Seq<MessageView> {
    messages.map_values(|message: Message| message@)
}

/// The state of a conversation.
pub struct ThreadState {
    pub messages: Vec<Message>,
    /// How many replies it has had.
    pub call_count: u32,
}

/// The state of a conversation, with its messages as a sequence.
pub struct ThreadView {
    pub messages: Seq<MessageView>,
    pub call_count: nat,
}

impl View for ThreadState {
    type V = ThreadView;

    open spec fn view(&self) -> ThreadView {
        ThreadView { messages: message_views(self.messages@), call_count: self.call_count as nat }
    }
}

/// A conversation that has not begun.
pub open spec fn new_thread() -> ThreadView {
    ThreadView { messages: Seq::empty(), call_count: 0 }
}

/// A conversation after the user has spoken. Where nothing was said before, the context, if there
/// is one, goes ahead as a system message; later on it is left out.
pub open spec fn with_prompt(
    thread: ThreadView,
    context: Option<Seq<char>>,
    prompt: Seq<char>,
) -> ThreadView {
    let said = if thread.messages.len() == 0 && context is Some {
        seq![MessageView { role: Role::System, content: context->0 }]
    } else {
        thread.messages
    };
    ThreadView { messages: said.push(MessageView { role: Role::User, content: prompt }), ..thread }
}

/// A conversation after the model has replied.
pub open spec fn with_reply(thread: ThreadView, content: Seq<char>) -> ThreadView {
    ThreadView {
        messages: thread.messages.push(MessageView { role: Role::Assistant, content }),
        call_count: thread.call_count + 1,
    }
}

impl Default for ThreadState {
    fn default() -> (thread: Self)
        ensures
            thread@ == new_thread(),
    {
        let thread = ThreadState { messages: Vec::new(), call_count: 0 };
        assert(thread@.messages =~= Seq::empty());
        thread
    }
}

impl ThreadState {
    /// Adds what the user says, after the context where the conversation begins.
    pub fn add_prompt(&mut self, context: &Option<String>, prompt: &str)
        ensures
            final(self)@ == with_prompt(old(self)@, crate::config::opt_text(*context), prompt@),
    {
        let ghost before = self@;
        if self.messages.len() == 0 {
            if let Some(context) = context {
                self.messages.push(Message { role: Role::System, content: context.clone() });
            }
        }
        self.messages.push(Message { role: Role::User, content: prompt.to_owned() });
        assert(self@.messages =~= with_prompt(
            before,
            crate::config::opt_text(*context),
            prompt@,
        ).messages);
    }

    /// Adds the reply of the model.
    pub fn add_reply(&mut self, content: &str)
        requires
            old(self)@.call_count < u32::MAX,
        ensures
            final(self)@ == with_reply(old(self)@, content@),
    {
        let ghost before = self@;
        self.messages.push(Message { role: Role::Assistant, content: content.to_owned() });
        self.call_count = self.call_count + 1;
        assert(self@.messages =~= with_reply(before, content@).messages);
    }

    /// A copy of the messages.
    pub fn transcript(&self) -> (messages: Vec<Message>)
        ensures
            message_views(messages@) == self@.messages,
    {
        let mut messages: Vec<Message> = Vec::new();
        let mut i: usize = 0;
        while i < self.messages.len()
            invariant
                i <= self.messages@.len(),
                messages@.len() == i,
                forall|j: int| 0 <= j < i ==> (#[trigger] messages@[j])@ == self.messages@[j]@,
            decreases self.messages@.len() - i,
        {
            let message = &self.messages[i];
            messages.push(Message { role: message.role, content: message.content.clone() });
            i = i + 1;
        }
        assert(message_views(messages@) =~= self@.messages);
        messages
    }
}

// ---- laws ----

/// A conversation only grows: what was said before a turn stands unchanged at its beginning after
/// it.
pub proof fn conversations_only_grow(
    thread: ThreadView,
    context: Option<Seq<char>>,
    prompt: Seq<char>,
    reply: Seq<char>,
)
    ensures
        thread.messages.is_prefix_of(with_prompt(thread, context, prompt).messages),
        thread.messages.is_prefix_of(with_reply(thread, reply).messages),
        with_prompt(thread, context, prompt).messages.last() == (MessageView {
            role: Role::User,
            content: prompt,
        }),
        with_reply(thread, reply).messages.last() == (MessageView {
            role: Role::Assistant,
            content: reply,
        }),
        with_prompt(thread, context, prompt).call_count == thread.call_count,
        with_reply(thread, reply).call_count == thread.call_count + 1,
{
}

/// A system message stands only at the very beginning of a conversation, and every conversation
/// keeps it so, turn by turn.
pub open spec fn system_first(thread: ThreadView) -> bool {
    forall|i: int|
        1 <= i < thread.messages.len() ==> (#[trigger] thread.messages[i]).role != Role::System
}

/// Only the context of the turn that begins a conversation becomes a system message, and it stands
/// at the beginning.
pub proof fn context_counts_only_at_the_beginning(
    thread: ThreadView,
    context: Option<Seq<char>>,
    prompt: Seq<char>,
    reply: Seq<char>,
)
    ensures
        system_first(new_thread()),
        system_first(thread) ==> system_first(with_prompt(thread, context, prompt)),
        system_first(thread) ==> system_first(with_reply(thread, reply)),
        thread.messages.len() > 0 ==> with_prompt(thread, context, prompt) == with_prompt(
            thread,
            None,
            prompt,
        ),
{
}

/// How many of the messages are replies of the model.
pub open spec fn replies_in(messages: Seq<MessageView>) -> nat {
    messages.filter(|message: MessageView| message.role == Role::Assistant).len()
}

/// A system message stands only at the beginning, and each reply was counted.
pub open spec fn sound(thread: ThreadView) -> bool {
    system_first(thread) && thread.call_count == replies_in(thread.messages)
}

/// A conversation begins sound, and each turn keeps it so.
pub proof fn lemma_turns_are_sound(
    thread: ThreadView,
    context: Option<Seq<char>>,
    prompt: Seq<char>,
    reply: Seq<char>,
)
    ensures
        sound(new_thread()),
        sound(thread) ==> sound(with_prompt(thread, context, prompt)),
        sound(thread) ==> sound(with_reply(thread, reply)),
{
    let is_reply = |message: MessageView| message.role == Role::Assistant;
    reveal(Seq::filter);
    assert(new_thread().messages.filter(is_reply).len() == 0);
    let asked = with_prompt(thread, context, prompt).messages;
    let said = asked.drop_last();
    assert(asked.filter(is_reply) =~= said.filter(is_reply));
    if thread.messages.len() == 0 && context is Some {
        assert(said.drop_last() =~= thread.messages);
        assert(said.filter(is_reply) =~= said.drop_last().filter(is_reply));
    } else {
        assert(said =~= thread.messages);
    }
    let answered = with_reply(thread, reply).messages;
    assert(answered.drop_last() =~= thread.messages);
    assert(answered.filter(is_reply) =~= thread.messages.filter(is_reply).push(answered.last()));
}

/// A message is seen with the role and the whole text that it has.
pub proof fn messages_are_seen_whole(messages: Seq<Message>, i: int)
    requires
        0 <= i < messages.len(),
    ensures
        message_views(messages).len() == messages.len(),
        message_views(messages)[i].role == messages[i].role,
        message_views(messages)[i].content == messages[i].content@,
{
}

/// A conversation is seen with all its messages, in their order, and with its count.
pub proof fn conversations_are_seen_whole(thread: ThreadState)
    ensures
        thread@.messages.len() == thread.messages@.len(),
        forall|i: int|
            0 <= i < thread.messages@.len() ==> (#[trigger] thread@.messages[i]).role
                == thread.messages@[i].role && thread@.messages[i].content
                == thread.messages@[i].content@,
        thread@.call_count == thread.call_count,
        new_thread().messages.len() == 0,
        new_thread().call_count == 0,
{
}

/// The turn that begins a conversation says two things, the context and then the prompt, whatever
/// they hold; without a context it says the prompt alone.
pub proof fn first_turns_say_context_and_prompt(
    thread: ThreadView,
    context: Seq<char>,
    prompt: Seq<char>,
)
    requires
        thread.messages.len() == 0,
    ensures
        with_prompt(thread, Some(context), prompt).messages == seq![
            MessageView { role: Role::System, content: context },
            MessageView { role: Role::User, content: prompt },
        ],
        with_prompt(thread, None, prompt).messages == seq![
            MessageView { role: Role::User, content: prompt },
        ],
        with_prompt(thread, Some(context), prompt).call_count == thread.call_count,
        with_prompt(thread, None, prompt).call_count == thread.call_count,
{
    assert(with_prompt(thread, Some(context), prompt).messages =~= seq![
        MessageView { role: Role::System, content: context },
        MessageView { role: Role::User, content: prompt },
    ]);
    assert(with_prompt(thread, None, prompt).messages =~= seq![
        MessageView { role: Role::User, content: prompt },
    ]);
}

/// Every later turn adds one message, the prompt, and no context; and a reply adds one message, the
/// reply. What was said before stands as it did.
pub proof fn later_turns_add_one_message(
    thread: ThreadView,
    context: Option<Seq<char>>,
    text: Seq<char>,
    i: int,
)
    ensures
        thread.messages.len() > 0 ==> {
            let asked = with_prompt(thread, context, text);
            &&& asked.messages.len() == thread.messages.len() + 1
            &&& asked.messages.last().role == Role::User
            &&& asked.messages.last().content == text
            &&& 0 <= i < thread.messages.len() ==> asked.messages[i] == thread.messages[i]
            &&& asked.call_count == thread.call_count
        },
        ({
            let answered = with_reply(thread, text);
            &&& answered.messages.len() == thread.messages.len() + 1
            &&& answered.messages.last().role == Role::Assistant
            &&& answered.messages.last().content == text
            &&& 0 <= i < thread.messages.len() ==> answered.messages[i] == thread.messages[i]
            &&& answered.call_count == thread.call_count + 1
        }),
{
}

} // verus!
