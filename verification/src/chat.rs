//! The chat transcript model shown by the overlay.

use vstd::prelude::*;

verus! {

broadcast use vstd::string::group_string_axioms;

/// Who wrote a chat message.
#[derive(Clone, Copy, Debug, PartialEq, Eq, Structural)]
pub enum ChatAuthor {
    Assistant,
    User,
}

/// One message of the transcript.
#[derive(Debug)]
pub struct ChatMessage {
    pub author: ChatAuthor,
    pub text: String,
}

impl ChatMessage {
    /// A message written by the assistant.
    pub fn assistant(text: &str) -> (msg: ChatMessage)
        ensures
            msg.author == ChatAuthor::Assistant,
            msg.text@ == text@,
    {
        ChatMessage { author: ChatAuthor::Assistant, text: text.to_string() }
    }

    /// A message written by the user.
    pub fn user(text: &str) -> (msg: ChatMessage)
        ensures
            msg.author == ChatAuthor::User,
            msg.text@ == text@,
    {
        ChatMessage { author: ChatAuthor::User, text: text.to_string() }
    }
}

/// The transcript that the overlay shows before any chat backend is wired:
/// each entry is an author and the message text.
pub open spec fn demo_transcript() -> Seq<(ChatAuthor, Seq<char>)> {
    seq![
        (ChatAuthor::Assistant, "Hey, I am Feline. I can sit over your desktop and keep the conversation compact."@),
        (ChatAuthor::User, "Nice. Can you keep the UI close to the sketch?"@),
        (ChatAuthor::Assistant, "Yes. I am using a tall glass panel, a simple title bar, alternating chat bubbles, and a pinned composer."@),
        (ChatAuthor::Assistant, "The messages are hardcoded for now, but the render path is ready for real chat state."@),
        (ChatAuthor::User, "Perfect. Next step will be wiring the model backend."@),
    ]
}

/// The author and text of each message, in order.
pub open spec fn transcript_of(msgs: Seq<ChatMessage>) -> Seq<(ChatAuthor, Seq<char>)> {
    msgs.map_values(|m: ChatMessage| (m.author, m.text@))
}

/// The hardcoded demo conversation.
pub fn demo_messages() -> (msgs: Vec<ChatMessage>)
    ensures
        transcript_of(msgs@) == demo_transcript(),
{
    let mut msgs: Vec<ChatMessage> = Vec::new();
    msgs.push(ChatMessage::assistant(
        "Hey, I am Feline. I can sit over your desktop and keep the conversation compact.",
    ));
    msgs.push(ChatMessage::user("Nice. Can you keep the UI close to the sketch?"));
    msgs.push(ChatMessage::assistant(
        "Yes. I am using a tall glass panel, a simple title bar, alternating chat bubbles, and a pinned composer.",
    ));
    msgs.push(ChatMessage::assistant(
        "The messages are hardcoded for now, but the render path is ready for real chat state.",
    ));
    msgs.push(ChatMessage::user("Perfect. Next step will be wiring the model backend."));
    assert(transcript_of(msgs@) =~= demo_transcript());
    msgs
}

/// The text of the placeholder reply to `input`.
pub open spec fn canned_reply_text(input: Seq<char>) -> Seq<char> {
    "Stub reply received: \""@ + input + "\". Backend wiring can replace this later."@
}

/// A placeholder reply that quotes the user's input.
pub fn canned_reply(input: &str) -> (reply: String)
    ensures
        reply@ == canned_reply_text(input@),
{
    let mut reply = String::from_str("Stub reply received: \"");
    reply.append(input);
    reply.append("\". Backend wiring can replace this later.");
    reply
}

} // verus!
