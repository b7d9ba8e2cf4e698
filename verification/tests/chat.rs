use feline::chat::{canned_reply, demo_messages, ChatAuthor, ChatMessage};

#[test]
fn constructors_set_author_and_text() {
    let a = ChatMessage::assistant("hello");
    assert_eq!(a.author, ChatAuthor::Assistant);
    assert_eq!(a.text, "hello");
    let u = ChatMessage::user("");
    assert_eq!(u.author, ChatAuthor::User);
    assert_eq!(u.text, "");
}

#[test]
fn demo_transcript() {
    let msgs = demo_messages();
    let authors: Vec<ChatAuthor> = msgs.iter().map(|m| m.author).collect();
    assert_eq!(
        authors,
        vec![
            ChatAuthor::Assistant,
            ChatAuthor::User,
            ChatAuthor::Assistant,
            ChatAuthor::Assistant,
            ChatAuthor::User
        ]
    );
    assert_eq!(msgs[1].text, "Nice. Can you keep the UI close to the sketch?");
    assert_eq!(msgs[4].text, "Perfect. Next step will be wiring the model backend.");
}

#[test]
fn canned_reply_quotes_input() {
    assert_eq!(
        canned_reply("ping"),
        "Stub reply received: \"ping\". Backend wiring can replace this later."
    );
    assert_eq!(
        canned_reply(""),
        "Stub reply received: \"\". Backend wiring can replace this later."
    );
}

#[test]
fn env_notices() {
    assert_eq!(feline::env::custom_env_notice("a/.env"), "Loading custom env file from 'a/.env'");
    assert_eq!(
        feline::env::env_error_notice("not found"),
        "An error occurred while loading the .env file (not found)"
    );
}
