use retro_chat::client::{handshake, Client, Submitted};
use retro_chat::message::Message;
use retro_chat::wire::encode;

fn local(empties_input: bool) -> Submitted {
    Submitted { frame: None, empties_input }
}

#[test]
fn client_starts_connected_and_empty() {
    let client = Client::new();
    assert_eq!(client.transcript(), "");
    assert!(client.is_running());
    assert!(client.is_connected());
}

#[test]
fn handshake_is_the_name_as_a_line() {
    assert_eq!(handshake("alice"), Some("alice\n".to_string()));
    assert_eq!(handshake(" bob "), Some(" bob \n".to_string()));
    assert_eq!(handshake(""), None);
    assert_eq!(handshake("  \t"), None);
}

#[test]
fn empty_input_does_nothing() {
    let mut client = Client::new();
    client.receive_line(&encode(&Message::user("bob", "hi", "t").unwrap()));
    let before = client.transcript().to_string();
    assert_eq!(client.send_message(""), local(false));
    assert_eq!(client.transcript(), before);
    assert!(client.is_running());
}

#[test]
fn chat_goes_out_as_one_line() {
    let mut client = Client::new();
    assert_eq!(
        client.send_message("hello"),
        Submitted { frame: Some("hello\n".to_string()), empties_input: true }
    );
    assert_eq!(client.transcript(), "");
    assert!(client.is_running());
}

#[test]
fn help_is_shown_and_not_sent() {
    let mut client = Client::new();
    assert_eq!(client.send_message("/help"), local(true));
    assert_eq!(
        client.transcript(),
        "\n=== Commands ===\n/help - Show this help\n/clear - Clear messages\n/quit - Exit chat\n\n"
    );
}

#[test]
fn clear_empties_the_transcript_and_is_not_sent() {
    let mut client = Client::new();
    client.receive_line(&encode(&Message::user("bob", "hi", "t").unwrap()));
    client.send_message("/help");
    assert!(!client.transcript().is_empty());
    assert_eq!(client.send_message("/clear"), local(true));
    assert_eq!(client.transcript(), "");
    assert!(client.is_running());
}

#[test]
fn quit_ends_the_session_and_is_not_sent() {
    let mut client = Client::new();
    assert_eq!(client.send_message("/quit"), local(false));
    assert!(!client.is_running());
}

#[test]
fn unknown_slash_text_is_chat() {
    let mut client = Client::new();
    for text in ["/me waves", "/", "/helps", "/HELP", "/quit now", " /clear", "//"] {
        assert_eq!(
            client.send_message(text),
            Submitted { frame: Some(format!("{}\n", text)), empties_input: true }
        );
    }
    assert_eq!(client.transcript(), "");
    assert!(client.is_running());
}

#[test]
fn arriving_message_is_shown() {
    let mut client = Client::new();
    assert!(client.receive_line(&encode(&Message::joined("bob", "12:00:00").unwrap())));
    assert!(client.receive_line(&encode(&Message::user("bob", "hi", "12:00:01").unwrap())));
    assert_eq!(
        client.transcript(),
        "\n[bob joined the chat]\n┌─[12:00:01]\n└─ bob : hi\n"
    );
}

#[test]
fn line_that_is_no_message_is_dropped() {
    let mut client = Client::new();
    assert!(!client.receive_line("bob"));
    assert!(!client.receive_line(""));
    assert!(!client.receive_line("{\"username\":\"bob\"}"));
    assert!(!client.receive_line("{not json"));
    assert_eq!(client.transcript(), "");
    assert!(client.is_running());
    assert!(client.receive_line(&encode(&Message::user("bob", "still here", "t").unwrap())));
}

#[test]
fn lost_connection_is_shown_once_and_commands_go_on() {
    let mut client = Client::new();
    client.connection_lost();
    assert!(!client.is_connected());
    assert!(client.is_running());
    assert_eq!(client.transcript(), "\n[connection lost]\n");
    client.connection_lost();
    assert_eq!(client.transcript(), "\n[connection lost]\n");
    assert_eq!(client.send_message("hello"), local(true));
    assert_eq!(client.send_message("/clear"), local(true));
    assert_eq!(client.transcript(), "");
    assert_eq!(client.send_message("/quit"), local(false));
    assert!(!client.is_running());
}

#[test]
fn escape_ends_the_session() {
    let mut client = Client::new();
    client.escape();
    assert!(!client.is_running());
    assert!(client.is_connected());
}

#[test]
fn ended_client_changes_no_more() {
    let mut client = Client::new();
    client.send_message("/help");
    let shown = client.transcript().to_string();
    client.escape();
    assert_eq!(client.send_message("hello"), local(false));
    assert_eq!(client.send_message("/clear"), local(false));
    assert!(!client.receive_line(&encode(&Message::user("bob", "hi", "t").unwrap())));
    client.connection_lost();
    assert_eq!(client.transcript(), shown);
}
