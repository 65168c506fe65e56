//! The message envelope and the small helpers around it: display
//! lines, persisted records, quit detection, paths and input parsing.
use rust_15_async_chat::async_chat_msg::{db_key, AsyncChatMsg, AsyncChatMsgDB};
use rust_15_async_chat::client::{
    is_error_reply, parse_command, parse_login_line, ClientCommand,
};
use rust_15_async_chat::get_file_name;
use rust_15_async_chat::strings::{str_eq, str_starts_with, str_trim, u64_to_dec};

#[test]
fn create_text_carries_its_fields() {
    let msg = AsyncChatMsg::create_text("martin".into(), "hello".into());
    assert_eq!(msg.sender(), "martin");
    assert_eq!(msg.get_text(), "hello");
}

#[test]
fn get_text_picks_the_telling_field() {
    assert_eq!(AsyncChatMsg::Text("a".into(), "body".into()).get_text(), "body");
    assert_eq!(
        AsyncChatMsg::File("a".into(), "f.txt".into(), vec![1]).get_text(),
        "f.txt"
    );
    assert_eq!(
        AsyncChatMsg::Image("a".into(), "p.png".into(), vec![1]).get_text(),
        "p.png"
    );
    assert_eq!(AsyncChatMsg::Login("user".into(), "pw".into()).get_text(), "user");
}

#[test]
fn only_the_quit_text_is_a_quit() {
    assert!(AsyncChatMsg::Text("a".into(), ".quit".into()).is_quit());
    assert!(!AsyncChatMsg::Text("a".into(), "quit".into()).is_quit());
    assert!(!AsyncChatMsg::File("a".into(), ".quit".into(), vec![]).is_quit());
    assert!(!AsyncChatMsg::Login(".quit".into(), ".quit".into()).is_quit());
}

#[test]
fn persisted_records_drop_payloads_and_logins() {
    match AsyncChatMsg::Text("a".into(), "hi".into()).to_db_record() {
        Some(AsyncChatMsgDB::Text(from, body)) => {
            assert_eq!(from, "a");
            assert_eq!(body, "hi");
        }
        _ => panic!("expected a text record"),
    }
    match AsyncChatMsg::File("a".into(), "f.txt".into(), vec![1, 2, 3]).to_db_record() {
        Some(AsyncChatMsgDB::File(from, name)) => {
            assert_eq!(from, "a");
            assert_eq!(name, "f.txt");
        }
        _ => panic!("expected a file record"),
    }
    assert!(AsyncChatMsg::Login("u".into(), "pw".into()).to_db_record().is_none());
}

#[test]
fn records_are_keyed_by_timestamp_and_sender() {
    let rec = AsyncChatMsgDB::Text("martin".into(), "hello".into());
    assert_eq!(rec.from_name(), "martin");
    assert_eq!(db_key("2024-01-02 03:04:05", rec.from_name()), "2024-01-02 03:04:05|martin");
}

#[test]
fn payloads_are_stored_under_their_folder() {
    let file = AsyncChatMsg::File("a".into(), "f.txt".into(), vec![1]);
    assert_eq!(file.store_folder(), Some("files"));
    let image = AsyncChatMsg::Image("a".into(), "p.png".into(), vec![1]);
    assert_eq!(image.store_folder(), Some("images"));
    assert_eq!(AsyncChatMsg::Text("a".into(), "hi".into()).store_folder(), None);
    assert_eq!(AsyncChatMsg::Login("u".into(), "pw".into()).store_folder(), None);
}

#[test]
fn display_lines_match_the_console_format() {
    assert_eq!(
        AsyncChatMsg::Text("martin".into(), "hello".into()).display_string(),
        "martin: hello"
    );
    assert_eq!(
        AsyncChatMsg::File("martin".into(), "a.txt".into(), vec![1, 2, 3]).display_string(),
        "martin: incomming file a.txt (3B)"
    );
    assert_eq!(
        AsyncChatMsg::Image("eva".into(), "p.png".into(), vec![0; 1024]).display_string(),
        "eva: incomming image p.png (1024B)"
    );
    let login_line = AsyncChatMsg::Login("u".into(), "pw".into()).display_string();
    assert!(login_line.starts_with("u: "));
    assert!(!login_line.contains("pw"));
}

#[test]
fn decimal_rendering_is_exact() {
    assert_eq!(u64_to_dec(0), "0");
    assert_eq!(u64_to_dec(7), "7");
    assert_eq!(u64_to_dec(10), "10");
    assert_eq!(u64_to_dec(90210), "90210");
    assert_eq!(u64_to_dec(u64::MAX), "18446744073709551615");
}

#[test]
fn string_helpers_compare_and_trim() {
    assert!(str_eq("hello", "hello"));
    assert!(!str_eq("hello", "hellO"));
    assert!(!str_eq("hello", "hell"));
    assert!(str_starts_with("ERROR: no", "ERROR"));
    assert!(!str_starts_with("ERR", "ERROR"));
    assert_eq!(str_trim("  a b\t\n"), "a b");
    assert_eq!(str_trim("ab"), "ab");
    assert_eq!(str_trim(" \t "), "");
}

#[test]
fn file_names_come_from_the_last_component() {
    assert_eq!(get_file_name("dir/file.txt"), "file.txt");
    assert_eq!(get_file_name(" /a/b.zip "), "b.zip");
    assert_eq!(get_file_name("name"), "name");
    assert_eq!(get_file_name("a/b/"), "b");
}

#[test]
fn login_lines_split_at_the_first_space() {
    match parse_login_line("martin password") {
        Some((login, password)) => {
            assert_eq!(login, "martin");
            assert_eq!(password, "password");
        }
        None => panic!("expected a split"),
    }
    assert!(parse_login_line("martinpassword").is_none());
    assert!(parse_login_line(" martin password").is_none());
    assert!(parse_login_line("martin ").is_none());
}

#[test]
fn input_lines_become_their_commands() {
    match parse_command(".image /tmp/p.png") {
        ClientCommand::SendImage(path) => assert_eq!(path, "/tmp/p.png"),
        _ => panic!("expected an image command"),
    }
    match parse_command(".file notes.txt") {
        ClientCommand::SendFile(path) => assert_eq!(path, "notes.txt"),
        _ => panic!("expected a file command"),
    }
    match parse_command("hello there") {
        ClientCommand::SendText(line) => assert_eq!(line, "hello there"),
        _ => panic!("expected a text command"),
    }
    match parse_command(".quit") {
        ClientCommand::SendText(line) => assert_eq!(line, ".quit"),
        _ => panic!("expected a text command"),
    }
}

#[test]
fn error_replies_are_told_from_welcomes() {
    assert!(is_error_reply(&AsyncChatMsg::Text(
        "Server".into(),
        "ERROR: Incorrect password for login martin".into()
    )));
    assert!(!is_error_reply(&AsyncChatMsg::Text(
        "Server".into(),
        "martin, welcome on the AsyncChatServer!".into()
    )));
    assert!(!is_error_reply(&AsyncChatMsg::File(
        "Server".into(),
        "ERROR".into(),
        vec![]
    )));
}

#[test]
fn cloned_messages_keep_their_fields() {
    let msg = AsyncChatMsg::File("martin".into(), "a.bin".into(), vec![9, 8, 7]);
    match msg.clone() {
        AsyncChatMsg::File(from, name, data) => {
            assert_eq!(from, "martin");
            assert_eq!(name, "a.bin");
            assert_eq!(data, vec![9, 8, 7]);
        }
        _ => panic!("wrong variant"),
    }
}
