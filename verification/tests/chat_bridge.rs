use hypnos_core::bridge::{
    bot_command, bridge_messages, calc_requests, command_word_is_cut, first_char_is_cut, BotCommand,
};
use hypnos_core::chat::{handle_command, pipe_path, pipe_shell_command, replace_formatting, send_keys};
use hypnos_core::log::{first_malformed_line, update_messages};

const HEAD: &str = "[12:00:00] [Server thread/INFO]: ";

fn line(rest: &str) -> String {
    assert_eq!(HEAD.len(), 33);
    format!("{}{}", HEAD, rest)
}

#[test]
fn formatting_codes_are_removed() {
    assert_eq!(replace_formatting("\u{a7}aHello \u{a7}lWorld\u{a7}r".to_string()), "Hello World");
}

#[test]
fn formatting_plain_text_unchanged() {
    let s = "just some chat, no codes here".to_string();
    assert_eq!(replace_formatting(s.clone()), s);
}

#[test]
fn formatting_codes_joined_by_a_removal_are_removed_too() {
    // removing the inner code joins a new one, which goes as well
    assert_eq!(replace_formatting("\u{a7}\u{a7}00".to_string()), "");
    assert_eq!(replace_formatting("\u{a7}\u{a7}a1".to_string()), "");
    assert_eq!(replace_formatting("x\u{a7}\u{a7}\u{a7}r0l1y".to_string()), "x1y");
}

#[test]
fn cleaned_text_holds_no_code_and_is_settled() {
    let inputs = ["\u{a7}\u{a7}00", "a\u{a7}\u{a7}\u{a7}kkr b", "\u{a7}z\u{a7}\u{a7}", "plain"];
    let codes = "0123456789abcdefgklmnor";
    for input in inputs {
        let out = replace_formatting(input.to_string());
        assert!(out.chars().count() <= input.chars().count());
        for c in codes.chars() {
            assert!(!out.contains(&format!("\u{a7}{}", c)));
        }
        assert_eq!(replace_formatting(out.clone()), out);
    }
}

#[test]
fn unknown_code_letter_kept() {
    assert_eq!(replace_formatting("\u{a7}zx".to_string()), "\u{a7}zx");
}

#[test]
fn send_keys_drops_line_breaks() {
    assert_eq!(send_keys("say a\nb\n"), "say ab");
    assert!(!send_keys("\n\n\n").contains('\n'));
}

#[test]
fn whitelisted_command_mapping() {
    assert_eq!(handle_command("s", "kills"), "scoreboard objectives setdisplay sidebar kills");
    assert_eq!(handle_command("score", "deaths"), "scoreboard objectives setdisplay sidebar deaths");
    assert_eq!(handle_command("op", "me"), "list");
}

#[test]
fn pipe_file_names() {
    assert_eq!(pipe_path("survival"), "/tmp/survival-HypnosCore");
    assert_eq!(pipe_shell_command("survival"), "cat >/tmp/survival-HypnosCore");
}

#[test]
fn scan_relays_new_chat_lines_only() {
    let log = vec![
        line("<Old> already seen message"),
        line("<Steve> hello world"),
        line("Steve joined the game"),
        line("<Alex> \u{a7}ahi there"),
    ];
    assert_eq!(first_malformed_line(&log, 1, "!"), None);
    let r = update_messages("!", "survival", 1, &log);
    assert_eq!(r.relay, vec!["`[survival]<Steve> hello world`", "`[survival]<Alex> hi there`"]);
    assert_eq!(r.lines, 4);
    assert!(r.command.is_none());
    assert!(!r.repipe);
}

#[test]
fn scan_relays_the_first_appended_line() {
    // the counter is the number of lines already handled
    let mut log = vec![line("<Old> already seen message")];
    let handled = log.len();
    log.push(line("<Steve> just written"));
    let r = update_messages("!", "survival", handled, &log);
    assert_eq!(r.relay, vec!["`[survival]<Steve> just written`"]);
    assert_eq!(r.lines, 2);
}

#[test]
fn scan_counter_never_moves_back() {
    let log = vec![line("<Steve> hello world")];
    let r = update_messages("!", "survival", 5, &log);
    assert_eq!(r.lines, 5);
    assert!(r.relay.is_empty());
}

#[test]
fn scan_counts_short_lines() {
    let log = vec![String::new(), "[x] <a> short".to_string()];
    let r = update_messages("!", "s", 0, &log);
    assert_eq!(r.lines, 2);
    assert!(r.relay.is_empty());
}

#[test]
fn scan_stops_at_ingame_command() {
    let log = vec![
        String::new(),
        line("<Steve> before"),
        line("\u{a7}e<Steve\u{a7}r> !s kills"),
        line("<Steve> after"),
    ];
    assert_eq!(first_malformed_line(&log, 1, "!"), None);
    let r = update_messages("!", "survival", 1, &log);
    assert_eq!(r.relay, vec!["`[survival]<Steve> before`"]);
    assert_eq!(r.command.as_deref(), Some("scoreboard objectives setdisplay sidebar kills"));
    assert_eq!(r.lines, 3);
    assert!(!r.repipe);
}

#[test]
fn scan_refuses_unlisted_command() {
    let log = vec![String::new(), line("\u{a7}e<Steve\u{a7}r> !op Steve"), line("<Steve> after")];
    let r = update_messages("!", "survival", 1, &log);
    assert!(r.command.is_none());
    assert!(r.relay.is_empty());
    assert_eq!(r.lines, 2);
}

#[test]
fn scan_repipes_long_files_and_restarts_the_count() {
    let log: Vec<String> = (0..2001).map(|i| line(&format!("<Steve> message {}", i))).collect();
    let r = update_messages("!", "survival", 2000, &log);
    assert_eq!(r.relay, vec!["`[survival]<Steve> message 2000`"]);
    assert!(r.repipe);
    assert_eq!(r.lines, 0);
    let r = update_messages("!", "survival", 1999, &log);
    assert!(!r.repipe);
    assert_eq!(r.lines, 2001);
}

#[test]
fn malformed_lines_are_reported() {
    // byte 33 falls inside the two-byte character
    let cut = format!("[12:00:00] [Server thread/INFO]:\u{e9}<Steve> hi there friend");
    assert_eq!(first_malformed_line(&vec![String::new(), line("<a> fine line of chat"), cut], 0, "!"), Some(2));
    // a command without an argument
    let no_arg = line("\u{a7}e<Steve\u{a7}r> !sidebar");
    assert_eq!(first_malformed_line(&vec![String::new(), no_arg], 0, "!"), Some(1));
    // nothing after a command line is read
    let cmd = line("\u{a7}e<Steve\u{a7}r> !s kills");
    let cut = format!("[12:00:00] [Server thread/INFO]:\u{e9}<Steve> hi there friend");
    assert_eq!(first_malformed_line(&vec![String::new(), cmd, cut], 0, "!"), None);
}

#[test]
fn relayed_lines_are_not_echoed_back() {
    let servers = vec!["survival".to_string(), "creative".to_string()];
    let relayed = "`[survival]<Steve> hello world`";
    let out = bridge_messages(relayed, "bot", true, 7, 7, &servers, &vec![]);
    assert_eq!(out.len(), 1);
    assert_eq!(out[0].session, "creative");
}

#[test]
fn bridge_skips_the_tagged_session() {
    let servers = vec!["survival".to_string(), "creative".to_string()];
    let generics = vec!["terraria".to_string()];
    let out = bridge_messages("[survival]<Steve> hi", "Bob", false, 7, 7, &servers, &generics);
    assert_eq!(out.len(), 2);
    assert_eq!(out[0].session, "creative");
    assert_eq!(out[0].keys, "tellraw @a { \"text\": \"[Bob] [survival]<Steve> hi\" }");
    assert_eq!(out[1].session, "terraria");
    assert_eq!(out[1].keys, "say [Bob] [survival]<Steve> hi");
}

#[test]
fn bridge_strips_non_ascii_for_minecraft() {
    let servers = vec!["survival".to_string()];
    let out = bridge_messages("h\u{e9}llo\nthere", "Bob", true, 7, 7, &servers, &vec![]);
    assert_eq!(out.len(), 1);
    assert_eq!(out[0].keys, "tellraw @a { \"text\": \"hllothere\" }");
}

#[test]
fn bridge_ignores_other_channels() {
    let servers = vec!["survival".to_string()];
    assert!(bridge_messages("hello", "Bob", false, 1, 7, &servers, &vec![]).is_empty());
}

#[test]
fn calculations_requested() {
    assert_eq!(calc_requests("=4*4", 7, 7), vec!["4*4"]);
    assert!(calc_requests("=4*4", 1, 7).is_empty());
    assert!(calc_requests("=4", 7, 7).is_empty());
    assert_eq!(calc_requests("[survival] <Steve> =2+2", 7, 7), vec!["=2+2"]);
    assert!(first_char_is_cut("\u{e9}x"));
    assert!(!first_char_is_cut("\u{e9}"));
}

#[test]
fn bot_commands_dispatch() {
    assert!(matches!(bot_command("!ping", "!"), Some(BotCommand::Ping)));
    assert!(matches!(bot_command("!execute survival say hi", "!"), Some(BotCommand::Execute)));
    assert!(matches!(bot_command("!backup ls", "!"), Some(BotCommand::Backup)));
    assert!(matches!(bot_command("!dance", "!"), Some(BotCommand::Invalid)));
    assert!(bot_command("hello", "!").is_none());
    assert!(bot_command("!", "!").is_none());
    assert!(command_word_is_cut("\u{e9}!ping now", "!"));
    assert!(!command_word_is_cut("!ping now", "!"));
}
