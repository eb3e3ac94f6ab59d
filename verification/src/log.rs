//! The chat bridge from a game server to Discord: which new lines of a
//! server's pipe file are relayed, which are in-game commands, and where the
//! line counter ends up.
use vstd::prelude::*;
use crate::text::{
    char_index_of_byte, char_index_of_byte_exec, chars_eq, chars_of, find_char, find_char_exec,
    find_exec, find_first, lemma_find_from, opt_int, string_of, append_chars, append_str,
    utf8_width, utf8_width_exec, copy_range, lemma_char_index_bounds,
};
use crate::chat::{
    ingame_command, section_sign, clean_formatting, clean_formatting_exec, tmux_keys,
    handle_command, send_keys,
};

verus! {

// ---------------------------------------------------------------------------
// Specification of one line
// ---------------------------------------------------------------------------

/// Lines shorter than this many characters are never relayed.
pub open spec fn min_line_chars() -> int {
    35
}

/// The byte offset at which the chat part of a log line starts (after the
/// server's timestamp and thread tag).
pub open spec fn chat_byte_offset() -> int {
    33
}

/// The character index at which the chat part of `line` starts, if that byte
/// offset falls on a character boundary.
pub open spec fn chat_start(line: Seq<char>) -> Option<int> {
    char_index_of_byte(line, chat_byte_offset())
}

/// The chat part of `line` (from the chat byte offset on).
pub open spec fn chat_part(line: Seq<char>) -> Seq<char> {
    match chat_start(line) {
        Some(k) => line.skip(k),
        None => Seq::<char>::empty(),
    }
}

/// A line that looks like chat: long enough, starting with `[`, and whose chat
/// part starts with `<` or with a formatting code.
pub open spec fn is_chat_line(line: Seq<char>) -> bool {
    &&& line.len() >= min_line_chars()
    &&& chat_start(line) is Some
    &&& line[0] == '['
    &&& (chat_part(line)[0] == '<' || chat_part(line)[0] == section_sign())
}

/// What marks an in-game command in the chat part: the end of a player's name,
/// then the bot's in-game prefix.
pub open spec fn command_marker(prefix: Seq<char>) -> Seq<char> {
    seq![section_sign(), 'r', '>', ' '] + prefix
}

/// The in-game command text of a chat line: what follows the command marker's
/// leading part (so it starts with the prefix itself).
pub open spec fn command_text(line: Seq<char>, prefix: Seq<char>) -> Option<Seq<char>> {
    match find_first(chat_part(line), command_marker(prefix)) {
        Some(j) => Some(chat_part(line).skip(j + 4)),
        None => None,
    }
}

/// A chat line that holds an in-game command.
pub open spec fn is_command_line(line: Seq<char>, prefix: Seq<char>) -> bool {
    is_chat_line(line) && command_text(line, prefix) is Some
}

/// A command text that cannot be split into a name and an argument: no space,
/// a space right at the start, or a first character wider than one byte.
pub open spec fn command_unsplittable(cmd: Seq<char>) -> bool {
    match find_char(cmd, ' ') {
        None => true,
        Some(t) => t == 0 || utf8_width(cmd[0]) > 1,
    }
}

/// A line on which the bridge cannot go on: its chat byte offset cuts a
/// character, or it holds a command that cannot be split.
pub open spec fn line_malformed(line: Seq<char>, prefix: Seq<char>) -> bool {
    line.len() >= min_line_chars() && (chat_start(line) is None || (is_command_line(line, prefix)
        && command_unsplittable(command_text(line, prefix)->0)))
}

/// The name of an in-game command (without the prefix character).
pub open spec fn command_name(cmd: Seq<char>) -> Seq<char> {
    cmd.subrange(1, find_char(cmd, ' ')->0)
}

/// The argument of an in-game command (after the first space).
pub open spec fn command_arg(cmd: Seq<char>) -> Seq<char> {
    cmd.skip(find_char(cmd, ' ')->0 + 1)
}

/// The in-game commands that the bridge lets through.
pub open spec fn whitelisted(name: Seq<char>) -> bool {
    name == "s"@ || name == "score"@
}

/// The Discord message that relays a chat line of `server`.
pub open spec fn relay_message(line: Seq<char>, server: Seq<char>) -> Seq<char> {
    "`["@ + server + "]"@ + clean_formatting(chat_part(line)) + "`"@
}

/// What the bridge does with one new line.
pub enum LineClass {
    /// Nothing.
    Skip,
    /// Relays the message to Discord.
    Relay(Seq<char>),
    /// Handles the in-game command with this name and argument, then stops.
    Command(Seq<char>, Seq<char>),
}

/// What the bridge does with the new line `line`.
pub open spec fn classify(line: Seq<char>, prefix: Seq<char>, server: Seq<char>) -> LineClass {
    if !is_chat_line(line) {
        LineClass::Skip
    } else {
        match command_text(line, prefix) {
            Some(cmd) => LineClass::Command(command_name(cmd), command_arg(cmd)),
            None => LineClass::Relay(relay_message(line, server)),
        }
    }
}

// ---------------------------------------------------------------------------
// Specification of a scan
// ---------------------------------------------------------------------------

/// The outcome of scanning a pipe file from line `i` on: the number of lines
/// handled, the relayed messages in order, the keys typed into the session for
/// an in-game command, and whether the scan stopped at a command.
pub open spec fn scan_from(lines: Seq<Seq<char>>, i: int, prefix: Seq<char>, server: Seq<char>) -> (
    int,
    Seq<Seq<char>>,
    Option<Seq<char>>,
    bool,
)
    decreases lines.len() - i,
{
    if i < 0 || i >= lines.len() {
        (i, Seq::<Seq<char>>::empty(), None, false)
    } else {
        match classify(lines[i], prefix, server) {
            LineClass::Skip => scan_from(lines, i + 1, prefix, server),
            LineClass::Relay(m) => {
                let r = scan_from(lines, i + 1, prefix, server);
                (r.0, seq![m] + r.1, r.2, r.3)
            },
            LineClass::Command(name, arg) => (
                i + 1,
                Seq::<Seq<char>>::empty(),
                if whitelisted(name) {
                    Some(tmux_keys(ingame_command(name, arg)))
                } else {
                    None
                },
                true,
            ),
        }
    }
}

/// The first line, from line `i` on, that a scan reads and cannot handle: a
/// malformed line before the first command line.
pub open spec fn first_malformed(lines: Seq<Seq<char>>, i: int, prefix: Seq<char>) -> Option<int>
    decreases lines.len() - i,
{
    if i < 0 || i >= lines.len() {
        None
    } else if line_malformed(lines[i], prefix) {
        Some(i)
    } else if is_command_line(lines[i], prefix) {
        None
    } else {
        first_malformed(lines, i + 1, prefix)
    }
}

/// Every line that a scan from line `i` on reads can be handled.
pub open spec fn scan_ok(lines: Seq<Seq<char>>, i: int, prefix: Seq<char>) -> bool {
    first_malformed(lines, i, prefix) is None
}

/// The lines before the first malformed one can be scanned.
pub proof fn lemma_prefix_before_malformed(lines: Seq<Seq<char>>, i: int, prefix: Seq<char>)
    requires
        0 <= i,
        first_malformed(lines, i, prefix) is Some,
    ensures
        i <= first_malformed(lines, i, prefix)->0 < lines.len(),
        scan_ok(lines.take(first_malformed(lines, i, prefix)->0), i, prefix),
    decreases lines.len() - i,
{
    let k = first_malformed(lines, i, prefix)->0;
    if line_malformed(lines[i], prefix) {
    } else {
        lemma_prefix_before_malformed(lines, i + 1, prefix);
        assert(lines.take(k)[i] == lines[i]);
    }
}

/// The text of each string of a list.
pub open spec fn string_views(v: Seq<String>) -> Seq<Seq<char>> {
    Seq::new(v.len(), |i: int| v[i]@)
}

/// An optional string read as its text.
pub open spec fn opt_view(o: Option<String>) -> Option<Seq<char>> {
    match o {
        Some(s) => Some(s@),
        None => None,
    }
}

/// Files that have grown to this many lines are piped anew.
pub open spec fn repipe_threshold() -> int {
    2000
}

/// Whether a scan of a file whose counter stood at `lines` ends with the file
/// piped anew: it did not stop at a command and the file had grown to the
/// threshold.
pub open spec fn repipes(scan: (int, Seq<Seq<char>>, Option<Seq<char>>, bool), lines: int) -> bool {
    !scan.3 && lines >= repipe_threshold()
}

/// The counter after a scan: the number of lines handled, or 0 for the fresh
/// file when the file is piped anew.
pub open spec fn new_counter(scan: (int, Seq<Seq<char>>, Option<Seq<char>>, bool), lines: int) -> int {
    if repipes(scan, lines) {
        0
    } else {
        scan.0
    }
}

// ---------------------------------------------------------------------------
// Laws
// ---------------------------------------------------------------------------

/// The counter counts the handled lines: a scan from line `i` never ends before
/// `i`; without a command it ends at the end of the file (or stays at `i` when
/// there is nothing new); at a command it ends just after the command line.
pub proof fn law_counter_counts_handled_lines(
    lines: Seq<Seq<char>>,
    i: int,
    prefix: Seq<char>,
    server: Seq<char>,
)
    requires
        0 <= i,
    ensures
        scan_from(lines, i, prefix, server).0 >= i,
        !scan_from(lines, i, prefix, server).3 ==> scan_from(lines, i, prefix, server).0 == if i
            >= lines.len() {
            i
        } else {
            lines.len() as int
        },
        scan_from(lines, i, prefix, server).3 ==> scan_from(lines, i, prefix, server).0
            <= lines.len(),
    decreases lines.len() - i,
{
    if i < lines.len() {
        law_counter_counts_handled_lines(lines, i + 1, prefix, server);
    }
}

/// Only the whitelisted in-game commands reach a session: whatever a scan types
/// into the session sets the sidebar scoreboard.
pub proof fn law_only_whitelisted_commands(
    lines: Seq<Seq<char>>,
    i: int,
    prefix: Seq<char>,
    server: Seq<char>,
)
    ensures
        scan_from(lines, i, prefix, server).2 matches Some(keys) ==> exists|arg: Seq<char>|
            keys == tmux_keys(#[trigger] ingame_command("s"@, arg)),
    decreases lines.len() - i,
{
    if i < 0 || i >= lines.len() {
    } else {
        match classify(lines[i], prefix, server) {
            LineClass::Skip => law_only_whitelisted_commands(lines, i + 1, prefix, server),
            LineClass::Relay(_) => law_only_whitelisted_commands(lines, i + 1, prefix, server),
            LineClass::Command(name, arg) => {
                if whitelisted(name) {
                    assert(ingame_command(name, arg) == ingame_command("s"@, arg));
                }
            },
        }
    }
}

/// `msg` relays a chat line of `lines` at index `i` or later.
pub open spec fn relays_new_line(msg: Seq<char>, lines: Seq<Seq<char>>, i: int, server: Seq<char>) -> bool {
    exists|j: int| i <= j < lines.len() && is_chat_line(lines[j]) && msg == relay_message(#[trigger] lines[j], server)
}

/// Only new lines are relayed, in file order and none left out: every message
/// of a scan from line `i` on relays a chat line at `i` or later, and a scan
/// that meets no command relays every chat line from `i` on.
pub proof fn law_new_lines_relayed(
    lines: Seq<Seq<char>>,
    i: int,
    prefix: Seq<char>,
    server: Seq<char>,
)
    requires
        0 <= i,
    ensures
        forall|m: int|
            0 <= m < scan_from(lines, i, prefix, server).1.len() ==> relays_new_line(
                #[trigger] scan_from(lines, i, prefix, server).1[m],
                lines,
                i,
                server,
            ),
        forall|j: int|
            i <= j < lines.len() && is_chat_line(#[trigger] lines[j]) && !scan_from(
                lines,
                i,
                prefix,
                server,
            ).3 ==> scan_from(lines, i, prefix, server).1.contains(relay_message(lines[j], server)),
    decreases lines.len() - i,
{
    if i >= lines.len() {
    } else {
        law_new_lines_relayed(lines, i + 1, prefix, server);
        let r = scan_from(lines, i + 1, prefix, server);
        let here = scan_from(lines, i, prefix, server);
        match classify(lines[i], prefix, server) {
            LineClass::Relay(msg) => {
                assert(here.1 == seq![msg] + r.1);
                assert forall|m: int| 0 <= m < here.1.len() implies relays_new_line(
                    #[trigger] here.1[m],
                    lines,
                    i,
                    server,
                ) by {
                    if m == 0 {
                        assert(here.1[m] == relay_message(lines[i], server));
                        assert(is_chat_line(lines[i]));
                    } else {
                        assert(here.1[m] == r.1[m - 1]);
                        assert(relays_new_line(r.1[m - 1], lines, i + 1, server));
                        let j = choose|j: int|
                            i + 1 <= j < lines.len() && is_chat_line(lines[j]) && r.1[m - 1]
                                == relay_message(#[trigger] lines[j], server);
                        assert(i <= j < lines.len() && is_chat_line(lines[j]) && here.1[m]
                            == relay_message(lines[j], server));
                    }
                }
                assert forall|j: int|
                    i <= j < lines.len() && is_chat_line(#[trigger] lines[j]) && !here.3 implies here.1.contains(
                    relay_message(lines[j], server),
                ) by {
                    if j == i {
                        assert(here.1[0] == relay_message(lines[i], server));
                    } else {
                        let k = choose|k: int| 0 <= k < r.1.len() && r.1[k] == relay_message(
                            lines[j],
                            server,
                        );
                        assert(here.1[k + 1] == r.1[k]);
                    }
                }
            },
            LineClass::Skip => {
                assert(here == r);
                assert forall|m: int| 0 <= m < here.1.len() implies relays_new_line(
                    #[trigger] here.1[m],
                    lines,
                    i,
                    server,
                ) by {
                    assert(relays_new_line(r.1[m], lines, i + 1, server));
                    let j = choose|j: int|
                        i + 1 <= j < lines.len() && is_chat_line(lines[j]) && r.1[m]
                            == relay_message(#[trigger] lines[j], server);
                    assert(i <= j < lines.len() && is_chat_line(lines[j]) && here.1[m]
                        == relay_message(lines[j], server));
                }
                assert forall|j: int|
                    i <= j < lines.len() && is_chat_line(#[trigger] lines[j]) && !here.3 implies here.1.contains(
                    relay_message(lines[j], server),
                ) by {
                    if j == i {
                        assert(!is_chat_line(lines[i]));
                    }
                }
            },
            LineClass::Command(_, _) => {
                assert(here.1.len() == 0);
            },
        }
    }
}

/// The in-game whitelist is exactly `s` and `score`: a scan runs up to the first
/// line holding an in-game command and stops just after it; when the command is
/// named `s` or `score` the keys typed into the session set the sidebar
/// scoreboard to its argument, and any other command types nothing.
pub proof fn law_ingame_whitelist(
    lines: Seq<Seq<char>>,
    i: int,
    j: int,
    prefix: Seq<char>,
    server: Seq<char>,
)
    requires
        0 <= i <= j < lines.len(),
        forall|k: int| i <= k < j ==> !is_command_line(#[trigger] lines[k], prefix),
        is_command_line(lines[j], prefix),
    ensures
        ({
            let cmd = command_text(lines[j], prefix)->0;
            let name = command_name(cmd);
            let arg = command_arg(cmd);
            let s = scan_from(lines, i, prefix, server);
            &&& s.0 == j + 1
            &&& s.3
            &&& (name == "s"@ || name == "score"@) ==> s.2 == Some(
                tmux_keys("scoreboard objectives setdisplay sidebar "@ + arg),
            )
            &&& !(name == "s"@ || name == "score"@) ==> s.2 is None
        }),
    decreases j - i,
{
    if i < j {
        assert(!is_command_line(lines[i], prefix));
        law_ingame_whitelist(lines, i + 1, j, prefix, server);
    }
}

// ---------------------------------------------------------------------------
// Executable
// ---------------------------------------------------------------------------

/// What the bridge does with one new line.
pub enum LineOutcome {
    Skip,
    Relay(Vec<char>),
    Command(Vec<char>, Vec<char>),
}

impl View for LineOutcome {
    type V = LineClass;

    open spec fn view(&self) -> LineClass {
        match self {
            LineOutcome::Skip => LineClass::Skip,
            LineOutcome::Relay(m) => LineClass::Relay(m@),
            LineOutcome::Command(n, a) => LineClass::Command(n@, a@),
        }
    }
}

/// The parts of a line that its classification reads: where the chat part
/// starts, whether it is a chat line, and its command text.
fn line_parts(line: &Vec<char>, prefix: &Vec<char>) -> (r: (Option<usize>, bool, Option<Vec<char>>))
    requires
        line@.len() >= min_line_chars(),
    ensures
        opt_int(r.0) == chat_start(line@),
        r.0 is None ==> !r.1 && r.2 is None,
        r.0 is Some ==> r.1 == is_chat_line(line@),
        r.0 is Some && r.1 ==> match r.2 {
            Some(c) => command_text(line@, prefix@) == Some(c@),
            None => command_text(line@, prefix@) is None,
        },
{
    let k = match char_index_of_byte_exec(line, 33) {
        Some(k) => k,
        None => {
            return (None, false, None);
        },
    };
    proof {
        lemma_char_index_bounds(line@, 33);
    }
    let part = copy_range(line, k, line.len());
    assert(part@ == chat_part(line@));
    let chat = line[0] == '[' && (part[0] == '<' || part[0] == '\u{a7}');
    if !chat {
        return (Some(k), false, None);
    }
    let mut marker: Vec<char> = Vec::new();
    marker.push('\u{a7}');
    marker.push('r');
    marker.push('>');
    marker.push(' ');
    append_chars(&mut marker, prefix);
    assert(marker@ == command_marker(prefix@));
    match find_exec(&part, &marker) {
        None => (Some(k), true, None),
        Some(j) => {
            proof {
                lemma_find_from(part@, marker@, 0);
            }
            let start = j + 4;
            let cmd = copy_range(&part, start, part.len());
            assert(cmd@ == part@.skip(start as int));
            (Some(k), true, Some(cmd))
        },
    }
}

/// Whether the new line `line` is malformed for the bridge.
fn line_malformed_exec(line: &Vec<char>, prefix: &Vec<char>) -> (r: bool)
    ensures
        r == line_malformed(line@, prefix@),
{
    if line.len() < 35 {
        return false;
    }
    let (k, chat, cmd) = line_parts(line, prefix);
    if k.is_none() {
        return true;
    }
    if !chat {
        return false;
    }
    match cmd {
        None => false,
        Some(c) => match find_char_exec(&c, ' ') {
            None => true,
            Some(t) => {
                if t == 0 {
                    true
                } else {
                    proof {
                        lemma_find_from(c@, seq![' '], 0);
                    }
                    utf8_width_exec(c[0]) > 1
                }
            },
        },
    }
}

/// What the bridge does with the new line `line` of `server`.
fn classify_line(line: &Vec<char>, prefix: &Vec<char>, server: &Vec<char>) -> (r: LineOutcome)
    requires
        !line_malformed(line@, prefix@),
    ensures
        r@ == classify(line@, prefix@, server@),
{
    if line.len() < 35 {
        return LineOutcome::Skip;
    }
    let (k, chat, cmd) = line_parts(line, prefix);
    let k = match k {
        Some(k) => k,
        // ruled out: such a line is malformed
        None => {
            return LineOutcome::Skip;
        },
    };
    if !chat {
        return LineOutcome::Skip;
    }
    match cmd {
        Some(c) => {
            let t = match find_char_exec(&c, ' ') {
                Some(t) => t,
                // ruled out: such a command line is malformed
                None => {
                    return LineOutcome::Skip;
                },
            };
            proof {
                lemma_find_from(c@, seq![' '], 0);
                assert(c@.subrange(t as int, t + 1)[0] == c@[t as int]);
            }
            let name = copy_range(&c, 1, t);
            let arg = copy_range(&c, t + 1, c.len());
            assert(arg@ == c@.skip(t + 1));
            LineOutcome::Command(name, arg)
        },
        None => {
            proof {
                lemma_char_index_bounds(line@, 33);
            }
            let part = copy_range(line, k, line.len());
            let clean = clean_formatting_exec(&part);
            let mut msg: Vec<char> = Vec::new();
            append_str(&mut msg, "`[");
            append_chars(&mut msg, server);
            append_str(&mut msg, "]");
            append_chars(&mut msg, &clean);
            append_str(&mut msg, "`");
            LineOutcome::Relay(msg)
        },
    }
}

/// The outcome of scanning the new lines of a server's pipe file.
pub struct LogScan {
    /// The new line counter: the number of lines handled (0 after a re-pipe).
    pub lines: usize,
    /// The Discord messages that relay chat, in order.
    pub relay: Vec<String>,
    /// The keys to type into the server's session for a whitelisted in-game command.
    pub command: Option<String>,
    /// Whether the pipe file should be piped anew.
    pub repipe: bool,
}

/// The first line of the pipe file `log`, from line `lines` on (the counter: the
/// number of lines already handled), that a scan reads and cannot handle: a
/// line, before the first in-game command line, whose chat byte offset cuts a
/// character, or a command line whose command cannot be split into a name and
/// an argument. The lines before it can be scanned (see `update_messages`).
pub fn first_malformed_line(log: &Vec<String>, lines: usize, ign_prefix: &str) -> (r: Option<usize>)
    ensures
        opt_int(r) == first_malformed(string_views(log@), lines as int, ign_prefix@),
        r matches Some(k) ==> lines <= k < log@.len() && scan_ok(
            string_views(log@).take(k as int),
            lines as int,
            ign_prefix@,
        ),
{
    let prefix = chars_of(ign_prefix);
    let n = log.len();
    let mut i: usize = lines;
    while i < n
        invariant
            n == log@.len(),
            prefix@ == ign_prefix@,
            lines <= i,
            first_malformed(string_views(log@), lines as int, prefix@) == first_malformed(
                string_views(log@),
                i as int,
                prefix@,
            ),
        decreases n - i,
    {
        let line = chars_of(log[i].as_str());
        assert(string_views(log@)[i as int] == line@);
        if line_malformed_exec(&line, &prefix) {
            proof {
                lemma_prefix_before_malformed(string_views(log@), lines as int, prefix@);
            }
            return Some(i);
        }
        if line.len() >= 35 {
            let (_k, chat, cmd) = line_parts(&line, &prefix);
            if chat && cmd.is_some() {
                return None;
            }
        }
        i = i + 1;
    }
    None
}

/// Scans the pipe file of `server_name`, given as its lines `log`, from line
/// `lines` on (the counter: the number of lines already handled, so that old
/// lines are not sent again): each chat line is relayed to Discord with its
/// formatting codes removed, until a line holding an in-game command (the
/// command marker followed by `ign_prefix`); a whitelisted command is turned into
/// keys for the server's session and the scan stops there. The counter becomes
/// the number of lines handled. A file whose counter had reached 2000 lines is
/// piped anew after the scan, unless the scan stopped at a command, and its
/// counter starts again at 0 for the fresh file.
pub fn update_messages(ign_prefix: &str, server_name: &str, lines: usize, log: &Vec<String>) -> (r:
    LogScan)
    requires
        scan_ok(string_views(log@), lines as int, ign_prefix@),
    ensures
        ({
            let s = scan_from(string_views(log@), lines as int, ign_prefix@, server_name@);
            &&& r.lines == new_counter(s, lines as int)
            &&& string_views(r.relay@) == s.1
            &&& opt_view(r.command) == s.2
            &&& r.repipe == repipes(s, lines as int)
        }),
{
    let prefix = chars_of(ign_prefix);
    let server = chars_of(server_name);
    let n = log.len();
    let ghost lv = string_views(log@);
    let ghost total = scan_from(lv, lines as int, prefix@, server@);
    let mut relay: Vec<String> = Vec::new();
    let mut i: usize = lines;
    assert(string_views(relay@) =~= Seq::<Seq<char>>::empty());
    assert(total == ({
        let r = scan_from(lv, i as int, prefix@, server@);
        (r.0, string_views(relay@) + r.1, r.2, r.3)
    }));
    while i < n
        invariant
            n == log@.len(),
            lv == string_views(log@),
            prefix@ == ign_prefix@,
            server@ == server_name@,
            total == scan_from(lv, lines as int, ign_prefix@, server_name@),
            lines <= i,
            scan_ok(lv, i as int, prefix@),
            total == ({
                let r = scan_from(lv, i as int, prefix@, server@);
                (r.0, string_views(relay@) + r.1, r.2, r.3)
            }),
        decreases n - i,
    {
        let line = chars_of(log[i].as_str());
        assert(lv[i as int] == line@);
        match classify_line(&line, &prefix, &server) {
            LineOutcome::Skip => {},
            LineOutcome::Relay(m) => {
                let ghost before = string_views(relay@);
                relay.push(string_of(&m));
                assert(string_views(relay@) =~= before.push(m@));
                let ghost rest = scan_from(lv, i + 1, prefix@, server@);
                assert(before + (seq![m@] + rest.1) =~= before.push(m@) + rest.1);
            },
            LineOutcome::Command(name, arg) => {
                let name_s = string_of(&name);
                let arg_s = string_of(&arg);
                let s_word = chars_of("s");
                let score_word = chars_of("score");
                let command = if chars_eq(&name, &s_word) || chars_eq(&name, &score_word) {
                    let text = handle_command(name_s.as_str(), arg_s.as_str());
                    Some(send_keys(text.as_str()))
                } else {
                    None
                };
                assert(string_views(relay@) + Seq::<Seq<char>>::empty() =~= string_views(relay@));
                return LogScan { lines: i + 1, relay, command, repipe: false };
            },
        }
        i = i + 1;
    }
    assert(string_views(relay@) + Seq::<Seq<char>>::empty() =~= string_views(relay@));
    if lines >= 2000 {
        LogScan { lines: 0, relay, command: None, repipe: true }
    } else {
        LogScan { lines: i, relay, command: None, repipe: false }
    }
}

} // verus!
