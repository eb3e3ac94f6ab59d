//! The chat bridge from Discord to the game servers, and the bot's reading of
//! a Discord message: what is typed into which session, which calculations
//! are asked for, and which bot command is meant.
use vstd::prelude::*;
use crate::text::{
    append_chars, append_str, ascii_only, ascii_only_exec, chars_eq, chars_of, find_char,
    find_char_exec, find_exec, find_first, has_prefix, has_prefix_exec, lemma_ascii_pattern_survives,
    lemma_find_from, string_of, utf8_len, utf8_longer_than, utf8_width, utf8_width_exec,
    all_ascii, contains_seq, occurs_at, copy_range, find_from, is_ascii_char,
    lemma_ascii_only_all_ascii, lemma_ascii_only_concat,
};
use crate::chat::{send_keys, tmux_keys};
use crate::log::{relay_message, string_views};

verus! {

// ---------------------------------------------------------------------------
// Specification
// ---------------------------------------------------------------------------

/// The tag `[name]` that marks text coming from the session `name`.
pub open spec fn session_tag(name: Seq<char>) -> Seq<char> {
    "["@ + name + "]"@
}

/// The tag with which the bridge's relays of the session `name` begin (see
/// `relay_message`): a backquote, then `[name]`.
pub open spec fn relay_tag(name: Seq<char>) -> Seq<char> {
    "`["@ + name + "]"@
}

/// A message that comes from the session `name`: it begins with the session's
/// tag, bare or as the bridge relays it.
pub open spec fn from_session(content: Seq<char>, name: Seq<char>) -> bool {
    has_prefix(content, session_tag(name)) || has_prefix(content, relay_tag(name))
}

/// The in-game command that shows a Discord message in a Minecraft session:
/// only the ASCII characters of the message are kept, and the author's name
/// is left out for the bot's own messages.
pub open spec fn tellraw_text(content: Seq<char>, author: Seq<char>, from_self: bool) -> Seq<char> {
    if from_self {
        "tellraw @a { \"text\": \""@ + ascii_only(content) + "\" }"@
    } else {
        "tellraw @a { \"text\": \"["@ + author + "] "@ + ascii_only(content) + "\" }"@
    }
}

/// The command that shows a Discord message in a generic session.
pub open spec fn say_text(content: Seq<char>, author: Seq<char>, from_self: bool) -> Seq<char> {
    if from_self {
        "say "@ + content
    } else {
        "say ["@ + author + "] "@ + content
    }
}

/// The keys sent to each of `names`, in order, for the text `text`, skipping
/// the sessions the message comes from.
pub open spec fn sends_to(names: Seq<Seq<char>>, content: Seq<char>, text: Seq<char>) -> Seq<
    (Seq<char>, Seq<char>),
>
    decreases names.len(),
{
    if names.len() == 0 {
        Seq::empty()
    } else {
        let r = sends_to(names.drop_last(), content, text);
        if from_session(content, names.last()) {
            r
        } else {
            r.push((names.last(), tmux_keys(text)))
        }
    }
}

/// What a Discord message in channel `channel` makes the bridge type into the
/// game sessions: nothing unless the channel is the bridge channel; otherwise a
/// `tellraw` in each Minecraft session, then a `say` in each generic session.
pub open spec fn bridge_sends(
    content: Seq<char>,
    author: Seq<char>,
    from_self: bool,
    channel: u64,
    bridge: u64,
    servers: Seq<Seq<char>>,
    generics: Seq<Seq<char>>,
) -> Seq<(Seq<char>, Seq<char>)> {
    if channel != bridge {
        Seq::empty()
    } else {
        sends_to(servers, content, tellraw_text(content, author, from_self)) + sends_to(
            generics,
            content,
            say_text(content, author, from_self),
        )
    }
}

/// A message whose first byte is not a whole character while it is longer
/// than two bytes: the check for a leading `=` cannot read it.
pub open spec fn first_char_cut(content: Seq<char>) -> bool {
    utf8_len(content) > 2 && utf8_width(content[0]) > 1
}

/// The marker of a calculation inside a relayed game chat line.
pub open spec fn calc_marker() -> Seq<char> {
    "> ="@
}

/// The calculations a message asks for, in order: the rest of a message in
/// the bridge channel that starts with `=` (and is longer than two bytes),
/// then what follows the `> ` of a `> =` in a relayed chat line (one that
/// starts with `[`) of the bridge channel.
pub open spec fn calc_requests_spec(content: Seq<char>, channel: u64, bridge: u64) -> Seq<
    Seq<char>,
> {
    let a = ascii_only(content);
    let first = if utf8_len(content) > 2 && content[0] == '=' && channel == bridge {
        seq![content.skip(1)]
    } else {
        Seq::empty()
    };
    let second = if has_prefix(a, "["@) && contains_seq(content, calc_marker()) && channel
        == bridge && find_first(a, calc_marker())->0 + 2 < utf8_len(content) {
        seq![a.skip(find_first(a, calc_marker())->0 + 2)]
    } else {
        Seq::empty()
    };
    first + second
}

/// The commands of the bot.
pub enum BotCommand {
    Backup,
    Ping,
    Help,
    Recompile,
    Execute,
    Syscheck,
    Script,
    /// Anything else after the prefix.
    Invalid,
}

/// A message addressed to the bot: its ASCII part is at least two characters
/// long and begins with the prefix.
pub open spec fn addressed(content: Seq<char>, prefix: Seq<char>) -> bool {
    let a = ascii_only(content);
    a.len() >= 2 && prefix == seq![a[0]]
}

/// An addressed message with a space whose command word cannot be cut out:
/// the message starts with a space or with a character wider than one byte.
pub open spec fn command_word_cut(content: Seq<char>, prefix: Seq<char>) -> bool {
    addressed(content, prefix) && find_char(ascii_only(content), ' ') is Some && (find_char(
        content,
        ' ',
    )->0 == 0 || utf8_width(content[0]) > 1)
}

/// The command word of an addressed message: up to the first space, without
/// the prefix.
pub open spec fn command_word(content: Seq<char>) -> Seq<char> {
    if find_char(ascii_only(content), ' ') is Some {
        content.subrange(1, find_char(content, ' ')->0)
    } else {
        ascii_only(content).skip(1)
    }
}

/// The command named by a word.
pub open spec fn command_for(word: Seq<char>) -> BotCommand {
    if word == "backup"@ {
        BotCommand::Backup
    } else if word == "ping"@ {
        BotCommand::Ping
    } else if word == "help"@ {
        BotCommand::Help
    } else if word == "recompile"@ {
        BotCommand::Recompile
    } else if word == "execute"@ {
        BotCommand::Execute
    } else if word == "syscheck"@ {
        BotCommand::Syscheck
    } else if word == "script"@ {
        BotCommand::Script
    } else {
        BotCommand::Invalid
    }
}

/// The bot command a message asks for, if it is addressed to the bot.
pub open spec fn bot_command_spec(content: Seq<char>, prefix: Seq<char>) -> Option<BotCommand> {
    if addressed(content, prefix) {
        Some(command_for(command_word(content)))
    } else {
        None
    }
}

// ---------------------------------------------------------------------------
// Laws
// ---------------------------------------------------------------------------

/// The first space of `t`, when `t` has one at `k` and none before.
proof fn lemma_first_space(t: Seq<char>, k: int)
    requires
        0 <= k < t.len(),
        t[k] == ' ',
        forall|i: int| 0 <= i < k ==> t[i] != ' ',
    ensures
        find_char(t, ' ') == Some(k),
{
    lemma_find_from(t, seq![' '], 0);
    assert(t.subrange(k, k + 1) =~= seq![' ']);
    assert(occurs_at(t, seq![' '], k));
    match find_from(t, seq![' '], 0) {
        Some(j) => {
            assert(t.subrange(j, j + 1)[0] == t[j]);
        },
        None => {},
    }
}

/// A text without any space has no first space.
proof fn lemma_no_space(t: Seq<char>)
    requires
        forall|i: int| 0 <= i < t.len() ==> t[i] != ' ',
    ensures
        find_char(t, ' ') is None,
{
    lemma_find_from(t, seq![' '], 0);
    match find_from(t, seq![' '], 0) {
        Some(j) => {
            assert(t.subrange(j, j + 1)[0] == t[j]);
        },
        None => {},
    }
}

/// The prefix followed by an ASCII word without spaces (alone, or followed by
/// a space and anything) names the command of that word.
proof fn lemma_word_names_command(p: char, w: Seq<char>, rest: Seq<char>)
    requires
        is_ascii_char(p),
        p != ' ',
        w.len() >= 1,
        all_ascii(w),
        forall|i: int| 0 <= i < w.len() ==> w[i] != ' ',
    ensures
        bot_command_spec(seq![p] + w, seq![p]) == Some(command_for(w)),
        bot_command_spec(seq![p] + w + seq![' '] + rest, seq![p]) == Some(command_for(w)),
{
    let head = seq![p] + w;
    assert(forall|i: int| 0 < i < head.len() ==> head[i] == w[i - 1]);
    assert(all_ascii(head)) by {
        assert forall|i: int| 0 <= i < head.len() implies is_ascii_char(#[trigger] head[i]) by {
            if i > 0 {
                assert(is_ascii_char(w[i - 1]));
            }
        }
    }
    lemma_ascii_only_all_ascii(head);
    lemma_no_space(head);
    assert(head.skip(1) =~= w);
    let hs = head + seq![' '];
    assert(all_ascii(hs)) by {
        assert forall|i: int| 0 <= i < hs.len() implies is_ascii_char(#[trigger] hs[i]) by {
            if i < head.len() {
                assert(hs[i] == head[i]);
            }
        }
    }
    lemma_ascii_only_all_ascii(hs);
    lemma_ascii_only_concat(hs, rest);
    let c = seq![p] + w + seq![' '] + rest;
    assert(c =~= hs + rest);
    let a = ascii_only(c);
    assert(a =~= hs + ascii_only(rest));
    let k = w.len() + 1;
    assert forall|i: int| 0 <= i < k implies a[i] != ' ' && c[i] != ' ' by {
        assert(a[i] == head[i]);
        assert(c[i] == head[i]);
    }
    lemma_first_space(a, k as int);
    lemma_first_space(c, k as int);
    assert(c.subrange(1, k as int) =~= w);
}

/// Each command word names its own command, alone or followed by arguments:
/// after the prefix (an ASCII character other than a space), `backup`, `ping`,
/// `help`, `recompile`, `execute`, `syscheck` and `script` ask for the command of
/// that name.
pub proof fn law_command_words(p: char, rest: Seq<char>)
    requires
        is_ascii_char(p),
        p != ' ',
    ensures
        bot_command_spec(seq![p] + "backup"@, seq![p]) == Some(BotCommand::Backup),
        bot_command_spec(seq![p] + "backup "@ + rest, seq![p]) == Some(BotCommand::Backup),
        bot_command_spec(seq![p] + "ping"@, seq![p]) == Some(BotCommand::Ping),
        bot_command_spec(seq![p] + "ping "@ + rest, seq![p]) == Some(BotCommand::Ping),
        bot_command_spec(seq![p] + "help"@, seq![p]) == Some(BotCommand::Help),
        bot_command_spec(seq![p] + "help "@ + rest, seq![p]) == Some(BotCommand::Help),
        bot_command_spec(seq![p] + "recompile"@, seq![p]) == Some(BotCommand::Recompile),
        bot_command_spec(seq![p] + "recompile "@ + rest, seq![p]) == Some(BotCommand::Recompile),
        bot_command_spec(seq![p] + "execute"@, seq![p]) == Some(BotCommand::Execute),
        bot_command_spec(seq![p] + "execute "@ + rest, seq![p]) == Some(BotCommand::Execute),
        bot_command_spec(seq![p] + "syscheck"@, seq![p]) == Some(BotCommand::Syscheck),
        bot_command_spec(seq![p] + "syscheck "@ + rest, seq![p]) == Some(BotCommand::Syscheck),
        bot_command_spec(seq![p] + "script"@, seq![p]) == Some(BotCommand::Script),
        bot_command_spec(seq![p] + "script "@ + rest, seq![p]) == Some(BotCommand::Script),
{
    reveal_strlit("backup");
    reveal_strlit("backup ");
    reveal_strlit("ping");
    reveal_strlit("ping ");
    reveal_strlit("help");
    reveal_strlit("help ");
    reveal_strlit("recompile");
    reveal_strlit("recompile ");
    reveal_strlit("execute");
    reveal_strlit("execute ");
    reveal_strlit("syscheck");
    reveal_strlit("syscheck ");
    reveal_strlit("script");
    reveal_strlit("script ");
    lemma_word_names_command(p, "backup"@, rest);
    assert(seq![p] + "backup "@ + rest =~= seq![p] + "backup"@ + seq![' '] + rest);
    lemma_word_names_command(p, "ping"@, rest);
    assert(seq![p] + "ping "@ + rest =~= seq![p] + "ping"@ + seq![' '] + rest);
    lemma_word_names_command(p, "help"@, rest);
    assert(seq![p] + "help "@ + rest =~= seq![p] + "help"@ + seq![' '] + rest);
    lemma_word_names_command(p, "recompile"@, rest);
    assert(seq![p] + "recompile "@ + rest =~= seq![p] + "recompile"@ + seq![' '] + rest);
    lemma_word_names_command(p, "execute"@, rest);
    assert(seq![p] + "execute "@ + rest =~= seq![p] + "execute"@ + seq![' '] + rest);
    lemma_word_names_command(p, "syscheck"@, rest);
    assert(seq![p] + "syscheck "@ + rest =~= seq![p] + "syscheck"@ + seq![' '] + rest);
    lemma_word_names_command(p, "script"@, rest);
    assert(seq![p] + "script "@ + rest =~= seq![p] + "script"@ + seq![' '] + rest);
}

/// Any other word after the prefix is an invalid command: an ASCII word without
/// spaces that is none of the seven command words.
pub proof fn law_other_words_invalid(p: char, w: Seq<char>, rest: Seq<char>)
    requires
        is_ascii_char(p),
        p != ' ',
        w.len() >= 1,
        all_ascii(w),
        forall|i: int| 0 <= i < w.len() ==> w[i] != ' ',
        w != "backup"@,
        w != "ping"@,
        w != "help"@,
        w != "recompile"@,
        w != "execute"@,
        w != "syscheck"@,
        w != "script"@,
    ensures
        bot_command_spec(seq![p] + w, seq![p]) == Some(BotCommand::Invalid),
        bot_command_spec(seq![p] + w + seq![' '] + rest, seq![p]) == Some(BotCommand::Invalid),
{
    lemma_word_names_command(p, w, rest);
}

/// Every session that `sends_to` types into is one of `names` whose tag does not begin the message.
proof fn lemma_sends_to(names: Seq<Seq<char>>, content: Seq<char>, text: Seq<char>)
    ensures
        forall|k: int|
            0 <= k < sends_to(names, content, text).len() ==> {
                let (s, keys) = #[trigger] sends_to(names, content, text)[k];
                &&& names.contains(s)
                &&& !from_session(content, s)
                &&& keys == tmux_keys(text)
            },
        forall|k: int|
            0 <= k < names.len() && !from_session(content, #[trigger] names[k]) ==> sends_to(
                names,
                content,
                text,
            ).contains((names[k], tmux_keys(text))),
    decreases names.len(),
{
    if names.len() > 0 {
        lemma_sends_to(names.drop_last(), content, text);
        let r = sends_to(names.drop_last(), content, text);
        assert forall|k: int| 0 <= k < sends_to(names, content, text).len() implies {
            let (s, keys) = #[trigger] sends_to(names, content, text)[k];
            &&& names.contains(s)
            &&& !from_session(content, s)
            &&& keys == tmux_keys(text)
        } by {
            if k < r.len() {
                let (s, keys) = r[k];
                assert(sends_to(names, content, text)[k] == r[k]);
                let j = choose|j: int| 0 <= j < names.drop_last().len() && names.drop_last()[j] == s;
                assert(names[j] == s);
            } else {
                assert(names[names.len() - 1] == names.last());
            }
        }
        assert forall|k: int|
            0 <= k < names.len() && !from_session(content, #[trigger] names[k]) implies sends_to(
            names,
            content,
            text,
        ).contains((names[k], tmux_keys(text))) by {
            let all = sends_to(names, content, text);
            if k < names.len() - 1 {
                assert(names.drop_last()[k] == names[k]);
                let m = choose|m: int| 0 <= m < r.len() && r[m] == (names[k], tmux_keys(text));
                assert(all[m] == r[m]);
            } else {
                assert(all[all.len() - 1] == (names[k], tmux_keys(text)));
            }
        }
    }
}

/// What the bridge sends for a message: only in the bridge channel, never to
/// a session the message comes from, and to every other Minecraft and generic
/// session its command for the message.
pub proof fn law_bridge_targets(
    content: Seq<char>,
    author: Seq<char>,
    from_self: bool,
    channel: u64,
    bridge: u64,
    servers: Seq<Seq<char>>,
    generics: Seq<Seq<char>>,
)
    ensures
        channel != bridge ==> bridge_sends(
            content,
            author,
            from_self,
            channel,
            bridge,
            servers,
            generics,
        ).len() == 0,
        forall|k: int|
            0 <= k < bridge_sends(content, author, from_self, channel, bridge, servers, generics).len()
                ==> !from_session(
                content,
                (#[trigger] bridge_sends(
                    content,
                    author,
                    from_self,
                    channel,
                    bridge,
                    servers,
                    generics,
                )[k]).0,
            ),
        channel == bridge ==> forall|k: int|
            0 <= k < servers.len() && !from_session(content, #[trigger] servers[k]) ==> bridge_sends(
                content,
                author,
                from_self,
                channel,
                bridge,
                servers,
                generics,
            ).contains((servers[k], tmux_keys(tellraw_text(content, author, from_self)))),
        channel == bridge ==> forall|k: int|
            0 <= k < generics.len() && !from_session(content, #[trigger] generics[k]) ==> bridge_sends(
                content,
                author,
                from_self,
                channel,
                bridge,
                servers,
                generics,
            ).contains((generics[k], tmux_keys(say_text(content, author, from_self)))),
{
    let t = tellraw_text(content, author, from_self);
    let y = say_text(content, author, from_self);
    lemma_sends_to(servers, content, t);
    lemma_sends_to(generics, content, y);
    if channel == bridge {
        let a = sends_to(servers, content, t);
        let b = sends_to(generics, content, y);
        assert forall|k: int| 0 <= k < (a + b).len() implies !from_session(
            content,
            (#[trigger] (a + b)[k]).0,
        ) by {
            if k < a.len() {
                assert((a + b)[k] == a[k]);
            } else {
                assert((a + b)[k] == b[k - a.len()]);
            }
        }
        assert forall|k: int| 0 <= k < servers.len() && !from_session(content, #[trigger] servers[k])
            implies (a + b).contains((servers[k], tmux_keys(t))) by {
            let m = choose|m: int| 0 <= m < a.len() && a[m] == (servers[k], tmux_keys(t));
            assert((a + b)[m] == a[m]);
        }
        assert forall|k: int| 0 <= k < generics.len() && !from_session(content, #[trigger] generics[k])
            implies (a + b).contains((generics[k], tmux_keys(y))) by {
            let m = choose|m: int| 0 <= m < b.len() && b[m] == (generics[k], tmux_keys(y));
            assert((a + b)[a.len() + m] == b[m]);
        }
    }
}

/// A relayed line is never typed back into the session it comes from: when the
/// bridge's relay of a line of `server` is posted (by the bot or anyone) in
/// the bridge channel, `server` receives nothing.
pub proof fn law_no_echo_of_relayed_lines(
    line: Seq<char>,
    server: Seq<char>,
    author: Seq<char>,
    from_self: bool,
    channel: u64,
    bridge: u64,
    servers: Seq<Seq<char>>,
    generics: Seq<Seq<char>>,
)
    ensures
        forall|k: int|
            0 <= k < bridge_sends(
                relay_message(line, server),
                author,
                from_self,
                channel,
                bridge,
                servers,
                generics,
            ).len() ==> (#[trigger] bridge_sends(
                relay_message(line, server),
                author,
                from_self,
                channel,
                bridge,
                servers,
                generics,
            )[k]).0 != server,
{
    let content = relay_message(line, server);
    law_bridge_targets(content, author, from_self, channel, bridge, servers, generics);
    let tag = relay_tag(server);
    assert(content.subrange(0, tag.len() as int) =~= tag);
    assert(from_session(content, server));
}

/// The text shown in a Minecraft session keeps only the ASCII characters of the message.
pub proof fn law_tellraw_ascii(content: Seq<char>)
    ensures
        all_ascii(ascii_only(content)),
{
    crate::text::lemma_ascii_only(content);
}

// ---------------------------------------------------------------------------
// Executable
// ---------------------------------------------------------------------------

/// Keys to type into one session.
pub struct SessionMessage {
    /// The tmux session.
    pub session: String,
    /// The keys.
    pub keys: String,
}

/// The session and keys of each message of a list.
pub open spec fn session_views(v: Seq<SessionMessage>) -> Seq<(Seq<char>, Seq<char>)> {
    Seq::new(v.len(), |i: int| (v[i].session@, v[i].keys@))
}

/// The tag `[name]` of a session.
fn session_tag_exec(name: &str) -> (r: Vec<char>)
    ensures
        r@ == session_tag(name@),
{
    let mut r: Vec<char> = Vec::new();
    append_str(&mut r, "[");
    append_str(&mut r, name);
    append_str(&mut r, "]");
    r
}

/// Whether `content` comes from the session `name`.
fn from_session_exec(content: &Vec<char>, name: &str) -> (r: bool)
    ensures
        r == from_session(content@, name@),
{
    let tag = session_tag_exec(name);
    let mut relay: Vec<char> = Vec::new();
    append_str(&mut relay, "`[");
    append_str(&mut relay, name);
    append_str(&mut relay, "]");
    has_prefix_exec(content, &tag) || has_prefix_exec(content, &relay)
}

/// Appends to `out` the keys for `text` for each of `names` that `content` does not come from.
fn push_sends(out: &mut Vec<SessionMessage>, names: &Vec<String>, content: &Vec<char>, text: &String)
    ensures
        session_views(final(out)@) == session_views(old(out)@) + sends_to(
            string_views(names@),
            content@,
            text@,
        ),
{
    let n = names.len();
    let ghost start = session_views(out@);
    let keys = send_keys(text.as_str());
    assert(string_views(names@).take(0) =~= Seq::<Seq<char>>::empty());
    assert(start + Seq::<(Seq<char>, Seq<char>)>::empty() =~= start);
    for i in 0..n
        invariant
            n == names@.len(),
            keys@ == tmux_keys(text@),
            session_views(out@) == start + sends_to(
                string_views(names@).take(i as int),
                content@,
                text@,
            ),
    {
        let ghost nv = string_views(names@);
        assert(nv.take(i + 1).drop_last() =~= nv.take(i as int));
        assert(nv.take(i + 1).last() == names[i as int]@);
        if !from_session_exec(content, names[i].as_str()) {
            let ghost before = session_views(out@);
            out.push(SessionMessage { session: names[i].clone(), keys: keys.clone() });
            assert(session_views(out@) =~= before.push((names[i as int]@, keys@)));
        }
    }
    assert(string_views(names@).take(n as int) =~= string_views(names@));
}

/// What a Discord message makes the bridge type into the game sessions: when it
/// is posted in the bridge channel, a `tellraw` with its ASCII characters into
/// each of `servers` and a `say` into each of `generics`, skipping the sessions
/// whose tag `[name]` begins the message (the messages relayed from them). The
/// bot's own messages are shown without its name.
pub fn bridge_messages(
    content: &str,
    author: &str,
    from_self: bool,
    channel_id: u64,
    chat_bridge_id: u64,
    servers: &Vec<String>,
    generics: &Vec<String>,
) -> (r: Vec<SessionMessage>)
    ensures
        session_views(r@) == bridge_sends(
            content@,
            author@,
            from_self,
            channel_id,
            chat_bridge_id,
            string_views(servers@),
            string_views(generics@),
        ),
{
    let mut out: Vec<SessionMessage> = Vec::new();
    if channel_id != chat_bridge_id {
        assert(session_views(out@) =~= Seq::<(Seq<char>, Seq<char>)>::empty());
        return out;
    }
    let c = chars_of(content);
    let ascii = ascii_only_exec(&c);
    let mut t: Vec<char> = Vec::new();
    let mut y: Vec<char> = Vec::new();
    if from_self {
        append_str(&mut t, "tellraw @a { \"text\": \"");
        append_chars(&mut t, &ascii);
        append_str(&mut t, "\" }");
        append_str(&mut y, "say ");
        append_chars(&mut y, &c);
    } else {
        append_str(&mut t, "tellraw @a { \"text\": \"[");
        append_str(&mut t, author);
        append_str(&mut t, "] ");
        append_chars(&mut t, &ascii);
        append_str(&mut t, "\" }");
        append_str(&mut y, "say [");
        append_str(&mut y, author);
        append_str(&mut y, "] ");
        append_chars(&mut y, &c);
    }
    let tellraw = string_of(&t);
    let say = string_of(&y);
    assert(session_views(out@) =~= Seq::<(Seq<char>, Seq<char>)>::empty());
    push_sends(&mut out, servers, &c, &tellraw);
    push_sends(&mut out, generics, &c, &say);
    out
}

/// Whether the leading `=` check cannot read the message (see `calc_requests`).
pub fn first_char_is_cut(content: &str) -> (r: bool)
    ensures
        r == first_char_cut(content@),
{
    let c = chars_of(content);
    utf8_longer_than(&c, 2) && utf8_width_exec(c[0]) > 1
}

/// The calculations a Discord message asks for, in order: in the bridge channel,
/// the rest of a message that starts with `=` (and is longer than two bytes),
/// then, in a relayed chat line (one that starts with `[` once the non-ASCII
/// characters are dropped), what follows the `> ` of its first `> =`, when that
/// lies before the end of the message.
pub fn calc_requests(content: &str, channel_id: u64, chat_bridge_id: u64) -> (r: Vec<String>)
    requires
        !first_char_cut(content@),
    ensures
        string_views(r@) == calc_requests_spec(content@, channel_id, chat_bridge_id),
{
    let c = chars_of(content);
    let a = ascii_only_exec(&c);
    let mut out: Vec<String> = Vec::new();
    let ghost spec = calc_requests_spec(content@, channel_id, chat_bridge_id);
    let long = utf8_longer_than(&c, 2);
    if long && c[0] == '=' && channel_id == chat_bridge_id {
        let rest = copy_range(&c, 1, c.len());
        out.push(string_of(&rest));
    }
    let ghost first = string_views(out@);
    let open_bracket = chars_of("[");
    let marker = chars_of("> =");
    proof {
        reveal_strlit("> =");
    }
    if has_prefix_exec(&a, &open_bracket) && channel_id == chat_bridge_id {
        match find_exec(&c, &marker) {
            None => {},
            Some(_) => {
                match find_exec(&a, &marker) {
                    // ruled out: the marker is ASCII, so it survives in the ASCII part
                    None => {
                        proof {
                            lemma_find_from(c@, marker@, 0);
                            let i = find_first(c@, marker@)->0;
                            assert(all_ascii(marker@));
                            lemma_ascii_pattern_survives(c@, marker@, i);
                        }
                    },
                    Some(s) => {
                        proof {
                            lemma_find_from(a@, marker@, 0);
                            assert(occurs_at(a@, marker@, s as int));
                            assert(marker@.len() == 3);
                        }
                        let alen = a.len();
                        assert(s + 3 <= alen);
                        if utf8_longer_than(&c, s + 2) {
                            let rest = copy_range(&a, s + 2, alen);
                            out.push(string_of(&rest));
                        }
                    },
                }
            },
        }
    }
    assert(string_views(out@) =~= spec);
    out
}

/// Whether the command word of an addressed message cannot be cut out (see `bot_command`).
pub fn command_word_is_cut(content: &str, prefix: &str) -> (r: bool)
    ensures
        r == command_word_cut(content@, prefix@),
{
    let c = chars_of(content);
    let a = ascii_only_exec(&c);
    let p = chars_of(prefix);
    if a.len() < 2 {
        return false;
    }
    let mut first: Vec<char> = Vec::new();
    first.push(a[0]);
    if !chars_eq(&p, &first) {
        return false;
    }
    if find_char_exec(&a, ' ').is_none() {
        return false;
    }
    match find_char_exec(&c, ' ') {
        None => {
            proof {
                lemma_space_survives_removal(c@, a@);
            }
            false
        },
        Some(b) => b == 0 || utf8_width_exec(c[0]) > 1,
    }
}

/// The bot command a Discord message asks for: the ASCII part of the message
/// must be at least two characters long and begin with the prefix; the word
/// after the prefix, up to the first space, names the command.
pub fn bot_command(content: &str, prefix: &str) -> (r: Option<BotCommand>)
    requires
        !command_word_cut(content@, prefix@),
    ensures
        r == bot_command_spec(content@, prefix@),
{
    let c = chars_of(content);
    let a = ascii_only_exec(&c);
    let p = chars_of(prefix);
    if a.len() < 2 {
        return None;
    }
    let mut first: Vec<char> = Vec::new();
    first.push(a[0]);
    if !chars_eq(&p, &first) {
        return None;
    }
    let word: Vec<char>;
    if find_char_exec(&a, ' ').is_some() {
        proof {
            lemma_find_from(a@, seq![' '], 0);
            let i = find_char(a@, ' ')->0;
            crate::text::lemma_ascii_only(c@);
            assert(a@.subrange(i, i + 1)[0] == a@[i]);
        }
        let b = match find_char_exec(&c, ' ') {
            Some(b) => b,
            // ruled out: a space of the ASCII part is a space of the message
            None => {
                proof {
                    lemma_find_from(c@, seq![' '], 0);
                    lemma_space_survives_removal(c@, a@);
                }
                return None;
            },
        };
        proof {
            lemma_find_from(c@, seq![' '], 0);
        }
        word = copy_range(&c, 1, b);
    } else {
        word = copy_range(&a, 1, a.len());
    }
    let cmd = if chars_eq(&word, &chars_of("backup")) {
        BotCommand::Backup
    } else if chars_eq(&word, &chars_of("ping")) {
        BotCommand::Ping
    } else if chars_eq(&word, &chars_of("help")) {
        BotCommand::Help
    } else if chars_eq(&word, &chars_of("recompile")) {
        BotCommand::Recompile
    } else if chars_eq(&word, &chars_of("execute")) {
        BotCommand::Execute
    } else if chars_eq(&word, &chars_of("syscheck")) {
        BotCommand::Syscheck
    } else if chars_eq(&word, &chars_of("script")) {
        BotCommand::Script
    } else {
        BotCommand::Invalid
    };
    Some(cmd)
}

/// A space in the ASCII part of a message is a space of the message.
proof fn lemma_space_survives_removal(c: Seq<char>, a: Seq<char>)
    requires
        a == ascii_only(c),
        find_char(a, ' ') is Some,
    ensures
        find_char(c, ' ') is Some,
    decreases c.len(),
{
    lemma_find_from(a, seq![' '], 0);
    lemma_find_from(c, seq![' '], 0);
    let i = find_char(a, ' ')->0;
    assert(a.subrange(i, i + 1)[0] == a[i]);
    assert(seq![' '][0] == ' ');
    assert(a[i] == ' ');
    lemma_ascii_only_member(c, i);
    let j = choose|j: int| 0 <= j < c.len() && c[j] == a[i];
    assert(c.subrange(j, j + 1) =~= seq![' ']);
    assert(occurs_at(c, seq![' '], j));
}

/// Each character of the ASCII part of a message is a character of the message.
proof fn lemma_ascii_only_member(c: Seq<char>, i: int)
    requires
        0 <= i < ascii_only(c).len(),
    ensures
        exists|j: int| 0 <= j < c.len() && c[j] == ascii_only(c)[i],
    decreases c.len(),
{
    crate::text::lemma_ascii_only(c.drop_last());
    if i < ascii_only(c.drop_last()).len() {
        lemma_ascii_only_member(c.drop_last(), i);
        let j = choose|j: int| 0 <= j < c.drop_last().len() && c.drop_last()[j] == ascii_only(
            c.drop_last(),
        )[i];
        assert(c[j] == c.drop_last()[j]);
    } else {
        assert(c[c.len() - 1] == ascii_only(c)[i]);
    }
}

} // verus!
