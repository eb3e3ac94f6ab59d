//! Minecraft chat text and the tmux side of the chat bridge: removal of the
//! in-game formatting codes, the keys typed into a session, the in-game
//! command whitelist and the pipe files that mirror a session's output.
use vstd::prelude::*;
use crate::text::{
    append_str, chars_eq, chars_of, lemma_remove_all_shorter, lemma_remove_same_len,
    lemma_replace_absent, lemma_replace_removes_char, occurs_at, replace_all, replace_exec,
    string_of,
};

verus! {

/// The section sign that starts a Minecraft formatting code.
pub open spec fn section_sign() -> char {
    '\u{a7}'
}

/// The letters that follow the section sign in the formatting codes that are
/// removed, in the order in which they are removed.
pub open spec fn format_code_letters() -> Seq<char> {
    seq![
        '0', '1', '2', '3', '4', '5', '6', '7', '8', '9', 'a', 'b', 'c', 'd', 'e', 'f', 'g',
        'k', 'l', 'm', 'n', 'o', 'r',
    ]
}

/// The formatting code with the given letter.
pub open spec fn format_code(letter: char) -> Seq<char> {
    seq![section_sign(), letter]
}

/// `s` after the first `k` formatting codes have been removed, one after the other.
pub open spec fn strip_codes_upto(s: Seq<char>, k: int) -> Seq<char>
    decreases k,
{
    if k <= 0 {
        s
    } else {
        replace_all(
            strip_codes_upto(s, k - 1),
            format_code(format_code_letters()[k - 1]),
            Seq::<char>::empty(),
        )
    }
}

/// One pass over `s` that removes each formatting code in turn, code after code.
pub open spec fn strip_formatting(s: Seq<char>) -> Seq<char> {
    strip_codes_upto(s, 23)
}

/// `s` holds a formatting code at index `i`: a section sign followed by one of
/// the code letters.
pub open spec fn code_at(s: Seq<char>, i: int) -> bool {
    &&& 0 <= i
    &&& i + 1 < s.len()
    &&& s[i] == section_sign()
    &&& format_code_letters().contains(s[i + 1])
}

/// `s` holds no formatting code.
pub open spec fn no_format_codes(s: Seq<char>) -> bool {
    forall|i: int| !#[trigger] code_at(s, i)
}

/// Chat text with every formatting code removed: passes of removal are repeated
/// until one changes nothing, since removing a code can join a section sign to
/// a code letter that followed it.
pub open spec fn clean_formatting(s: Seq<char>) -> Seq<char>
    decreases s.len(),
{
    if strip_formatting(s) == s {
        s
    } else {
        proof {
            lemma_changing_pass_shortens(s);
        }
        clean_formatting(strip_formatting(s))
    }
}

/// The keys typed into a tmux session for a message: the message without line breaks.
pub open spec fn tmux_keys(message: Seq<char>) -> Seq<char> {
    replace_all(message, seq!['\n'], Seq::<char>::empty())
}

/// The in-game command run for a whitelisted chat command `cmd` with argument `arg`.
pub open spec fn ingame_command(cmd: Seq<char>, arg: Seq<char>) -> Seq<char> {
    if cmd == "s"@ || cmd == "score"@ {
        "scoreboard objectives setdisplay sidebar "@ + arg
    } else {
        "list"@
    }
}

/// The file that mirrors the output of the tmux session of a server.
pub open spec fn pipe_file(server: Seq<char>) -> Seq<char> {
    "/tmp/"@ + server + "-HypnosCore"@
}

/// The shell command that tmux runs to mirror a session into its pipe file.
pub open spec fn pipe_command(server: Seq<char>) -> Seq<char> {
    "cat >"@ + pipe_file(server)
}

/// Removing the formatting codes never lengthens a text.
pub proof fn lemma_strip_codes_shorter(s: Seq<char>, k: int)
    ensures
        strip_codes_upto(s, k).len() <= s.len(),
    decreases k,
{
    if k > 0 {
        lemma_strip_codes_shorter(s, k - 1);
        lemma_remove_all_shorter(
            strip_codes_upto(s, k - 1),
            format_code(format_code_letters()[k - 1]),
        );
    }
}

/// A text without the section sign is left as it is.
pub proof fn lemma_strip_codes_plain(s: Seq<char>, k: int)
    requires
        forall|i: int| 0 <= i < s.len() ==> s[i] != section_sign(),
    ensures
        strip_codes_upto(s, k) == s,
    decreases k,
{
    if k > 0 {
        lemma_strip_codes_plain(s, k - 1);
        lemma_replace_absent(
            s,
            format_code(format_code_letters()[k - 1]),
            Seq::<char>::empty(),
        );
    }
}

/// A removal pass that keeps the length of a text changes nothing, and the first
/// `k` codes do not occur in the text.
pub proof fn lemma_strip_codes_same_len(s: Seq<char>, k: int)
    requires
        0 <= k <= 23,
        strip_codes_upto(s, k).len() == s.len(),
    ensures
        strip_codes_upto(s, k) == s,
        forall|j: int, i: int|
            0 <= j < k ==> !#[trigger] occurs_at(s, format_code(format_code_letters()[j]), i),
    decreases k,
{
    if k > 0 {
        let code = format_code(format_code_letters()[k - 1]);
        let prev = strip_codes_upto(s, k - 1);
        lemma_strip_codes_shorter(s, k - 1);
        lemma_remove_all_shorter(prev, code);
        lemma_strip_codes_same_len(s, k - 1);
        lemma_remove_same_len(prev, code);
    }
}

/// A pass that changes a text makes it shorter.
pub proof fn lemma_changing_pass_shortens(s: Seq<char>)
    requires
        strip_formatting(s) != s,
    ensures
        strip_formatting(s).len() < s.len(),
{
    lemma_strip_codes_shorter(s, 23);
    if strip_formatting(s).len() == s.len() {
        lemma_strip_codes_same_len(s, 23);
    }
}

/// A text that a removal pass leaves as it is holds no formatting code.
pub proof fn lemma_unchanged_has_no_codes(s: Seq<char>)
    requires
        strip_formatting(s) == s,
    ensures
        no_format_codes(s),
{
    lemma_strip_codes_same_len(s, 23);
    assert forall|i: int| !#[trigger] code_at(s, i) by {
        if code_at(s, i) {
            let j = format_code_letters().index_of(s[i + 1]);
            assert(format_code_letters()[j] == s[i + 1]);
            assert(s.subrange(i, i + 2) =~= format_code(format_code_letters()[j]));
            assert(occurs_at(s, format_code(format_code_letters()[j]), i));
        }
    }
}

/// The cleaned text is left as it is by a further removal pass.
pub proof fn lemma_clean_is_settled(s: Seq<char>)
    ensures
        strip_formatting(clean_formatting(s)) == clean_formatting(s),
    decreases s.len(),
{
    if strip_formatting(s) != s {
        lemma_changing_pass_shortens(s);
        lemma_clean_is_settled(strip_formatting(s));
    }
}

/// Cleaning chat text leaves no formatting code in it.
pub proof fn law_no_format_codes_remain(s: Seq<char>)
    ensures
        no_format_codes(clean_formatting(s)),
{
    lemma_clean_is_settled(s);
    lemma_unchanged_has_no_codes(clean_formatting(s));
}

/// Cleaning already cleaned text changes nothing.
pub proof fn law_cleaning_is_idempotent(s: Seq<char>)
    ensures
        clean_formatting(clean_formatting(s)) == clean_formatting(s),
{
    lemma_clean_is_settled(s);
}

/// Cleaning chat text never makes it longer.
pub proof fn law_formatting_never_lengthens(s: Seq<char>)
    ensures
        clean_formatting(s).len() <= s.len(),
    decreases s.len(),
{
    if strip_formatting(s) != s {
        lemma_changing_pass_shortens(s);
        law_formatting_never_lengthens(strip_formatting(s));
    }
}

/// Chat text without any section sign passes through the cleaning unchanged.
pub proof fn law_plain_text_unchanged(s: Seq<char>)
    requires
        forall|i: int| 0 <= i < s.len() ==> s[i] != section_sign(),
    ensures
        clean_formatting(s) == s,
{
    lemma_strip_codes_plain(s, 23);
}

/// The keys typed into a session never contain a line break.
pub proof fn law_tmux_keys_single_line(message: Seq<char>)
    ensures
        forall|i: int| 0 <= i < tmux_keys(message).len() ==> #[trigger] tmux_keys(message)[i]
            != '\n',
{
    lemma_replace_removes_char(message, '\n');
}

/// One removal pass over `msg`: each formatting code in turn, code after code.
pub fn strip_formatting_exec(msg: &Vec<char>) -> (out: Vec<char>)
    ensures
        out@ == strip_formatting(msg@),
{
    let letters: Vec<char> = vec![
        '0', '1', '2', '3', '4', '5', '6', '7', '8', '9', 'a', 'b', 'c', 'd', 'e', 'f', 'g',
        'k', 'l', 'm', 'n', 'o', 'r',
    ];
    assert(letters@ == format_code_letters());
    let mut out: Vec<char> = msg.clone();
    assert(out@ == msg@);
    for k in 0..23
        invariant
            letters@ == format_code_letters(),
            out@ == strip_codes_upto(msg@, k as int),
    {
        let mut code: Vec<char> = Vec::new();
        code.push('\u{a7}');
        code.push(letters[k]);
        assert(code@ == format_code(format_code_letters()[k as int]));
        let empty: Vec<char> = Vec::new();
        out = replace_exec(&out, &code, &empty);
    }
    out
}

/// `msg` with every formatting code removed: removal passes are repeated until
/// one changes nothing.
pub fn clean_formatting_exec(msg: &Vec<char>) -> (out: Vec<char>)
    ensures
        out@ == clean_formatting(msg@),
        no_format_codes(out@),
{
    let mut cur: Vec<char> = msg.clone();
    loop
        invariant
            clean_formatting(cur@) == clean_formatting(msg@),
        decreases cur@.len(),
    {
        let next = strip_formatting_exec(&cur);
        if chars_eq(&next, &cur) {
            proof {
                law_no_format_codes_remain(cur@);
            }
            return cur;
        }
        proof {
            lemma_changing_pass_shortens(cur@);
        }
        cur = next;
    }
}

/// Removes all the Minecraft formatting codes (a section sign followed by one of
/// `0`-`9`, `a`-`g`, `k`-`o`, `r`) from chat text; no code is left in the result.
pub fn replace_formatting(msg: String) -> (out: String)
    ensures
        out@ == clean_formatting(msg@),
        no_format_codes(out@),
{
    let v = chars_of(msg.as_str());
    let w = clean_formatting_exec(&v);
    string_of(&w)
}

/// The keys typed into a tmux session to send `message`: line breaks are removed,
/// since each one would submit the line early.
pub fn send_keys(message: &str) -> (keys: String)
    ensures
        keys@ == tmux_keys(message@),
{
    let v = chars_of(message);
    let mut nl: Vec<char> = Vec::new();
    nl.push('\n');
    let empty: Vec<char> = Vec::new();
    let w = replace_exec(&v, &nl, &empty);
    string_of(&w)
}

/// The in-game command for chat command `cmd` with argument `arg`: both `s` and
/// `score` set the sidebar scoreboard, anything else lists the players.
pub fn handle_command(cmd: &str, arg: &str) -> (out: String)
    ensures
        out@ == ingame_command(cmd@, arg@),
{
    let c = chars_of(cmd);
    let s_word = chars_of("s");
    let score_word = chars_of("score");
    let mut out: Vec<char> = Vec::new();
    if chars_eq(&c, &s_word) || chars_eq(&c, &score_word) {
        append_str(&mut out, "scoreboard objectives setdisplay sidebar ");
        append_str(&mut out, arg);
    } else {
        append_str(&mut out, "list");
    }
    string_of(&out)
}

/// The file that mirrors the output of the tmux session `server`.
pub fn pipe_path(server: &str) -> (path: String)
    ensures
        path@ == pipe_file(server@),
{
    let mut out: Vec<char> = Vec::new();
    append_str(&mut out, "/tmp/");
    append_str(&mut out, server);
    append_str(&mut out, "-HypnosCore");
    string_of(&out)
}

/// The shell command that tmux runs to mirror the session `server` into its pipe file.
pub fn pipe_shell_command(server: &str) -> (cmd: String)
    ensures
        cmd@ == pipe_command(server@),
{
    let mut out: Vec<char> = Vec::new();
    append_str(&mut out, "cat >");
    let path = pipe_path(server);
    append_str(&mut out, path.as_str());
    assert(out@ == "cat >"@ + pipe_file(server@));
    string_of(&out)
}

} // verus!
