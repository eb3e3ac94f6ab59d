//! The bot commands that act on the host: who may use them, how their
//! arguments are read, what they send to the game sessions and what they
//! answer on Discord.
use vstd::prelude::*;
use crate::text::{
    append_chars, append_str, chars_of, contains_seq, contains_word_str, find_exec, join_from,
    join_with, replace_all, split_exec, split_on, string_of, views,
};
use crate::chat::{send_keys, tmux_keys};
use crate::log::string_views;
use crate::bridge::SessionMessage;

verus! {

// ---------------------------------------------------------------------------
// Shared
// ---------------------------------------------------------------------------

/// Whether the Discord user `author` is one of the users with shell access.
pub fn authorized(ids: &Vec<u64>, author: u64) -> (r: bool)
    ensures
        r == ids@.contains(author),
{
    let n = ids.len();
    for i in 0..n
        invariant
            n == ids@.len(),
            forall|j: int| 0 <= j < i ==> ids@[j] != author,
    {
        if ids[i] == author {
            assert(ids@[i as int] == author);
            return true;
        }
    }
    false
}

/// The words of a command message (split at every space).
pub open spec fn words(content: Seq<char>) -> Seq<Seq<char>> {
    split_on(content, ' ')
}

/// The decimal digits of `n`.
pub open spec fn decimal(n: nat) -> Seq<char>
    decreases n,
{
    if n < 10 {
        seq![digit(n)]
    } else {
        decimal(n / 10).push(digit(n % 10))
    }
}

/// The character of a decimal digit.
pub open spec fn digit(d: nat) -> char {
    ((d + 48) as u32) as char
}

/// Appends the decimal digits of `n` to `out`.
pub fn push_decimal(out: &mut Vec<char>, n: u64)
    ensures
        final(out)@ == old(out)@ + decimal(n as nat),
    decreases n,
{
    if n >= 10 {
        push_decimal(out, n / 10);
    }
    let d = (n % 10) as u32;
    let c: char = if d == 0 {
        '0'
    } else if d == 1 {
        '1'
    } else if d == 2 {
        '2'
    } else if d == 3 {
        '3'
    } else if d == 4 {
        '4'
    } else if d == 5 {
        '5'
    } else if d == 6 {
        '6'
    } else if d == 7 {
        '7'
    } else if d == 8 {
        '8'
    } else {
        '9'
    };
    assert(c == digit((n % 10) as nat));
    out.push(c);
}

/// The text of a list of strings joined with `sep`.
fn join_strings(v: &Vec<String>, sep: char) -> (out: Vec<char>)
    ensures
        out@ == join_with(string_views(v@), sep),
{
    let n = v.len();
    let mut pieces: Vec<Vec<char>> = Vec::new();
    for i in 0..n
        invariant
            n == v@.len(),
            views(pieces@) == string_views(v@).take(i as int),
    {
        let ghost before = views(pieces@);
        pieces.push(chars_of(v[i].as_str()));
        assert(views(pieces@) =~= before.push(v[i as int]@));
        assert(string_views(v@).take(i + 1) =~= string_views(v@).take(i as int).push(
            v[i as int]@,
        ));
    }
    assert(string_views(v@).take(n as int) =~= string_views(v@));
    let out = join_from(&pieces, 0, sep);
    assert(views(pieces@).skip(0) =~= views(pieces@));
    out
}

// ---------------------------------------------------------------------------
// execute
// ---------------------------------------------------------------------------

/// The reply and the keys sent by the `execute` command.
pub struct ExecutePlan {
    /// The Discord reply.
    pub reply: String,
    /// The keys sent to a session.
    pub send: Option<SessionMessage>,
}

/// What `execute` does: an authorized user names a session and a command
/// (`<prefix>execute <session> <command...>`); the command is typed into the
/// session when the session is one of the known ones.
pub open spec fn execute_spec(
    content: Seq<char>,
    author: u64,
    ids: Seq<u64>,
    servers: Seq<Seq<char>>,
    generics: Seq<Seq<char>>,
) -> (Seq<char>, Option<(Seq<char>, Seq<char>)>) {
    if !ids.contains(author) {
        ("invalid permissions"@, None)
    } else {
        let target = words(content)[1];
        let cmd = join_with(words(content).skip(2), ' ');
        if !servers.contains(target) && !generics.contains(target) {
            ("session does not exist!"@, None)
        } else {
            ("command sent to session"@, Some((target, tmux_keys(cmd))))
        }
    }
}

/// Users without shell access reach no session through `execute`: they are
/// only told that they lack permission.
pub proof fn law_execute_needs_permission(
    content: Seq<char>,
    author: u64,
    ids: Seq<u64>,
    servers: Seq<Seq<char>>,
    generics: Seq<Seq<char>>,
)
    requires
        !ids.contains(author),
    ensures
        execute_spec(content, author, ids, servers, generics) == ("invalid permissions"@, None::<
            (Seq<char>, Seq<char>),
        >),
{
}

/// An authorized user reaches every known session, Minecraft or generic: when
/// the second word of the message names one of them, the rest of the message
/// (its words from the third on, joined by spaces, without line breaks) is
/// typed into that session and the reply is "command sent to session"; when it
/// names neither kind of session, nothing is sent and the reply says so.
pub proof fn law_execute_reaches_known_sessions(
    content: Seq<char>,
    author: u64,
    ids: Seq<u64>,
    servers: Seq<Seq<char>>,
    generics: Seq<Seq<char>>,
)
    requires
        ids.contains(author),
        words(content).len() >= 2,
    ensures
        (servers.contains(words(content)[1]) || generics.contains(words(content)[1]))
            ==> execute_spec(content, author, ids, servers, generics) == (
            "command sent to session"@,
            Some(
                (
                    words(content)[1],
                    replace_all(join_with(words(content).skip(2), ' '), seq!['\n'], Seq::empty()),
                ),
            ),
        ),
        !(servers.contains(words(content)[1]) || generics.contains(words(content)[1]))
            ==> execute_spec(content, author, ids, servers, generics) == (
            "session does not exist!"@,
            None::<(Seq<char>, Seq<char>)>,
        ),
{
}

/// A message that names no session (it has a single word).
pub open spec fn lacks_argument(content: Seq<char>) -> bool {
    words(content).len() < 2
}

/// Whether a command message has a single word (see `execute`).
pub fn lacks_argument_exec(content: &str) -> (r: bool)
    ensures
        r == lacks_argument(content@),
{
    let w = split_exec(&chars_of(content), ' ');
    w.len() < 2
}

/// Whether `name` is one of `list`.
fn contains_string(list: &Vec<String>, name: &Vec<char>) -> (r: bool)
    ensures
        r == string_views(list@).contains(name@),
{
    let n = list.len();
    for i in 0..n
        invariant
            n == list@.len(),
            forall|j: int| 0 <= j < i ==> string_views(list@)[j] != name@,
    {
        let c = chars_of(list[i].as_str());
        if crate::text::chars_eq(&c, name) {
            assert(string_views(list@)[i as int] == name@);
            return true;
        }
    }
    false
}

/// The `execute` command: an authorized user (one of `ids`) types a command into
/// a session with `<prefix>execute <session> <command...>`; the reply says
/// whether the command was sent, whether the session does not exist, or that
/// the user lacks permission.
pub fn execute(
    content: &str,
    author: u64,
    ids: &Vec<u64>,
    servers: &Vec<String>,
    generics: &Vec<String>,
) -> (r: ExecutePlan)
    requires
        ids@.contains(author) ==> !lacks_argument(content@),
    ensures
        ({
            let s = execute_spec(
                content@,
                author,
                ids@,
                string_views(servers@),
                string_views(generics@),
            );
            &&& r.reply@ == s.0
            &&& match r.send {
                Some(m) => s.1 == Some((m.session@, m.keys@)),
                None => s.1 is None,
            }
        }),
{
    if !authorized(ids, author) {
        return ExecutePlan { reply: string_of(&chars_of("invalid permissions")), send: None };
    }
    let w = split_exec(&chars_of(content), ' ');
    let target = &w[1];
    let cmd = join_from(&w, 2, ' ');
    if !contains_string(servers, target) && !contains_string(generics, target) {
        return ExecutePlan { reply: string_of(&chars_of("session does not exist!")), send: None };
    }
    let cmd_s = string_of(&cmd);
    let keys = send_keys(cmd_s.as_str());
    ExecutePlan {
        reply: string_of(&chars_of("command sent to session")),
        send: Some(SessionMessage { session: string_of(target), keys }),
    }
}

// ---------------------------------------------------------------------------
// script
// ---------------------------------------------------------------------------

/// What the `script` command does to the script lock file.
pub enum LockAction {
    Keep,
    Remove,
    Create,
}

/// The outcome of the `script` command.
pub struct ScriptOutcome {
    /// What happens to the lock file.
    pub action: LockAction,
    /// The Discord reply, if any.
    pub reply: Option<String>,
}

/// The lock action and reply of `script`, given whether the lock file exists.
pub open spec fn script_spec(content: Seq<char>, author: u64, ids: Seq<u64>, lock_exists: bool) -> (
    LockAction,
    Option<Seq<char>>,
) {
    let w = words(content);
    if ids.contains(author) && w.contains("unlock"@) {
        if !lock_exists {
            (LockAction::Keep, Some("script lock file does not exist! Skipping futher steps"@))
        } else {
            (LockAction::Remove, Some("removed lock file"@))
        }
    } else if ids.contains(author) && w.contains("lock"@) {
        if lock_exists {
            (LockAction::Keep, Some("script lock file already exist! Skipping futher steps"@))
        } else {
            (LockAction::Create, Some("created script lock file"@))
        }
    } else if w.len() > 1 {
        (LockAction::Keep, None)
    } else {
        (
            LockAction::Keep,
            Some(
                "script lock file: "@ + if lock_exists {
                    "true"@
                } else {
                    "false"@
                },
            ),
        )
    }
}

/// Only users with shell access can set or remove the script lock.
pub proof fn law_script_lock_needs_permission(
    content: Seq<char>,
    author: u64,
    ids: Seq<u64>,
    lock_exists: bool,
)
    requires
        !ids.contains(author),
    ensures
        script_spec(content, author, ids, lock_exists).0 == LockAction::Keep,
{
}

/// The `script` command: an authorized user removes the script lock with
/// `script unlock` or sets it with `script lock`; a bare `script` reports
/// whether the lock is set. `lock_exists` tells whether the lock file exists.
pub fn script(content: &str, author: u64, ids: &Vec<u64>, lock_exists: bool) -> (r: ScriptOutcome)
    ensures
        ({
            let s = script_spec(content@, author, ids@, lock_exists);
            &&& r.action == s.0
            &&& match r.reply {
                Some(m) => s.1 == Some(m@),
                None => s.1 is None,
            }
        }),
{
    let w = split_exec(&chars_of(content), ' ');
    let ok = authorized(ids, author);
    let text: Vec<char>;
    let action: LockAction;
    if ok && contains_word_str(&w, "unlock") {
        if !lock_exists {
            action = LockAction::Keep;
            text = chars_of("script lock file does not exist! Skipping futher steps");
        } else {
            action = LockAction::Remove;
            text = chars_of("removed lock file");
        }
    } else if ok && contains_word_str(&w, "lock") {
        if lock_exists {
            action = LockAction::Keep;
            text = chars_of("script lock file already exist! Skipping futher steps");
        } else {
            action = LockAction::Create;
            text = chars_of("created script lock file");
        }
    } else if w.len() > 1 {
        return ScriptOutcome { action: LockAction::Keep, reply: None };
    } else {
        action = LockAction::Keep;
        let mut t: Vec<char> = Vec::new();
        append_str(&mut t, "script lock file: ");
        if lock_exists {
            append_str(&mut t, "true");
        } else {
            append_str(&mut t, "false");
        }
        text = t;
    }
    ScriptOutcome { action, reply: Some(string_of(&text)) }
}

// ---------------------------------------------------------------------------
// sessions
// ---------------------------------------------------------------------------

/// The listing of the sessions.
pub open spec fn sessions_listing(servers: Seq<Seq<char>>, generics: Seq<Seq<char>>) -> Seq<char> {
    "```MC sessions:\n"@ + join_with(servers, '\n') + "\n\nGeneric sessions:\n"@ + join_with(
        generics,
        '\n',
    ) + "```"@
}

/// The `sessions` command: when the message contains `ls`, the listing of the
/// Minecraft and generic sessions, one per line.
pub fn sessions(content: &str, servers: &Vec<String>, generics: &Vec<String>) -> (r: Option<String>)
    ensures
        match r {
            Some(m) => contains_seq(content@, "ls"@) && m@ == sessions_listing(
                string_views(servers@),
                string_views(generics@),
            ),
            None => !contains_seq(content@, "ls"@),
        },
{
    let c = chars_of(content);
    let ls = chars_of("ls");
    if find_exec(&c, &ls).is_none() {
        return None;
    }
    let mut out: Vec<char> = Vec::new();
    append_str(&mut out, "```MC sessions:\n");
    let s = join_strings(servers, '\n');
    append_chars(&mut out, &s);
    append_str(&mut out, "\n\nGeneric sessions:\n");
    let g = join_strings(generics, '\n');
    append_chars(&mut out, &g);
    append_str(&mut out, "```");
    Some(string_of(&out))
}

// ---------------------------------------------------------------------------
// recompile
// ---------------------------------------------------------------------------

/// What the `recompile` command needs to know before it acts.
pub struct RecompilePlan {
    /// Whether the user may recompile.
    pub authorized: bool,
    /// Whether the old sources are copied aside first (`backup`).
    pub backup: bool,
    /// Whether the sources are cloned again (`git`).
    pub git: bool,
    /// The tmux session in which the build runs.
    pub session: String,
    /// Keys that move the build session into the build directory.
    pub enter_build_dir: String,
    /// Where the old sources are copied.
    pub old_src_dir: String,
    /// Keys that copy the old sources aside.
    pub copy_old_src: String,
    /// The changelog of the new sources.
    pub new_changelog: String,
    /// Keys that start the build.
    pub build: String,
    /// The binary the build produces.
    pub result_bin: String,
    /// The binary that runs now.
    pub old_bin: String,
    /// Keys that install the new binary.
    pub install: String,
}

/// The paths and keys of `recompile` for build directory `b`.
pub open spec fn recompile_enter(b: Seq<char>) -> Seq<char> {
    tmux_keys("cd "@ + b)
}

/// Where the old sources are copied.
pub open spec fn recompile_old_src(b: Seq<char>) -> Seq<char> {
    b + "/old_src"@
}

/// Keys that copy the old sources aside.
pub open spec fn recompile_copy(b: Seq<char>) -> Seq<char> {
    tmux_keys("cp -r "@ + b + "/hypnos_core "@ + recompile_old_src(b))
}

/// The changelog of the new sources.
pub open spec fn recompile_changelog(b: Seq<char>) -> Seq<char> {
    b + "/hypnos_core/changelog"@
}

/// The binary the build produces.
pub open spec fn recompile_result_bin(b: Seq<char>) -> Seq<char> {
    b + "/hypnos_core/target/release/hypnos_core"@
}

/// The binary that runs now.
pub open spec fn recompile_old_bin(b: Seq<char>) -> Seq<char> {
    b + "/../hypnos_core"@
}

/// The `recompile` command: who may use it, its options (`backup`, `git`) and
/// the paths and keys derived from the build directory.
pub fn recompile(content: &str, author: u64, ids: &Vec<u64>, build_dir: &str) -> (r: RecompilePlan)
    ensures
        r.authorized == ids@.contains(author),
        r.backup == words(content@).contains("backup"@),
        r.git == words(content@).contains("git"@),
        r.session@ == "recompile"@,
        r.enter_build_dir@ == recompile_enter(build_dir@),
        r.old_src_dir@ == recompile_old_src(build_dir@),
        r.copy_old_src@ == recompile_copy(build_dir@),
        r.new_changelog@ == recompile_changelog(build_dir@),
        r.build@ == tmux_keys("cd hypnos_core && cargo build --release"@),
        r.result_bin@ == recompile_result_bin(build_dir@),
        r.old_bin@ == recompile_old_bin(build_dir@),
        r.install@ == tmux_keys("cp target/release/hypnos_core ../.."@),
{
    let w = split_exec(&chars_of(content), ' ');
    let mut enter: Vec<char> = Vec::new();
    append_str(&mut enter, "cd ");
    append_str(&mut enter, build_dir);
    let mut old_src: Vec<char> = Vec::new();
    append_str(&mut old_src, build_dir);
    append_str(&mut old_src, "/old_src");
    let mut copy: Vec<char> = Vec::new();
    append_str(&mut copy, "cp -r ");
    append_str(&mut copy, build_dir);
    append_str(&mut copy, "/hypnos_core ");
    append_chars(&mut copy, &old_src);
    let mut changelog: Vec<char> = Vec::new();
    append_str(&mut changelog, build_dir);
    append_str(&mut changelog, "/hypnos_core/changelog");
    let mut result_bin: Vec<char> = Vec::new();
    append_str(&mut result_bin, build_dir);
    append_str(&mut result_bin, "/hypnos_core/target/release/hypnos_core");
    let mut old_bin: Vec<char> = Vec::new();
    append_str(&mut old_bin, build_dir);
    append_str(&mut old_bin, "/../hypnos_core");
    RecompilePlan {
        authorized: authorized(ids, author),
        backup: contains_word_str(&w, "backup"),
        git: contains_word_str(&w, "git"),
        session: string_of(&chars_of("recompile")),
        enter_build_dir: send_keys(string_of(&enter).as_str()),
        old_src_dir: string_of(&old_src),
        copy_old_src: send_keys(string_of(&copy).as_str()),
        new_changelog: string_of(&changelog),
        build: send_keys("cd hypnos_core && cargo build --release"),
        result_bin: string_of(&result_bin),
        old_bin: string_of(&old_bin),
        install: send_keys("cp target/release/hypnos_core ../.."),
    }
}

/// Whether a new line of the new changelog, one at index `old_count` (the
/// length of the running version's changelog) or later, asks for a change to
/// the configuration (contains `*update`).
pub open spec fn changelog_blocks_spec(lines: Seq<Seq<char>>, old_count: int) -> bool {
    exists|i: int| old_count <= i < lines.len() && contains_seq(#[trigger] lines[i], "*update"@)
}

/// Whether the new changelog asks for a change to the configuration before the
/// bot may be rebuilt: one of its new lines (from index `old_count`, the length
/// of the running version's changelog, on) contains `*update`.
pub fn changelog_blocks(lines: &Vec<String>, old_count: usize) -> (r: bool)
    ensures
        r == changelog_blocks_spec(string_views(lines@), old_count as int),
{
    let n = lines.len();
    let marker = chars_of("*update");
    let mut i: usize = old_count;
    while i < n
        invariant
            n == lines@.len(),
            old_count <= i,
            marker@ == "*update"@,
            forall|j: int| old_count <= j < i ==> !contains_seq(
                #[trigger] string_views(lines@)[j],
                "*update"@,
            ),
        decreases n - i,
    {
        let c = chars_of(lines[i].as_str());
        assert(string_views(lines@)[i as int] == c@);
        if find_exec(&c, &marker).is_some() {
            return true;
        }
        i = i + 1;
    }
    false
}

/// Where a `recompile` command stands; `old_count` is the length of the
/// running version's changelog.
pub enum RecompileState {
    Start,
    /// The build session was opened.
    Opened,
    /// The session was moved into the build directory.
    InBuildDir,
    /// The running version's changelog is being counted.
    Counting,
    /// The directory for the old sources is being made.
    MakingOldSrc { old_count: usize },
    /// The old sources are being copied aside.
    CopyingOld { old_count: usize },
    /// The sources are being cloned.
    Cloning { old_count: usize },
    /// The new changelog is being read.
    Reading { old_count: usize },
    /// The new changes are being shown; whether they block the build.
    Showing { blocked: bool },
    /// The build was started.
    Building,
    /// The binaries are being compared.
    Comparing,
    /// The running binary is being removed.
    RemovingOld,
    /// The new binary is being installed.
    Installing,
    /// The command is over.
    Finished,
}

/// What the last action of a `recompile` command brought.
pub enum RecompileEvent {
    /// The command starts.
    Begin,
    /// The last action is done.
    Done,
    /// The running version's changelog has this many lines.
    OldChangelog { lines: usize },
    /// The lines of the new changelog.
    NewChangelog { lines: Vec<String> },
    /// The modification times of the new build and of the running binary, in
    /// nanoseconds since the Unix epoch.
    Binaries { built: u128, running: u128 },
}

/// What a `recompile` command does next.
pub enum RecompileAction {
    /// Open a tmux session with this name.
    OpenSession(String),
    /// Type keys (second) into a session (first).
    TypeKeys(String, String),
    /// Count the lines of this file (`OldChangelog`).
    CountLines(String),
    /// Make this directory when it does not exist.
    EnsureDir(String),
    /// Clone the sources from this repository.
    Clone(String),
    /// Read the lines of this file (`NewChangelog`).
    ReadLines(String),
    /// Show these new changelog lines.
    ShowChanges(Vec<String>),
    /// Read the modification times of the new build (first) and of the running
    /// binary (second) (`Binaries`).
    CompareBinaries(String, String),
    /// Remove this file.
    RemoveFile(String),
    /// Send this reply; the command is over.
    Finish(String),
    /// Nothing (an event that does not fit the state).
    Nothing,
}

/// What a `recompile` command does next, as a specification.
pub enum RecompileStep {
    OpenSession(Seq<char>),
    TypeKeys(Seq<char>, Seq<char>),
    CountLines(Seq<char>),
    EnsureDir(Seq<char>),
    Clone(Seq<char>),
    ReadLines(Seq<char>),
    ShowChanges(Seq<Seq<char>>),
    CompareBinaries(Seq<char>, Seq<char>),
    RemoveFile(Seq<char>),
    Finish(Seq<char>),
    Nothing,
}

impl View for RecompileAction {
    type V = RecompileStep;

    open spec fn view(&self) -> RecompileStep {
        match self {
            RecompileAction::OpenSession(s) => RecompileStep::OpenSession(s@),
            RecompileAction::TypeKeys(s, k) => RecompileStep::TypeKeys(s@, k@),
            RecompileAction::CountLines(p) => RecompileStep::CountLines(p@),
            RecompileAction::EnsureDir(p) => RecompileStep::EnsureDir(p@),
            RecompileAction::Clone(u) => RecompileStep::Clone(u@),
            RecompileAction::ReadLines(p) => RecompileStep::ReadLines(p@),
            RecompileAction::ShowChanges(l) => RecompileStep::ShowChanges(string_views(l@)),
            RecompileAction::CompareBinaries(a, b) => RecompileStep::CompareBinaries(a@, b@),
            RecompileAction::RemoveFile(p) => RecompileStep::RemoveFile(p@),
            RecompileAction::Finish(m) => RecompileStep::Finish(m@),
            RecompileAction::Nothing => RecompileStep::Nothing,
        }
    }
}

/// The lines of a changelog from index `old_count` on.
pub open spec fn new_lines(lines: Seq<Seq<char>>, old_count: int) -> Seq<Seq<char>> {
    if old_count <= lines.len() {
        lines.skip(old_count)
    } else {
        Seq::empty()
    }
}

/// The repository the sources are cloned from.
pub open spec fn source_repository() -> Seq<char> {
    "https://github.com/NotCreative21/hypnos_core.git"@
}

/// The changelog of the running version.
pub open spec fn running_changelog() -> Seq<char> {
    "./changelog"@
}

/// The cloning of the sources (when asked for) and the reading of the new changelog.
pub open spec fn recompile_after_backup(plan: RecompilePlan, old_count: usize) -> (
    RecompileState,
    RecompileStep,
) {
    if plan.git {
        (RecompileState::Cloning { old_count }, RecompileStep::Clone(source_repository()))
    } else {
        (RecompileState::Reading { old_count }, RecompileStep::ReadLines(plan.new_changelog@))
    }
}

/// The copy of the old sources (when asked for) and what follows it.
pub open spec fn recompile_after_count(plan: RecompilePlan, old_count: usize) -> (
    RecompileState,
    RecompileStep,
) {
    if plan.backup {
        (RecompileState::MakingOldSrc { old_count }, RecompileStep::EnsureDir(plan.old_src_dir@))
    } else {
        recompile_after_backup(plan, old_count)
    }
}

/// The step of a `recompile` command that follows `event` in `state`, for `plan`.
pub open spec fn recompile_step_spec(
    plan: RecompilePlan,
    state: RecompileState,
    event: RecompileEvent,
) -> (RecompileState, RecompileStep) {
    match (state, event) {
        (RecompileState::Start, RecompileEvent::Begin) => if !plan.authorized {
            (RecompileState::Finished, RecompileStep::Finish("invalid permissions"@))
        } else {
            (RecompileState::Opened, RecompileStep::OpenSession(plan.session@))
        },
        (RecompileState::Opened, RecompileEvent::Done) => (
            RecompileState::InBuildDir,
            RecompileStep::TypeKeys(plan.session@, plan.enter_build_dir@),
        ),
        (RecompileState::InBuildDir, RecompileEvent::Done) => (
            RecompileState::Counting,
            RecompileStep::CountLines(running_changelog()),
        ),
        (RecompileState::Counting, RecompileEvent::OldChangelog { lines }) => recompile_after_count(
            plan,
            lines,
        ),
        (RecompileState::MakingOldSrc { old_count }, RecompileEvent::Done) => (
            RecompileState::CopyingOld { old_count },
            RecompileStep::TypeKeys(plan.session@, plan.copy_old_src@),
        ),
        (RecompileState::CopyingOld { old_count }, RecompileEvent::Done) => recompile_after_backup(
            plan,
            old_count,
        ),
        (RecompileState::Cloning { old_count }, RecompileEvent::Done) => (
            RecompileState::Reading { old_count },
            RecompileStep::ReadLines(plan.new_changelog@),
        ),
        (RecompileState::Reading { old_count }, RecompileEvent::NewChangelog { lines }) => (
            RecompileState::Showing {
                blocked: changelog_blocks_spec(string_views(lines@), old_count as int),
            },
            RecompileStep::ShowChanges(new_lines(string_views(lines@), old_count as int)),
        ),
        (RecompileState::Showing { blocked }, RecompileEvent::Done) => if blocked {
            (
                RecompileState::Finished,
                RecompileStep::Finish(
                    "error: compilation aborted, changes to config must be applied"@,
                ),
            )
        } else {
            (RecompileState::Building, RecompileStep::TypeKeys(plan.session@, plan.build@))
        },
        (RecompileState::Building, RecompileEvent::Done) => (
            RecompileState::Comparing,
            RecompileStep::CompareBinaries(plan.result_bin@, plan.old_bin@),
        ),
        (RecompileState::Comparing, RecompileEvent::Binaries { built, running }) => if built
            > running {
            (RecompileState::RemovingOld, RecompileStep::RemoveFile(plan.old_bin@))
        } else {
            (
                RecompileState::Finished,
                RecompileStep::Finish(
                    "compilation was attempted, however, an error occured or the resulting binary is not 'new'"@,
                ),
            )
        },
        (RecompileState::RemovingOld, RecompileEvent::Done) => (
            RecompileState::Installing,
            RecompileStep::TypeKeys(plan.session@, plan.install@),
        ),
        (RecompileState::Installing, RecompileEvent::Done) => (
            RecompileState::Finished,
            RecompileStep::Finish("compilation successful"@),
        ),
        _ => (RecompileState::Finished, RecompileStep::Nothing),
    }
}

/// The cloning of the sources (when asked for) and the reading of the new changelog.
fn after_backup_exec(plan: &RecompilePlan, old_count: usize) -> (r: (RecompileState, RecompileAction))
    ensures
        r.0 == recompile_after_backup(*plan, old_count).0,
        r.1@ == recompile_after_backup(*plan, old_count).1,
{
    if plan.git {
        (
            RecompileState::Cloning { old_count },
            RecompileAction::Clone(string_of(&chars_of("https://github.com/NotCreative21/hypnos_core.git"))),
        )
    } else {
        (RecompileState::Reading { old_count }, RecompileAction::ReadLines(plan.new_changelog.clone()))
    }
}

/// The copy of the old sources (when asked for) and what follows it.
fn after_count_exec(plan: &RecompilePlan, old_count: usize) -> (r: (RecompileState, RecompileAction))
    ensures
        r.0 == recompile_after_count(*plan, old_count).0,
        r.1@ == recompile_after_count(*plan, old_count).1,
{
    if plan.backup {
        (RecompileState::MakingOldSrc { old_count }, RecompileAction::EnsureDir(plan.old_src_dir.clone()))
    } else {
        after_backup_exec(plan, old_count)
    }
}

/// The `recompile` command, one step at a time, for `plan` (see `recompile`):
/// a user without permission is told so; otherwise a build session is opened
/// and moved into the build directory, the running version's changelog is
/// counted, the old sources are copied aside (`backup`) and the sources cloned
/// (`git`) when asked for, the new changelog's new lines are shown, and the
/// build stops there when one of them contains `*update`; else the build runs,
/// and when the new binary is newer than the running one, the running one is
/// removed and the new one installed. The reply tells which of these happened.
pub fn recompile_step(plan: &RecompilePlan, state: RecompileState, event: RecompileEvent) -> (r: (
    RecompileState,
    RecompileAction,
))
    ensures
        r.0 == recompile_step_spec(*plan, state, event).0,
        r.1@ == recompile_step_spec(*plan, state, event).1,
{
    match (state, event) {
        (RecompileState::Start, RecompileEvent::Begin) => if !plan.authorized {
            (RecompileState::Finished, RecompileAction::Finish(string_of(&chars_of("invalid permissions"))))
        } else {
            (RecompileState::Opened, RecompileAction::OpenSession(plan.session.clone()))
        },
        (RecompileState::Opened, RecompileEvent::Done) => (
            RecompileState::InBuildDir,
            RecompileAction::TypeKeys(plan.session.clone(), plan.enter_build_dir.clone()),
        ),
        (RecompileState::InBuildDir, RecompileEvent::Done) => (
            RecompileState::Counting,
            RecompileAction::CountLines(string_of(&chars_of("./changelog"))),
        ),
        (RecompileState::Counting, RecompileEvent::OldChangelog { lines }) => after_count_exec(
            plan,
            lines,
        ),
        (RecompileState::MakingOldSrc { old_count }, RecompileEvent::Done) => (
            RecompileState::CopyingOld { old_count },
            RecompileAction::TypeKeys(plan.session.clone(), plan.copy_old_src.clone()),
        ),
        (RecompileState::CopyingOld { old_count }, RecompileEvent::Done) => after_backup_exec(
            plan,
            old_count,
        ),
        (RecompileState::Cloning { old_count }, RecompileEvent::Done) => (
            RecompileState::Reading { old_count },
            RecompileAction::ReadLines(plan.new_changelog.clone()),
        ),
        (RecompileState::Reading { old_count }, RecompileEvent::NewChangelog { lines }) => {
            let blocked = changelog_blocks(&lines, old_count);
            let mut shown: Vec<String> = Vec::new();
            let n = lines.len();
            if old_count <= n {
                let mut i: usize = old_count;
                assert(string_views(shown@) =~= string_views(lines@).subrange(
                    old_count as int,
                    old_count as int,
                ));
                while i < n
                    invariant
                        n == lines@.len(),
                        old_count <= i <= n,
                        string_views(shown@) == string_views(lines@).subrange(
                            old_count as int,
                            i as int,
                        ),
                    decreases n - i,
                {
                    let ghost before = string_views(shown@);
                    shown.push(lines[i].clone());
                    assert(string_views(shown@) =~= before.push(lines[i as int]@));
                    assert(string_views(lines@).subrange(old_count as int, i + 1)
                        =~= string_views(lines@).subrange(old_count as int, i as int).push(
                        lines[i as int]@,
                    ));
                    i = i + 1;
                }
                assert(string_views(lines@).subrange(old_count as int, n as int)
                    =~= string_views(lines@).skip(old_count as int));
            } else {
                assert(string_views(shown@) =~= Seq::<Seq<char>>::empty());
            }
            (RecompileState::Showing { blocked }, RecompileAction::ShowChanges(shown))
        },
        (RecompileState::Showing { blocked }, RecompileEvent::Done) => if blocked {
            (
                RecompileState::Finished,
                RecompileAction::Finish(
                    string_of(&chars_of("error: compilation aborted, changes to config must be applied")),
                ),
            )
        } else {
            (RecompileState::Building, RecompileAction::TypeKeys(plan.session.clone(), plan.build.clone()))
        },
        (RecompileState::Building, RecompileEvent::Done) => (
            RecompileState::Comparing,
            RecompileAction::CompareBinaries(plan.result_bin.clone(), plan.old_bin.clone()),
        ),
        (RecompileState::Comparing, RecompileEvent::Binaries { built, running }) => if built
            > running {
            (RecompileState::RemovingOld, RecompileAction::RemoveFile(plan.old_bin.clone()))
        } else {
            (
                RecompileState::Finished,
                RecompileAction::Finish(
                    string_of(
                        &chars_of(
                            "compilation was attempted, however, an error occured or the resulting binary is not 'new'",
                        ),
                    ),
                ),
            )
        },
        (RecompileState::RemovingOld, RecompileEvent::Done) => (
            RecompileState::Installing,
            RecompileAction::TypeKeys(plan.session.clone(), plan.install.clone()),
        ),
        (RecompileState::Installing, RecompileEvent::Done) => (
            RecompileState::Finished,
            RecompileAction::Finish(string_of(&chars_of("compilation successful"))),
        ),
        _ => (RecompileState::Finished, RecompileAction::Nothing),
    }
}

/// Only the new changelog lines are checked: the line count of the running
/// version's changelog, reported by `OldChangelog`, is carried unchanged (with
/// or without `backup` and `git`) into the reading of the new changelog, and
/// nothing else sets it; the lines then shown are exactly those at that index
/// or later, and the build is blocked exactly when one of them contains
/// `*update`.
pub proof fn law_recompile_checks_only_new_lines(
    plan: RecompilePlan,
    state: RecompileState,
    event: RecompileEvent,
)
    ensures
        ({
            let next = recompile_step_spec(plan, state, event).0;
            let step = recompile_step_spec(plan, state, event).1;
            &&& event matches RecompileEvent::OldChangelog { lines: n } ==> (state is Counting ==> (
            next == (RecompileState::MakingOldSrc { old_count: n }) || next == (
            RecompileState::Cloning { old_count: n }) || next == (RecompileState::Reading {
                old_count: n,
            })))
            &&& state matches RecompileState::MakingOldSrc { old_count: c } ==> (next is Finished
                || next == (RecompileState::CopyingOld { old_count: c }))
            &&& state matches RecompileState::CopyingOld { old_count: c } ==> (next is Finished
                || next == (RecompileState::Cloning { old_count: c }) || next == (
            RecompileState::Reading { old_count: c }))
            &&& state matches RecompileState::Cloning { old_count: c } ==> (next is Finished
                || next == (RecompileState::Reading { old_count: c }))
            &&& (next is MakingOldSrc || next is CopyingOld || next is Cloning || next is Reading)
                ==> (state is Counting || state is MakingOldSrc || state is CopyingOld
                || state is Cloning)
            &&& state matches RecompileState::Reading { old_count: c } ==> (
            event matches RecompileEvent::NewChangelog { lines } ==> (
            next == (RecompileState::Showing {
                blocked: exists|i: int|
                    c <= i < lines@.len() && contains_seq(#[trigger] lines@[i]@, "*update"@),
            }) && step == RecompileStep::ShowChanges(
                if c <= lines@.len() {
                    string_views(lines@).subrange(c as int, lines@.len() as int)
                } else {
                    Seq::empty()
                },
            )))
        }),
{
    match (state, event) {
        (RecompileState::Reading { old_count: c }, RecompileEvent::NewChangelog { lines }) => {
            let v = string_views(lines@);
            assert(changelog_blocks_spec(v, c as int) == exists|i: int|
                c <= i < lines@.len() && contains_seq(#[trigger] lines@[i]@, "*update"@)) by {
                if changelog_blocks_spec(v, c as int) {
                    let i = choose|i: int| c <= i < v.len() && contains_seq(#[trigger] v[i], "*update"@);
                    assert(v[i] == lines@[i]@);
                }
                if exists|i: int| c <= i < lines@.len() && contains_seq(#[trigger] lines@[i]@, "*update"@) {
                    let i = choose|i: int| c <= i < lines@.len() && contains_seq(#[trigger] lines@[i]@, "*update"@);
                    assert(v[i] == lines@[i]@);
                }
            }
            if c <= lines@.len() {
                assert(v.skip(c as int) =~= v.subrange(c as int, lines@.len() as int));
            }
        },
        _ => {},
    }
}

} // verus!
