//! The backup manager: the `backup` command's reading of its arguments, the
//! listing of stored backups, the names of new archives and the retention rule.
use vstd::prelude::*;
use crate::text::{
    append_chars, append_str, char_index_of_byte, char_index_of_byte_exec, chars_eq, chars_of,
    contains_word_str, join_with, replace_all, replace_exec, split_exec, string_of,
    views, copy_range, lemma_char_index_bounds,
};
use crate::commands::{authorized, decimal, push_decimal, words};
use crate::log::{opt_view, string_views};

verus! {

// ---------------------------------------------------------------------------
// The `backup` command
// ---------------------------------------------------------------------------

/// The index of the last occurrence of `x` in `s` (0 when there is none).
pub open spec fn last_index_of(s: Seq<Seq<char>>, x: Seq<char>) -> int
    decreases s.len(),
{
    if s.len() == 0 {
        0
    } else if s.last() == x {
        s.len() - 1
    } else {
        last_index_of(s.drop_last(), x)
    }
}

/// The file of a stored backup.
pub open spec fn backup_file(store: Seq<char>, name: Seq<char>) -> Seq<char> {
    store + "/HypnosCore-"@ + name
}

/// What the `rm` part of a `backup` command removes, as a specification.
pub enum RemovalSpec {
    /// The message has fewer than three words: the command stops there.
    TooShort,
    /// `rm` is the last word of a longer message: no backup is named.
    NameMissing,
    /// The backup named after the last `rm`, and its file.
    Target(Seq<char>, Seq<char>),
}

/// What the `rm` part of the message `content` removes from `store`.
pub open spec fn removal_spec(content: Seq<char>, store: Seq<char>) -> RemovalSpec {
    let w = words(content);
    if w.len() < 3 {
        RemovalSpec::TooShort
    } else if last_index_of(w, "rm"@) + 1 >= w.len() {
        RemovalSpec::NameMissing
    } else {
        let name = w[last_index_of(w, "rm"@) + 1];
        RemovalSpec::Target(name, backup_file(store, name))
    }
}

/// What the `rm` part of a `backup` command removes.
pub enum Removal {
    TooShort,
    NameMissing,
    /// The backup's name and its file.
    Target(String, String),
}

impl View for Removal {
    type V = RemovalSpec;

    open spec fn view(&self) -> RemovalSpec {
        match self {
            Removal::TooShort => RemovalSpec::TooShort,
            Removal::NameMissing => RemovalSpec::NameMissing,
            Removal::Target(n, p) => RemovalSpec::Target(n@, p@),
        }
    }
}

/// What a `backup` command asks for.
pub struct BackupRequest {
    /// Whether the user may use the backup system.
    pub authorized: bool,
    /// `ls`: list the stored backups.
    pub list: bool,
    /// `rm`: remove a stored backup.
    pub remove: bool,
    /// `new`: make a backup now.
    pub create: bool,
    /// `clear-lock`: remove the backup lock file.
    pub clear_lock: bool,
    /// What `rm` removes.
    pub removal: Removal,
}

/// The index of the last occurrence of the word `x` in `w` (0 when there is none).
fn last_index(w: &Vec<Vec<char>>, x: &str) -> (r: usize)
    ensures
        r == last_index_of(views(w@), x@),
        w@.len() > 0 ==> r < w@.len(),
{
    let xv = chars_of(x);
    let n = w.len();
    let mut i: usize = n;
    assert(views(w@).take(n as int) =~= views(w@));
    while i > 0
        invariant
            i <= n,
            n == w@.len(),
            xv@ == x@,
            last_index_of(views(w@), x@) == last_index_of(views(w@).take(i as int), x@),
        decreases i,
    {
        let ghost t = views(w@).take(i as int);
        assert(t.drop_last() =~= views(w@).take(i - 1));
        assert(t.last() == w[i - 1]@);
        if chars_eq(&w[i - 1], &xv) {
            return i - 1;
        }
        i = i - 1;
    }
    assert(views(w@).take(0) =~= Seq::<Seq<char>>::empty());
    0
}

/// The `backup` command's message: whether the user (one of `ids`) may use it,
/// which of its sub-commands (`ls`, `rm`, `new`, `clear-lock`) it holds, and the
/// backup in `backup_store` that `rm` names (the word after the last `rm`).
pub fn backup(content: &str, author: u64, ids: &Vec<u64>, backup_store: &str) -> (r: BackupRequest)
    ensures
        r.authorized == ids@.contains(author),
        r.list == words(content@).contains("ls"@),
        r.remove == words(content@).contains("rm"@),
        r.create == words(content@).contains("new"@),
        r.clear_lock == words(content@).contains("clear-lock"@),
        r.removal@ == removal_spec(content@, backup_store@),
{
    let w = split_exec(&chars_of(content), ' ');
    let removal = if w.len() < 3 {
        Removal::TooShort
    } else {
        let idx = last_index(&w, "rm");
        if idx + 1 >= w.len() {
            Removal::NameMissing
        } else {
            let name = &w[idx + 1];
            let mut path: Vec<char> = Vec::new();
            append_str(&mut path, backup_store);
            append_str(&mut path, "/HypnosCore-");
            append_chars(&mut path, name);
            Removal::Target(string_of(name), string_of(&path))
        }
    };
    BackupRequest {
        authorized: authorized(ids, author),
        list: contains_word_str(&w, "ls"),
        remove: contains_word_str(&w, "rm"),
        create: contains_word_str(&w, "new"),
        clear_lock: contains_word_str(&w, "clear-lock"),
        removal,
    }
}

// ---------------------------------------------------------------------------
// Listing
// ---------------------------------------------------------------------------

/// The age of the youngest backup: the smallest of `ages` that is below `keep_time`,
/// else `keep_time`.
pub open spec fn youngest_spec(keep_time: u64, ages: Seq<u64>) -> u64
    decreases ages.len(),
{
    if ages.len() == 0 {
        keep_time
    } else {
        let y = youngest_spec(keep_time, ages.drop_last());
        if ages.last() < y {
            ages.last()
        } else {
            y
        }
    }
}

/// The age (in seconds) of the youngest stored backup, given the ages of the
/// backups whose creation time is known: the smallest age below `keep_time`,
/// else `keep_time`.
pub fn youngest_backup(keep_time: u64, ages: &Vec<u64>) -> (r: u64)
    ensures
        r == youngest_spec(keep_time, ages@),
        r <= keep_time,
        forall|i: int| 0 <= i < ages@.len() ==> r <= ages@[i],
{
    let n = ages.len();
    let mut y: u64 = keep_time;
    for i in 0..n
        invariant
            n == ages@.len(),
            y == youngest_spec(keep_time, ages@.take(i as int)),
            y <= keep_time,
            forall|j: int| 0 <= j < i ==> y <= ages@[j],
    {
        assert(ages@.take(i + 1).drop_last() =~= ages@.take(i as int));
        if ages[i] < y {
            y = ages[i];
        }
    }
    assert(ages@.take(n as int) =~= ages@);
    y
}

/// The listing of the stored backups.
pub open spec fn listing_spec(entries: Seq<Seq<char>>, youngest: u64, btime: u64) -> Seq<char> {
    if entries.len() == 0 {
        "no backups to display!"@
    } else {
        "```Backups are displayed in UTC time: (YYYY/DD/MM/HH/mm/SS)\n"@ + join_with(entries, '\n')
            + "\nLast Backup: "@ + decimal(youngest as nat) + "s ago Next Backup in: "@ + decimal(
            (btime - youngest) as nat,
        ) + "s```"@
    }
}

/// The `ls` reply of the `backup` command: the entries one per line, when the
/// last backup was made (`youngest` seconds ago) and when the next one is due
/// (`btime - youngest` seconds from now); a short note when there is none.
pub fn backup_listing(entries: &Vec<String>, youngest: u64, btime: u64) -> (r: String)
    requires
        entries@.len() > 0 ==> youngest <= btime,
    ensures
        r@ == listing_spec(string_views(entries@), youngest, btime),
{
    if entries.len() == 0 {
        return string_of(&chars_of("no backups to display!"));
    }
    let mut pieces: Vec<Vec<char>> = Vec::new();
    let n = entries.len();
    for i in 0..n
        invariant
            n == entries@.len(),
            views(pieces@) == string_views(entries@).take(i as int),
    {
        let ghost before = views(pieces@);
        pieces.push(chars_of(entries[i].as_str()));
        assert(views(pieces@) =~= before.push(entries[i as int]@));
        assert(string_views(entries@).take(i + 1) =~= string_views(entries@).take(i as int).push(
            entries[i as int]@,
        ));
    }
    assert(string_views(entries@).take(n as int) =~= string_views(entries@));
    assert(views(pieces@).skip(0) =~= views(pieces@));
    let mut out: Vec<char> = Vec::new();
    append_str(&mut out, "```Backups are displayed in UTC time: (YYYY/DD/MM/HH/mm/SS)\n");
    let joined = crate::text::join_from(&pieces, 0, '\n');
    append_chars(&mut out, &joined);
    append_str(&mut out, "\nLast Backup: ");
    push_decimal(&mut out, youngest);
    append_str(&mut out, "s ago Next Backup in: ");
    push_decimal(&mut out, btime - youngest);
    append_str(&mut out, "s```");
    string_of(&out)
}

/// The name shown for a stored backup file: its file name from byte 11 on
/// (after `HypnosCore-`).
pub fn backup_display_name(file_name: &str) -> (r: String)
    requires
        char_index_of_byte(file_name@, 11) is Some,
    ensures
        r@ == file_name@.skip(char_index_of_byte(file_name@, 11)->0),
{
    let c = chars_of(file_name);
    let k = match char_index_of_byte_exec(&c, 11) {
        Some(k) => k,
        // ruled out by the precondition
        None => {
            return string_of(&c);
        },
    };
    proof {
        lemma_char_index_bounds(c@, 11);
    }
    let out = copy_range(&c, k, c.len());
    string_of(&out)
}

/// Whether an incoming file name can be shown (see `backup_display_name`).
pub fn display_name_ok(file_name: &str) -> (r: bool)
    ensures
        r == (char_index_of_byte(file_name@, 11) is Some),
{
    let c = chars_of(file_name);
    char_index_of_byte_exec(&c, 11).is_some()
}

// ---------------------------------------------------------------------------
// New backups
// ---------------------------------------------------------------------------

/// The name of an archive made at the time `stamp` (as chrono prints a UTC
/// time), with `:` and spaces turned into `_`.
pub open spec fn archive_name(store: Seq<char>, stamp: Seq<char>) -> Seq<char> {
    store + "/HypnosCore-"@ + replace_all(replace_all(stamp, ":"@, "_"@), " "@, "_"@)
        + ".tar.gz"@
}

/// The system clock read as whole seconds and nanoseconds since the Unix epoch,
/// from std's `SystemTime::now().duration_since(UNIX_EPOCH)`; `None` when the
/// clock reads a time before the epoch. What the clock reads is not stated.
#[verifier::external_body]
fn clock_since_epoch() -> (r: Option<(u64, u32)>)
    ensures
        r matches Some(t) ==> t.1 < 1_000_000_000,
{
    match std::time::SystemTime::now().duration_since(std::time::UNIX_EPOCH) {
        Ok(d) => Some((d.as_secs(), d.subsec_nanos())),
        Err(_) => None,
    }
}

/// What chrono prints for the UTC time `secs` seconds and `nsecs` nanoseconds
/// after the Unix epoch (`None` when chrono cannot represent it).
pub uninterp spec fn chrono_utc_text(secs: i64, nsecs: u32) -> Option<Seq<char>>;

/// chrono's `DateTime::<Utc>::from_timestamp(secs, nsecs)` printed with its
/// `Display` impl (for example `2024-01-31 12:00:00.123456789 UTC`); `None` when
/// `from_timestamp` returns `None` (a time out of chrono's range). The text is
/// named, not described.
#[verifier::external_body]
fn utc_text(secs: i64, nsecs: u32) -> (r: Option<String>)
    ensures
        opt_view(r) == chrono_utc_text(secs, nsecs),
{
    match chrono::DateTime::from_timestamp(secs, nsecs) {
        Some(t) => Some(t.to_string()),
        None => None,
    }
}

/// The text of a clock reading (whole seconds and nanoseconds since the Unix
/// epoch) as chrono prints that UTC time; `None` when there is no reading, when
/// the seconds do not fit in an `i64`, or when chrono cannot represent the time.
pub open spec fn clock_stamp(reading: Option<(u64, u32)>) -> Option<Seq<char>> {
    match reading {
        Some((secs, nsecs)) => if secs <= i64::MAX {
            chrono_utc_text(secs as i64, nsecs)
        } else {
            None
        },
        None => None,
    }
}

/// The UTC time of a clock reading as chrono prints it (see `clock_stamp`).
pub fn stamp_of(reading: Option<(u64, u32)>) -> (r: Option<String>)
    ensures
        opt_view(r) == clock_stamp(reading),
{
    match reading {
        None => None,
        Some((secs, nsecs)) => {
            if secs > 9_223_372_036_854_775_807u64 {
                None
            } else {
                utc_text(secs as i64, nsecs)
            }
        },
    }
}

/// The current UTC time as chrono prints it: the text of whatever the system
/// clock reads, or `None` when the clock reads a time that cannot be printed
/// (before 1970, or beyond chrono's range). Which time the clock reads is not
/// stated.
pub fn utc_now_stamp() -> (r: Option<String>)
    ensures
        exists|reading: Option<(u64, u32)>|
            (reading matches Some(t) ==> t.1 < 1_000_000_000) && opt_view(r) == clock_stamp(
                reading,
            ),
{
    let reading = clock_since_epoch();
    let r = stamp_of(reading);
    proof {
        assert((reading matches Some(t) ==> t.1 < 1_000_000_000) && opt_view(r) == clock_stamp(
            reading,
        ));
    }
    r
}

/// The archive of a backup made at the time `stamp`, in `backup_store`.
pub fn archive_path_at(backup_store: &str, stamp: &str) -> (r: String)
    ensures
        r@ == archive_name(backup_store@, stamp@),
{
    let s = chars_of(stamp);
    let colon = chars_of(":");
    let space = chars_of(" ");
    let under = chars_of("_");
    proof {
        reveal_strlit(":");
        reveal_strlit(" ");
    }
    let a = replace_exec(&s, &colon, &under);
    let b = replace_exec(&a, &space, &under);
    let mut out: Vec<char> = Vec::new();
    append_str(&mut out, backup_store);
    append_str(&mut out, "/HypnosCore-");
    append_chars(&mut out, &b);
    append_str(&mut out, ".tar.gz");
    string_of(&out)
}

/// Where the copy of the backed-up directory is kept in the store.
pub open spec fn root_copy_dir(store: Seq<char>) -> Seq<char> {
    store + "/root_copy/"@
}

/// The copy of the backed-up directory that is archived.
pub open spec fn root_copy_src(store: Seq<char>) -> Seq<char> {
    store + "/root_copy"@
}

/// The paths of the copy kept in a backup store.
pub struct RootCopy {
    /// The directory the backed-up directory is copied into.
    pub dir: String,
    /// What is archived.
    pub archived: String,
}

/// The paths of the copy kept in `backup_store`.
pub fn root_copy(backup_store: &str) -> (r: RootCopy)
    ensures
        r.dir@ == root_copy_dir(backup_store@),
        r.archived@ == root_copy_src(backup_store@),
{
    let mut d: Vec<char> = Vec::new();
    append_str(&mut d, backup_store);
    append_str(&mut d, "/root_copy/");
    let mut a: Vec<char> = Vec::new();
    append_str(&mut a, backup_store);
    append_str(&mut a, "/root_copy");
    RootCopy { dir: string_of(&d), archived: string_of(&a) }
}


/// What happened in the last step of making a backup.
pub enum BackupEvent {
    /// The backup starts; whether the backup lock file exists.
    Begin { lock_exists: bool },
    /// The backed-up directory was copied into the store (or the copy failed).
    RootCopied { ok: bool },
    /// The clock was read (see `utc_now_stamp`).
    ClockRead { stamp: Option<String> },
    /// The archive was written (or writing it failed).
    Archived { ok: bool },
    /// The old backups were deleted.
    Pruned,
}

/// What to do next when making a backup.
pub enum BackupAction {
    /// Stop, leaving everything as it is, with this reply.
    Stop(String),
    /// Create the lock file and copy the backed-up directory into the store.
    LockAndCopy,
    /// Read the clock for the archive's name.
    ReadClock,
    /// Write the archive of the copy to this file.
    Archive(String),
    /// Delete the backups older than the keep time.
    Prune,
    /// Remove the lock file and finish with this reply.
    Finish(String),
}

/// What to do next when making a backup, as a specification.
pub enum BackupStep {
    Stop(Seq<char>),
    LockAndCopy,
    ReadClock,
    Archive(Seq<char>),
    Prune,
    Finish(Seq<char>),
}

impl View for BackupAction {
    type V = BackupStep;

    open spec fn view(&self) -> BackupStep {
        match self {
            BackupAction::Stop(m) => BackupStep::Stop(m@),
            BackupAction::LockAndCopy => BackupStep::LockAndCopy,
            BackupAction::ReadClock => BackupStep::ReadClock,
            BackupAction::Archive(p) => BackupStep::Archive(p@),
            BackupAction::Prune => BackupStep::Prune,
            BackupAction::Finish(m) => BackupStep::Finish(m@),
        }
    }
}

/// The step that follows an event when making a backup in `store`.
pub open spec fn backup_step_spec(store: Seq<char>, event: BackupEvent) -> BackupStep {
    match event {
        BackupEvent::Begin { lock_exists } => if lock_exists {
            BackupStep::Stop("Lock file exists, skipping backup"@)
        } else {
            BackupStep::LockAndCopy
        },
        BackupEvent::RootCopied { ok } => if ok {
            BackupStep::ReadClock
        } else {
            BackupStep::Stop("failed to update root copy"@)
        },
        BackupEvent::ClockRead { stamp } => match stamp {
            Some(t) => BackupStep::Archive(archive_name(store, t@)),
            None => BackupStep::Finish("failed to read the clock, skipping backup"@),
        },
        BackupEvent::Archived { ok } => if ok {
            BackupStep::Prune
        } else {
            BackupStep::Finish("Successfully created new backup"@)
        },
        BackupEvent::Pruned => BackupStep::Finish("Successfully created new backup"@),
    }
}

/// Making a backup in `backup_store`, one step at a time: a backup is skipped
/// while the lock file exists; otherwise the lock is taken and the directory
/// copied into the store; a failed copy stops the backup (the lock stays); the
/// archive is named after the current time (a clock that cannot be read ends
/// the backup); after the archive is written the old backups are pruned, which
/// is skipped when writing failed; the lock is then released.
pub fn backup_step(backup_store: &str, event: BackupEvent) -> (r: BackupAction)
    ensures
        r@ == backup_step_spec(backup_store@, event),
{
    match event {
        BackupEvent::Begin { lock_exists } => if lock_exists {
            BackupAction::Stop(string_of(&chars_of("Lock file exists, skipping backup")))
        } else {
            BackupAction::LockAndCopy
        },
        BackupEvent::RootCopied { ok } => if ok {
            BackupAction::ReadClock
        } else {
            BackupAction::Stop(string_of(&chars_of("failed to update root copy")))
        },
        BackupEvent::ClockRead { stamp } => match stamp {
            Some(t) => BackupAction::Archive(archive_path_at(backup_store, t.as_str())),
            None => BackupAction::Finish(
                string_of(&chars_of("failed to read the clock, skipping backup")),
            ),
        },
        BackupEvent::Archived { ok } => if ok {
            BackupAction::Prune
        } else {
            BackupAction::Finish(string_of(&chars_of("Successfully created new backup")))
        },
        BackupEvent::Pruned => BackupAction::Finish(
            string_of(&chars_of("Successfully created new backup")),
        ),
    }
}

// ---------------------------------------------------------------------------
// The `backup` command, step by step
// ---------------------------------------------------------------------------

/// Where a `backup` command stands.
pub enum BackupCommandState {
    /// Nothing done yet.
    Start,
    /// The store is being listed.
    Listing,
    /// The listing was sent.
    Listed,
    /// Whether the file to remove exists is being checked.
    CheckingTarget,
    /// The user was told that the file to remove does not exist.
    TargetMissing,
    /// The file is being removed.
    Removing,
    /// The removal was reported.
    Removed,
    /// The user was told that a backup starts.
    Announced,
    /// A backup is being made.
    Creating,
    /// The backup's outcome was reported.
    Created,
    /// Whether the lock file exists is being checked.
    CheckingLock,
    /// The lock file is being removed.
    Unlocking,
    /// The command is over.
    Done,
}

/// What the last action of a `backup` command brought.
pub enum BackupCommandEvent {
    /// The command starts: whether the backup directory and the backup store
    /// exist, and whether it was given by a Discord message (else it is a
    /// scheduled backup).
    Begin { dirs_exist: bool, from_message: bool },
    /// The last action is done.
    Done,
    /// The store was listed: one entry per stored file, and the ages in seconds
    /// of the files whose creation time is known.
    Listed { entries: Vec<String>, ages: Vec<u64> },
    /// Whether the file to remove exists.
    TargetChecked { exists: bool },
    /// The file was removed, or removing it failed with this error.
    RemoveResult { error: Option<String> },
    /// A backup was made, with this outcome.
    BackupMade { reply: String },
    /// Whether the backup lock file exists.
    LockChecked { exists: bool },
}

/// What a `backup` command does next.
pub enum BackupCommandAction {
    /// Write this to the error output; the command is over.
    Log(String),
    /// Make a backup now without any reply, then collect exited processes; the
    /// command is over.
    Scheduled,
    /// Send this reply, then go on (`Done`).
    Reply(String),
    /// Send this reply; the command is over.
    ReplyAndEnd(String),
    /// The command is over.
    End,
    /// The command cannot go on, for this reason: the program stops here.
    Halt(String),
    /// List the store (`Listed`).
    ListStore,
    /// Check whether this file exists (`TargetChecked`).
    CheckPath(String),
    /// Remove this file (`RemoveResult`).
    RemoveFile(String),
    /// Make a backup (`BackupMade`).
    MakeBackup,
    /// Check whether this lock file exists (`LockChecked`).
    CheckLock(String),
    /// Remove this lock file, then go on (`Done`).
    RemoveLock(String),
}

/// What a `backup` command does next, as a specification.
pub enum BackupCommandStep {
    Log(Seq<char>),
    Scheduled,
    Reply(Seq<char>),
    ReplyAndEnd(Seq<char>),
    End,
    Halt(Seq<char>),
    ListStore,
    CheckPath(Seq<char>),
    RemoveFile(Seq<char>),
    MakeBackup,
    CheckLock(Seq<char>),
    RemoveLock(Seq<char>),
}

impl View for BackupCommandAction {
    type V = BackupCommandStep;

    open spec fn view(&self) -> BackupCommandStep {
        match self {
            BackupCommandAction::Log(m) => BackupCommandStep::Log(m@),
            BackupCommandAction::Scheduled => BackupCommandStep::Scheduled,
            BackupCommandAction::Reply(m) => BackupCommandStep::Reply(m@),
            BackupCommandAction::ReplyAndEnd(m) => BackupCommandStep::ReplyAndEnd(m@),
            BackupCommandAction::End => BackupCommandStep::End,
            BackupCommandAction::Halt(m) => BackupCommandStep::Halt(m@),
            BackupCommandAction::ListStore => BackupCommandStep::ListStore,
            BackupCommandAction::CheckPath(p) => BackupCommandStep::CheckPath(p@),
            BackupCommandAction::RemoveFile(p) => BackupCommandStep::RemoveFile(p@),
            BackupCommandAction::MakeBackup => BackupCommandStep::MakeBackup,
            BackupCommandAction::CheckLock(p) => BackupCommandStep::CheckLock(p@),
            BackupCommandAction::RemoveLock(p) => BackupCommandStep::RemoveLock(p@),
        }
    }
}

/// The backup lock file.
pub open spec fn backup_lock() -> Seq<char> {
    "/tmp/HypnosCore-Backup.lock"@
}

/// The `clear-lock` part and what follows it.
pub open spec fn enter_clear_lock(req: BackupRequest) -> (BackupCommandState, BackupCommandStep) {
    if req.clear_lock {
        (BackupCommandState::CheckingLock, BackupCommandStep::CheckLock(backup_lock()))
    } else {
        (BackupCommandState::Done, BackupCommandStep::End)
    }
}

/// The `new` part and what follows it.
pub open spec fn enter_create(req: BackupRequest) -> (BackupCommandState, BackupCommandStep) {
    if req.create {
        (
            BackupCommandState::Announced,
            BackupCommandStep::Reply("Attempting to start new backup, this may take a while"@),
        )
    } else {
        enter_clear_lock(req)
    }
}

/// The `rm` part and what follows it.
pub open spec fn enter_remove(req: BackupRequest) -> (BackupCommandState, BackupCommandStep) {
    if req.remove {
        match req.removal@ {
            RemovalSpec::TooShort => (BackupCommandState::Done, BackupCommandStep::End),
            RemovalSpec::NameMissing => (
                BackupCommandState::Done,
                BackupCommandStep::Halt("no backup is named after `rm`"@),
            ),
            RemovalSpec::Target(_, path) => (
                BackupCommandState::CheckingTarget,
                BackupCommandStep::CheckPath(path),
            ),
        }
    } else {
        enter_create(req)
    }
}

/// The `ls` part and what follows it.
pub open spec fn enter_list(req: BackupRequest) -> (BackupCommandState, BackupCommandStep) {
    if req.list {
        (BackupCommandState::Listing, BackupCommandStep::ListStore)
    } else {
        enter_remove(req)
    }
}

/// The name and file of the backup that `rm` removes (empty when there is none).
pub open spec fn removal_parts(req: BackupRequest) -> (Seq<char>, Seq<char>) {
    match req.removal@ {
        RemovalSpec::Target(name, path) => (name, path),
        _ => (Seq::empty(), Seq::empty()),
    }
}

/// The step of a `backup` command that follows `event` in `state`, for the
/// request `req`, backups kept `keep_time` seconds and made every `btime` seconds.
pub open spec fn backup_command_step_spec(
    req: BackupRequest,
    keep_time: u64,
    btime: u64,
    state: BackupCommandState,
    event: BackupCommandEvent,
) -> (BackupCommandState, BackupCommandStep) {
    match (state, event) {
        (BackupCommandState::Start, BackupCommandEvent::Begin { dirs_exist, from_message }) => {
            if !dirs_exist {
                (
                    BackupCommandState::Done,
                    BackupCommandStep::Log(
                        "*error: please check your config! either backup directory or backup store is invalid!"@,
                    ),
                )
            } else if !from_message {
                (BackupCommandState::Done, BackupCommandStep::Scheduled)
            } else if !req.authorized {
                (
                    BackupCommandState::Done,
                    BackupCommandStep::ReplyAndEnd("invalid permissions to use backup system!"@),
                )
            } else {
                enter_list(req)
            }
        },
        (BackupCommandState::Listing, BackupCommandEvent::Listed { entries, ages }) => {
            let y = youngest_spec(keep_time, ages@);
            if entries@.len() == 0 {
                (BackupCommandState::Done, BackupCommandStep::ReplyAndEnd("no backups to display!"@))
            } else if y > btime {
                (
                    BackupCommandState::Done,
                    BackupCommandStep::Halt("the next backup is due before the last one"@),
                )
            } else {
                (
                    BackupCommandState::Listed,
                    BackupCommandStep::Reply(listing_spec(string_views(entries@), y, btime)),
                )
            }
        },
        (BackupCommandState::Listed, BackupCommandEvent::Done) => enter_remove(req),
        (BackupCommandState::CheckingTarget, BackupCommandEvent::TargetChecked { exists }) => {
            if exists {
                (BackupCommandState::Removing, BackupCommandStep::RemoveFile(removal_parts(req).1))
            } else {
                (
                    BackupCommandState::TargetMissing,
                    BackupCommandStep::Reply("Location does not exists on file system"@),
                )
            }
        },
        (BackupCommandState::TargetMissing, BackupCommandEvent::Done) => (
            BackupCommandState::Removing,
            BackupCommandStep::RemoveFile(removal_parts(req).1),
        ),
        (BackupCommandState::Removing, BackupCommandEvent::RemoveResult { error }) => match error {
            None => (
                BackupCommandState::Removed,
                BackupCommandStep::Reply("successfully removed backup: "@ + removal_parts(req).0),
            ),
            Some(e) => (
                BackupCommandState::Removed,
                BackupCommandStep::Reply("failed to remove old backup due to: "@ + e@),
            ),
        },
        (BackupCommandState::Removed, BackupCommandEvent::Done) => enter_create(req),
        (BackupCommandState::Announced, BackupCommandEvent::Done) => (
            BackupCommandState::Creating,
            BackupCommandStep::MakeBackup,
        ),
        (BackupCommandState::Creating, BackupCommandEvent::BackupMade { reply }) => (
            BackupCommandState::Created,
            BackupCommandStep::Reply(reply@),
        ),
        (BackupCommandState::Created, BackupCommandEvent::Done) => enter_clear_lock(req),
        (BackupCommandState::CheckingLock, BackupCommandEvent::LockChecked { exists }) => {
            if exists {
                (BackupCommandState::Unlocking, BackupCommandStep::RemoveLock(backup_lock()))
            } else {
                (
                    BackupCommandState::Done,
                    BackupCommandStep::ReplyAndEnd(
                        "Backup lock file does not exists! Skipping futher steps"@,
                    ),
                )
            }
        },
        (BackupCommandState::Unlocking, BackupCommandEvent::Done) => (
            BackupCommandState::Done,
            BackupCommandStep::ReplyAndEnd("removed lock file"@),
        ),
        _ => (BackupCommandState::Done, BackupCommandStep::End),
    }
}

/// A string with the text of `s`.
fn text(s: &str) -> (r: String)
    ensures
        r@ == s@,
{
    string_of(&chars_of(s))
}

/// The `clear-lock` part and what follows it.
fn clear_lock_exec(req: &BackupRequest) -> (r: (BackupCommandState, BackupCommandAction))
    ensures
        r.0 == enter_clear_lock(*req).0,
        r.1@ == enter_clear_lock(*req).1,
{
    if req.clear_lock {
        (BackupCommandState::CheckingLock, BackupCommandAction::CheckLock(text("/tmp/HypnosCore-Backup.lock")))
    } else {
        (BackupCommandState::Done, BackupCommandAction::End)
    }
}

/// The `new` part and what follows it.
fn create_exec(req: &BackupRequest) -> (r: (BackupCommandState, BackupCommandAction))
    ensures
        r.0 == enter_create(*req).0,
        r.1@ == enter_create(*req).1,
{
    if req.create {
        (
            BackupCommandState::Announced,
            BackupCommandAction::Reply(text("Attempting to start new backup, this may take a while")),
        )
    } else {
        clear_lock_exec(req)
    }
}

/// The `rm` part and what follows it.
fn remove_exec(req: &BackupRequest) -> (r: (BackupCommandState, BackupCommandAction))
    ensures
        r.0 == enter_remove(*req).0,
        r.1@ == enter_remove(*req).1,
{
    if req.remove {
        match &req.removal {
            Removal::TooShort => (BackupCommandState::Done, BackupCommandAction::End),
            Removal::NameMissing => (
                BackupCommandState::Done,
                BackupCommandAction::Halt(text("no backup is named after `rm`")),
            ),
            Removal::Target(_, path) => (
                BackupCommandState::CheckingTarget,
                BackupCommandAction::CheckPath(path.clone()),
            ),
        }
    } else {
        create_exec(req)
    }
}

/// The `ls` part and what follows it.
fn list_exec(req: &BackupRequest) -> (r: (BackupCommandState, BackupCommandAction))
    ensures
        r.0 == enter_list(*req).0,
        r.1@ == enter_list(*req).1,
{
    if req.list {
        (BackupCommandState::Listing, BackupCommandAction::ListStore)
    } else {
        remove_exec(req)
    }
}

/// The `backup` command, one step at a time, for the request `req` (see
/// `backup`), backups kept `keep_time` seconds and made every `btime` seconds.
/// Nothing happens when the backup directory or store is missing; without a
/// Discord message a backup is made at once (a scheduled backup); a user
/// without permission is told so; otherwise the sub-commands run in the order
/// `ls`, `rm`, `new`, `clear-lock`: the listing ends the command when the store
/// is empty; `rm` ends it when the message has fewer than three words, and
/// removes the named backup (warning first when its file does not exist);
/// `new` announces the backup, makes it and reports its outcome; `clear-lock`
/// removes the backup lock file, or ends the command when there is none.
pub fn backup_command_step(
    req: &BackupRequest,
    keep_time: u64,
    btime: u64,
    state: BackupCommandState,
    event: BackupCommandEvent,
) -> (r: (BackupCommandState, BackupCommandAction))
    ensures
        r.0 == backup_command_step_spec(*req, keep_time, btime, state, event).0,
        r.1@ == backup_command_step_spec(*req, keep_time, btime, state, event).1,
{
    match (state, event) {
        (BackupCommandState::Start, BackupCommandEvent::Begin { dirs_exist, from_message }) => {
            if !dirs_exist {
                (
                    BackupCommandState::Done,
                    BackupCommandAction::Log(
                        text(
                            "*error: please check your config! either backup directory or backup store is invalid!",
                        ),
                    ),
                )
            } else if !from_message {
                (BackupCommandState::Done, BackupCommandAction::Scheduled)
            } else if !req.authorized {
                (
                    BackupCommandState::Done,
                    BackupCommandAction::ReplyAndEnd(text("invalid permissions to use backup system!")),
                )
            } else {
                list_exec(req)
            }
        },
        (BackupCommandState::Listing, BackupCommandEvent::Listed { entries, ages }) => {
            let y = youngest_backup(keep_time, &ages);
            if entries.len() == 0 {
                (BackupCommandState::Done, BackupCommandAction::ReplyAndEnd(text("no backups to display!")))
            } else if y > btime {
                (
                    BackupCommandState::Done,
                    BackupCommandAction::Halt(text("the next backup is due before the last one")),
                )
            } else {
                (BackupCommandState::Listed, BackupCommandAction::Reply(backup_listing(&entries, y, btime)))
            }
        },
        (BackupCommandState::Listed, BackupCommandEvent::Done) => remove_exec(req),
        (BackupCommandState::CheckingTarget, BackupCommandEvent::TargetChecked { exists }) => {
            let path = match &req.removal {
                Removal::Target(_, p) => p.clone(),
                _ => String::new(),
            };
            if exists {
                (BackupCommandState::Removing, BackupCommandAction::RemoveFile(path))
            } else {
                (
                    BackupCommandState::TargetMissing,
                    BackupCommandAction::Reply(text("Location does not exists on file system")),
                )
            }
        },
        (BackupCommandState::TargetMissing, BackupCommandEvent::Done) => {
            let path = match &req.removal {
                Removal::Target(_, p) => p.clone(),
                _ => String::new(),
            };
            (BackupCommandState::Removing, BackupCommandAction::RemoveFile(path))
        },
        (BackupCommandState::Removing, BackupCommandEvent::RemoveResult { error }) => {
            let mut out: Vec<char> = Vec::new();
            match error {
                None => {
                    append_str(&mut out, "successfully removed backup: ");
                    match &req.removal {
                        Removal::Target(n, _) => append_str(&mut out, n.as_str()),
                        _ => {},
                    }
                },
                Some(e) => {
                    append_str(&mut out, "failed to remove old backup due to: ");
                    append_str(&mut out, e.as_str());
                },
            }
            (BackupCommandState::Removed, BackupCommandAction::Reply(string_of(&out)))
        },
        (BackupCommandState::Removed, BackupCommandEvent::Done) => create_exec(req),
        (BackupCommandState::Announced, BackupCommandEvent::Done) => (
            BackupCommandState::Creating,
            BackupCommandAction::MakeBackup,
        ),
        (BackupCommandState::Creating, BackupCommandEvent::BackupMade { reply }) => (
            BackupCommandState::Created,
            BackupCommandAction::Reply(reply),
        ),
        (BackupCommandState::Created, BackupCommandEvent::Done) => clear_lock_exec(req),
        (BackupCommandState::CheckingLock, BackupCommandEvent::LockChecked { exists }) => {
            if exists {
                (BackupCommandState::Unlocking, BackupCommandAction::RemoveLock(text("/tmp/HypnosCore-Backup.lock")))
            } else {
                (
                    BackupCommandState::Done,
                    BackupCommandAction::ReplyAndEnd(
                        text("Backup lock file does not exists! Skipping futher steps"),
                    ),
                )
            }
        },
        (BackupCommandState::Unlocking, BackupCommandEvent::Done) => (
            BackupCommandState::Done,
            BackupCommandAction::ReplyAndEnd(text("removed lock file")),
        ),
        _ => (BackupCommandState::Done, BackupCommandAction::End),
    }
}

/// `rm` removes exactly the backup that the message names, and reports success
/// only after that removal: the command checks and removes the file
/// `store/HypnosCore-<name>`; a check of that file always leads on to its
/// removal (after a warning when it seems missing); the command is past the
/// removal only once a removal's result came back; and a removal without error
/// is answered with the success reply that names the backup.
pub proof fn law_rm_removes_the_named_backup(
    req: BackupRequest,
    content: Seq<char>,
    store: Seq<char>,
    keep_time: u64,
    btime: u64,
    state: BackupCommandState,
    event: BackupCommandEvent,
)
    requires
        req.removal@ == removal_spec(content, store),
    ensures
        ({
            let next = backup_command_step_spec(req, keep_time, btime, state, event).0;
            let step = backup_command_step_spec(req, keep_time, btime, state, event).1;
            &&& next is CheckingTarget ==> (removal_spec(content, store) matches RemovalSpec::Target(
                name,
                _,
            ) && step == BackupCommandStep::CheckPath(store + "/HypnosCore-"@ + name))
            &&& removal_spec(content, store) matches RemovalSpec::Target(name, _) ==> (next is Removing
                ==> step == BackupCommandStep::RemoveFile(store + "/HypnosCore-"@ + name))
            &&& step is RemoveFile <==> next is Removing
            &&& next is Removing ==> (state is CheckingTarget && event is TargetChecked) || (
            state is TargetMissing && event is Done)
            &&& (state is CheckingTarget && event is TargetChecked) ==> (next is Removing
                || next is TargetMissing)
            &&& (state is TargetMissing && event is Done) ==> next is Removing
            &&& next is Removed ==> state is Removing && event is RemoveResult
            &&& removal_spec(content, store) matches RemovalSpec::Target(name, _) ==> ((state is Removing
                && event == (BackupCommandEvent::RemoveResult { error: None })) ==> step
                == BackupCommandStep::Reply("successfully removed backup: "@ + name))
        }),
{
}


/// Whether a stored backup `age` seconds old is deleted after a new backup:
/// backups are kept for `keep_time` seconds.
pub fn should_prune(age: u64, keep_time: u64) -> (r: bool)
    ensures
        r == (age >= keep_time),
{
    age >= keep_time
}

} // verus!
