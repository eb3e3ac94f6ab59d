use hypnos_core::backup::{
    archive_path_at, backup, backup_command_step, backup_display_name, backup_listing, backup_step,
    display_name_ok, root_copy, should_prune, stamp_of, utc_now_stamp, youngest_backup, BackupAction,
    BackupCommandAction, BackupCommandEvent, BackupCommandState, BackupEvent, Removal,
};
use hypnos_core::commands::{
    changelog_blocks, execute, lacks_argument_exec, recompile, recompile_step, script, sessions,
    LockAction, RecompileAction, RecompileEvent, RecompileState,
};
use hypnos_core::config::{
    backup_interval, config_path_missing_exec, parse_args, path_is_absolute, pipe_wait_millis,
    schedules_backups, validate_config, Config, ConfigError, Optional, StartAction,
};

fn strings(v: &[&str]) -> Vec<String> {
    v.iter().map(|s| s.to_string()).collect()
}

#[test]
fn execute_sends_to_known_session() {
    let p = execute("!execute survival say hello world", 1, &vec![1], &strings(&["survival"]), &vec![]);
    assert_eq!(p.reply, "command sent to session");
    let m = p.send.unwrap();
    assert_eq!(m.session, "survival");
    assert_eq!(m.keys, "say hello world");
}

#[test]
fn execute_refuses_unknown_user_and_session() {
    let p = execute("!execute survival stop", 2, &vec![1], &strings(&["survival"]), &vec![]);
    assert_eq!(p.reply, "invalid permissions");
    assert!(p.send.is_none());
    let p = execute("!execute lobby stop", 1, &vec![1], &strings(&["survival"]), &vec![]);
    assert_eq!(p.reply, "session does not exist!");
    assert!(p.send.is_none());
    assert!(lacks_argument_exec("!execute"));
    assert!(!lacks_argument_exec("!execute survival"));
}

#[test]
fn script_lock_handling() {
    let o = script("!script unlock", 1, &vec![1], true);
    assert!(matches!(o.action, LockAction::Remove));
    assert_eq!(o.reply.as_deref(), Some("removed lock file"));
    let o = script("!script lock", 1, &vec![1], true);
    assert!(matches!(o.action, LockAction::Keep));
    assert_eq!(o.reply.as_deref(), Some("script lock file already exist! Skipping futher steps"));
    let o = script("!script", 5, &vec![1], false);
    assert_eq!(o.reply.as_deref(), Some("script lock file: false"));
    let o = script("!script lock", 5, &vec![1], false);
    assert!(matches!(o.action, LockAction::Keep));
    assert!(o.reply.is_none());
}

#[test]
fn sessions_listing() {
    let r = sessions("!sessions ls", &strings(&["a", "b"]), &strings(&["c"]));
    assert_eq!(r.as_deref(), Some("```MC sessions:\na\nb\n\nGeneric sessions:\nc```"));
    assert!(sessions("!sessions", &vec![], &vec![]).is_none());
}

#[test]
fn recompile_plan_and_reply() {
    let p = recompile("!recompile git backup", 1, &vec![1], "/srv/build");
    assert!(p.authorized && p.git && p.backup);
    assert_eq!(p.enter_build_dir, "cd /srv/build");
    assert_eq!(p.copy_old_src, "cp -r /srv/build/hypnos_core /srv/build/old_src");
    assert_eq!(p.new_changelog, "/srv/build/hypnos_core/changelog");
    assert_eq!(p.old_bin, "/srv/build/../hypnos_core");
    let lines = strings(&["v1", "v2 *update needed", "v3"]);
    // the first new line is checked
    assert!(changelog_blocks(&lines, 1));
    assert!(!changelog_blocks(&lines, 2));
    assert!(!changelog_blocks(&lines, 7));
}

/// Runs a recompile plan to its end with the given answers; returns the actions' kinds and the reply.
fn run_recompile(content: &str, author: u64, old_count: usize, new_log: &[&str], built: u128, running: u128) -> (Vec<String>, String) {
    let plan = recompile(content, author, &vec![1], "/b");
    let mut state = RecompileState::Start;
    let mut event = RecompileEvent::Begin;
    let mut seen = Vec::new();
    loop {
        let (next, action) = recompile_step(&plan, state, event);
        state = next;
        event = match action {
            RecompileAction::OpenSession(s) => { seen.push(format!("open {}", s)); RecompileEvent::Done }
            RecompileAction::TypeKeys(_, k) => { seen.push(format!("keys {}", k)); RecompileEvent::Done }
            RecompileAction::CountLines(p) => { seen.push(format!("count {}", p)); RecompileEvent::OldChangelog { lines: old_count } }
            RecompileAction::EnsureDir(d) => { seen.push(format!("dir {}", d)); RecompileEvent::Done }
            RecompileAction::Clone(u) => { seen.push(format!("clone {}", u)); RecompileEvent::Done }
            RecompileAction::ReadLines(p) => { seen.push(format!("read {}", p)); RecompileEvent::NewChangelog { lines: strings(new_log) } }
            RecompileAction::ShowChanges(l) => { seen.push(format!("show {}", l.join("|"))); RecompileEvent::Done }
            RecompileAction::CompareBinaries(_, _) => { seen.push("compare".to_string()); RecompileEvent::Binaries { built, running } }
            RecompileAction::RemoveFile(p) => { seen.push(format!("rm {}", p)); RecompileEvent::Done }
            RecompileAction::Finish(r) => return (seen, r),
            RecompileAction::Nothing => return (seen, String::new()),
        };
    }
}

#[test]
fn recompile_steps() {
    let (seen, r) = run_recompile("!recompile", 2, 1, &[], 0, 0);
    assert!(seen.is_empty());
    assert_eq!(r, "invalid permissions");
    let (seen, r) = run_recompile("!recompile backup git", 1, 1, &["v1", "v2"], 20, 10);
    assert_eq!(
        seen,
        vec![
            "open recompile",
            "keys cd /b",
            "count ./changelog",
            "dir /b/old_src",
            "keys cp -r /b/hypnos_core /b/old_src",
            "clone https://github.com/NotCreative21/hypnos_core.git",
            "read /b/hypnos_core/changelog",
            "show v2",
            "keys cd hypnos_core && cargo build --release",
            "compare",
            "rm /b/../hypnos_core",
            "keys cp target/release/hypnos_core ../..",
        ]
    );
    assert_eq!(r, "compilation successful");
    let (_, r) = run_recompile("!recompile", 1, 1, &["v1", "v2"], 10, 20);
    assert_eq!(r, "compilation was attempted, however, an error occured or the resulting binary is not 'new'");
    let (seen, r) = run_recompile("!recompile", 1, 1, &["v1", "*update config"], 20, 10);
    assert_eq!(r, "error: compilation aborted, changes to config must be applied");
    assert!(!seen.iter().any(|s| s.starts_with("keys cd hypnos_core")));
}

#[test]
fn backup_arguments() {
    let r = backup("!backup ls new", 1, &vec![1], "/store");
    assert!(r.authorized && r.list && r.create && !r.remove && !r.clear_lock);
    assert!(!backup("!backup ls", 2, &vec![1], "/store").authorized);
    match backup("!backup rm 2024-01-01", 1, &vec![1], "/store").removal {
        Removal::Target(name, path) => {
            assert_eq!(name, "2024-01-01");
            assert_eq!(path, "/store/HypnosCore-2024-01-01");
        }
        _ => panic!("expected a target"),
    }
    assert!(matches!(backup("!backup rm", 1, &vec![1], "/s").removal, Removal::TooShort));
    assert!(matches!(backup("!backup x rm", 1, &vec![1], "/s").removal, Removal::NameMissing));
}

/// Runs a backup command to its end with the given answers; returns what it did.
fn run_backup(content: Option<&str>, author: u64, dirs: bool, entries: &[&str], target_exists: bool, lock_exists: bool) -> Vec<String> {
    let req = backup(content.unwrap_or(""), author, &vec![1], "/store");
    let mut state = BackupCommandState::Start;
    let mut event = BackupCommandEvent::Begin { dirs_exist: dirs, from_message: content.is_some() };
    let mut seen = Vec::new();
    loop {
        let (next, action) = backup_command_step(&req, 100, 3600, state, event);
        state = next;
        event = match action {
            BackupCommandAction::Log(m) => { seen.push(format!("log {}", m)); return seen; }
            BackupCommandAction::Scheduled => { seen.push("scheduled".to_string()); return seen; }
            BackupCommandAction::Reply(m) => { seen.push(format!("reply {}", m)); BackupCommandEvent::Done }
            BackupCommandAction::ReplyAndEnd(m) => { seen.push(format!("reply {}", m)); return seen; }
            BackupCommandAction::End => return seen,
            BackupCommandAction::Halt(m) => { seen.push(format!("halt {}", m)); return seen; }
            BackupCommandAction::ListStore => BackupCommandEvent::Listed { entries: strings(entries), ages: vec![40] },
            BackupCommandAction::CheckPath(p) => { seen.push(format!("check {}", p)); BackupCommandEvent::TargetChecked { exists: target_exists } }
            BackupCommandAction::RemoveFile(p) => { seen.push(format!("rm {}", p)); BackupCommandEvent::RemoveResult { error: None } }
            BackupCommandAction::MakeBackup => { seen.push("make".to_string()); BackupCommandEvent::BackupMade { reply: "made".to_string() } }
            BackupCommandAction::CheckLock(p) => { seen.push(format!("lock? {}", p)); BackupCommandEvent::LockChecked { exists: lock_exists } }
            BackupCommandAction::RemoveLock(p) => { seen.push(format!("unlock {}", p)); BackupCommandEvent::Done }
        };
    }
}

#[test]
fn backup_command_flow() {
    assert_eq!(
        run_backup(Some("!backup ls"), 1, false, &[], false, false),
        vec!["log *error: please check your config! either backup directory or backup store is invalid!"]
    );
    assert_eq!(run_backup(None, 0, true, &[], false, false), vec!["scheduled"]);
    assert_eq!(
        run_backup(Some("!backup new"), 2, true, &[], false, false),
        vec!["reply invalid permissions to use backup system!"]
    );
    // an empty listing ends the command
    assert_eq!(
        run_backup(Some("!backup ls new"), 1, true, &[], false, false),
        vec!["reply no backups to display!"]
    );
    assert_eq!(
        run_backup(Some("!backup ls rm a new clear-lock"), 1, true, &["a (1.00G)"], false, true),
        vec![
            "reply ```Backups are displayed in UTC time: (YYYY/DD/MM/HH/mm/SS)\na (1.00G)\nLast Backup: 40s ago Next Backup in: 3560s```",
            "check /store/HypnosCore-a",
            "reply Location does not exists on file system",
            "rm /store/HypnosCore-a",
            "reply successfully removed backup: a",
            "reply Attempting to start new backup, this may take a while",
            "make",
            "reply made",
            "lock? /tmp/HypnosCore-Backup.lock",
            "unlock /tmp/HypnosCore-Backup.lock",
            "reply removed lock file",
        ]
    );
    assert_eq!(
        run_backup(Some("!backup clear-lock"), 1, true, &[], false, false),
        vec!["lock? /tmp/HypnosCore-Backup.lock", "reply Backup lock file does not exists! Skipping futher steps"]
    );
    // `rm` in a message of two words ends the command
    assert_eq!(run_backup(Some("!backup rm"), 1, true, &[], false, false), Vec::<String>::new());
    assert_eq!(
        run_backup(Some("!backup new rm"), 1, true, &[], false, false),
        vec!["halt no backup is named after `rm`"]
    );
}

#[test]
fn backup_listing_and_ages() {
    assert_eq!(youngest_backup(100, &vec![300, 40, 70]), 40);
    assert_eq!(youngest_backup(100, &vec![]), 100);
    assert_eq!(backup_listing(&vec![], 5, 3), "no backups to display!");
    let l = backup_listing(&strings(&["a (1.00G)", "b (2.00G)"]), 40, 3600);
    assert_eq!(
        l,
        "```Backups are displayed in UTC time: (YYYY/DD/MM/HH/mm/SS)\na (1.00G)\nb (2.00G)\nLast Backup: 40s ago Next Backup in: 3560s```"
    );
    assert_eq!(backup_display_name("HypnosCore-2024.tar.gz"), "2024.tar.gz");
    assert!(!display_name_ok("short"));
}

#[test]
fn clock_readings_print_as_utc_times() {
    assert_eq!(stamp_of(Some((0, 0))), Some("1970-01-01 00:00:00 UTC".to_string()));
    assert_eq!(
        stamp_of(Some((1_700_000_000, 5))),
        Some("2023-11-14 22:13:20.000000005 UTC".to_string())
    );
    assert_eq!(
        stamp_of(Some((86_400, 500_000_000))),
        Some("1970-01-02 00:00:00.500 UTC".to_string())
    );
    assert_eq!(stamp_of(None), None);
    assert_eq!(stamp_of(Some((u64::MAX, 0))), None);
    assert_eq!(stamp_of(Some((i64::MAX as u64, 0))), None);
}

#[test]
fn archive_names() {
    assert_eq!(
        archive_path_at("/store", "2024-01-31 12:00:00.5 UTC"),
        "/store/HypnosCore-2024-01-31_12_00_00.5_UTC.tar.gz"
    );
    let stamp = utc_now_stamp().unwrap();
    assert!(stamp.starts_with("20") && stamp.ends_with(" UTC"));
    match backup_step("/store", BackupEvent::ClockRead { stamp: Some(stamp) }) {
        BackupAction::Archive(now) => {
            assert!(now.starts_with("/store/HypnosCore-20"));
            assert!(now.ends_with("_UTC.tar.gz"));
            assert!(!now.contains(':') && !now.contains(' '));
        }
        _ => panic!("expected an archive"),
    }
    let rc = root_copy("/store");
    assert_eq!(rc.dir, "/store/root_copy/");
    assert_eq!(rc.archived, "/store/root_copy");
}

#[test]
fn retention_rule() {
    assert!(should_prune(100, 100));
    assert!(!should_prune(99, 100));
}

fn config(dir: Option<&str>, store: Option<&str>) -> Config {
    Config {
        token: "SECRET-REDACTED".to_string(),
        prefix: "!".to_string(),
        shell_access: vec![1],
        build_dir: "/srv/build".to_string(),
        optional: Optional {
            chat_bridge_id: Some(7),
            server_name: vec![],
            generic_name: vec![],
            backup_time: Some(3600),
            backup_dir: dir.map(|s| s.to_string()),
            keep_time: Some(86400),
            backup_store: store.map(|s| s.to_string()),
            ign_prefix: Some("!".to_string()),
            script_update: Some(60),
        },
    }
}

#[test]
fn config_checks() {
    assert!(validate_config(&config(None, None), false, false).is_ok());
    let mut no_token = config(Some("/a"), None);
    no_token.token = String::new();
    assert!(matches!(validate_config(&no_token, false, false), Err(ConfigError::TokenMissing)));
    assert!(matches!(
        validate_config(&config(Some("/a"), Some("/b")), false, false),
        Err(ConfigError::BackupDirMissing)
    ));
    assert!(matches!(
        validate_config(&config(Some("/a"), Some("/b")), true, false),
        Err(ConfigError::BackupStoreMissing)
    ));
    assert!(validate_config(&config(Some("/a"), Some("/b")), true, true).is_ok());
}

#[test]
fn backup_schedule() {
    assert_eq!(backup_interval(Some(100)), -1);
    assert_eq!(backup_interval(Some(200)), -1);
    assert_eq!(backup_interval(Some(201)), 201);
    assert_eq!(backup_interval(None), -1);
    assert!(schedules_backups(backup_interval(Some(3600))));
    assert!(!schedules_backups(backup_interval(Some(10))));
}

#[test]
fn command_line() {
    let o = parse_args(&strings(&["hypnos_core"]));
    assert!(matches!(o.action, StartAction::Run));
    assert_eq!(o.config_path, "./hypnos_core.conf");
    let o = parse_args(&strings(&["hypnos_core", "c", "/etc/h.conf"]));
    assert!(matches!(o.action, StartAction::Run));
    assert_eq!(o.config_path, "/etc/h.conf");
    assert!(matches!(parse_args(&strings(&["h", "help"])).action, StartAction::Help));
    assert!(matches!(parse_args(&strings(&["h", "reset-cfg"])).action, StartAction::ResetConfig));
    assert!(matches!(parse_args(&strings(&["h", "what"])).action, StartAction::UnknownArgument));
    assert!(config_path_missing_exec(&strings(&["h", "c"])));
}

#[test]
fn paths_and_waits() {
    assert!(path_is_absolute("/tmp"));
    assert!(!path_is_absolute("./default"));
    assert_eq!(pipe_wait_millis(3), 60);
}

#[test]
fn backup_steps() {
    let s = "/store";
    assert!(matches!(backup_step(s, BackupEvent::Begin { lock_exists: true }), BackupAction::Stop(m) if m == "Lock file exists, skipping backup"));
    assert!(matches!(backup_step(s, BackupEvent::Begin { lock_exists: false }), BackupAction::LockAndCopy));
    assert!(matches!(backup_step(s, BackupEvent::RootCopied { ok: false }), BackupAction::Stop(m) if m == "failed to update root copy"));
    assert!(matches!(backup_step(s, BackupEvent::RootCopied { ok: true }), BackupAction::ReadClock));
    assert!(matches!(backup_step(s, BackupEvent::ClockRead { stamp: None }), BackupAction::Finish(m) if m == "failed to read the clock, skipping backup"));
    assert!(matches!(backup_step(s, BackupEvent::ClockRead { stamp: Some("t 1".to_string()) }), BackupAction::Archive(p) if p == "/store/HypnosCore-t_1.tar.gz"));
    assert!(matches!(backup_step(s, BackupEvent::Archived { ok: true }), BackupAction::Prune));
    assert!(matches!(backup_step(s, BackupEvent::Archived { ok: false }), BackupAction::Finish(m) if m == "Successfully created new backup"));
    assert!(matches!(backup_step(s, BackupEvent::Pruned), BackupAction::Finish(m) if m == "Successfully created new backup"));
}
