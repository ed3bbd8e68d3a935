use dot_manager::cli::{Cli, UpdateMode};
use dot_manager::config::{Config, Dotfile, Dotfiles};
use dot_manager::manager::{
    classify, ActionKind, File, FileWithContent, Manager, Observation, Status, WriteOp,
};
use dot_manager::resolve::{resolve_config, ResolvedDotfile};

const MARKER: &str = "dot-manager: ignore after this";

fn locations(short: &str) -> ResolvedDotfile {
    ResolvedDotfile {
        local_short: short.to_string(),
        local_full: format!("/home/u/{}", short),
        remote_short: short.to_string(),
        remote_full: format!("/mnt/sync/{}", short),
    }
}

fn observed(short: &str, local: Option<&str>, remote: Option<&str>) -> Observation {
    Observation {
        file: locations(short),
        local: local.map(|s| s.to_string()),
        remote: remote.map(|s| s.to_string()),
    }
}

fn report_only() -> Cli {
    Cli { check: true, upload: false, download: false, update: None }
}

#[test]
fn neither_side_present_is_absent() {
    let status = classify(&observed(".bashrc", None, None));
    assert_eq!(
        status,
        Status::Absent(File::new(".bashrc".to_string(), "/home/u/.bashrc".to_string()))
    );
}

#[test]
fn local_only_is_upload_with_remote_target() {
    let status = classify(&observed(".bashrc", Some("export A=1"), None));
    assert_eq!(
        status,
        Status::Upload(FileWithContent::new(
            ".bashrc".to_string(),
            "/mnt/sync/.bashrc".to_string(),
            "export A=1".to_string(),
        ))
    );
}

#[test]
fn remote_only_is_download_with_local_target() {
    let status = classify(&observed(".bashrc", None, Some("export A=1")));
    assert_eq!(
        status,
        Status::Download(FileWithContent::new(
            ".bashrc".to_string(),
            "/home/u/.bashrc".to_string(),
            "export A=1".to_string(),
        ))
    );
}

#[test]
fn equal_contents_are_up_to_date() {
    let status = classify(&observed(".bashrc", Some("export A=1"), Some("export A=1")));
    assert_eq!(
        status,
        Status::UpToDate(File::new(".bashrc".to_string(), "/home/u/.bashrc".to_string()))
    );
}

#[test]
fn differing_contents_are_update_with_both_sides() {
    let status = classify(&observed(".bashrc", Some("export A=2"), Some("export A=1")));
    assert_eq!(
        status,
        Status::Update(
            FileWithContent::new(
                ".bashrc".to_string(),
                "/home/u/.bashrc".to_string(),
                "export A=2".to_string(),
            ),
            FileWithContent::new(
                ".bashrc".to_string(),
                "/mnt/sync/.bashrc".to_string(),
                "export A=1".to_string(),
            ),
        )
    );
}

#[test]
fn truncated_sections_never_cause_a_mismatch() {
    let local = format!("line1\nline2\n{}\nsecret\n", MARKER);
    let status = classify(&observed(".bashrc", Some(&local), Some("line1\nline2\n")));
    assert_eq!(
        status,
        Status::UpToDate(File::new(".bashrc".to_string(), "/home/u/.bashrc".to_string()))
    );
}

#[test]
fn update_remote_propagates_only_pre_marker_content() {
    let local = format!("line1\nline2\n{}\nsecret\n", MARKER);
    let observations = vec![observed(".bashrc", Some(&local), Some("old remote\n"))];
    let manager = Manager::new(&observations);
    let cli = Cli { check: false, upload: false, download: false, update: Some(UpdateMode::Remote) };
    let ops = manager.run(&cli);
    assert_eq!(ops.len(), 1);
    assert_eq!(ops[0].target_path, "/mnt/sync/.bashrc");
    assert_eq!(ops[0].content, "line1\nline2\n");
    assert_eq!(ops[0].action, ActionKind::Updated);
}

#[test]
fn update_local_overwrites_local_from_remote() {
    let observations = vec![observed(".bashrc", Some("local\n"), Some("remote\n"))];
    let manager = Manager::new(&observations);
    let cli = Cli { check: false, upload: false, download: false, update: Some(UpdateMode::Local) };
    let ops = manager.run(&cli);
    assert_eq!(
        ops,
        vec![WriteOp {
            target_path: "/home/u/.bashrc".to_string(),
            content: "remote\n".to_string(),
            short_path: ".bashrc".to_string(),
            action: ActionKind::Updated,
        }]
    );
    assert_eq!(ops[0].message(), "`.bashrc`: Updated");
}

#[test]
fn non_matching_statuses_are_skipped_silently() {
    let observations = vec![
        observed(".bashrc", Some("a\n"), None),
        observed("init.lua", None, Some("b\n")),
        observed(".profile", Some("c\n"), Some("c\n")),
        observed(".gitconfig", None, None),
    ];
    let manager = Manager::new(&observations);
    let upload = Cli { check: false, upload: true, download: false, update: None };
    let ops = manager.run(&upload);
    assert_eq!(ops.len(), 1);
    assert_eq!(ops[0].short_path, ".bashrc");
    assert_eq!(ops[0].target_path, "/mnt/sync/.bashrc");
    assert_eq!(ops[0].action, ActionKind::Uploaded);
    assert_eq!(ops[0].message(), "`.bashrc`: Uploaded");

    let download = Cli { check: false, upload: false, download: true, update: None };
    let ops = manager.run(&download);
    assert_eq!(ops.len(), 1);
    assert_eq!(ops[0].short_path, "init.lua");
    assert_eq!(ops[0].target_path, "/home/u/init.lua");
    assert_eq!(ops[0].message(), "`init.lua`: Downloaded");

    assert_eq!(manager.run(&report_only()), vec![]);
}

#[test]
fn report_groups_and_omits_empty_headings() {
    let observations = vec![
        observed(".profile", Some("c\n"), Some("c\n")),
        observed(".bashrc", Some("a\n"), None),
        observed(".vimrc", Some("l\n"), Some("r\n")),
        observed(".gitconfig", None, None),
    ];
    let manager = Manager::new(&observations);
    let lines = manager.check();
    assert_eq!(
        lines,
        vec![
            "Up to date:".to_string(),
            "* .profile".to_string(),
            "".to_string(),
            "To update:".to_string(),
            "* .vimrc - .vimrc".to_string(),
            "".to_string(),
            "To upload:".to_string(),
            "* .bashrc".to_string(),
            "".to_string(),
            "Does not exist:".to_string(),
            "* .gitconfig".to_string(),
            "".to_string(),
        ]
    );
}

#[test]
fn pre_classified_entries_join_the_store() {
    let extra = Status::Upload(FileWithContent::new(
        "packages".to_string(),
        "/mnt/sync/packages".to_string(),
        "pkg-a\npkg-b\n".to_string(),
    ));
    let manager = Manager::from_statuses(vec![extra]);
    let upload = Cli { check: false, upload: true, download: false, update: None };
    let ops = manager.run(&upload);
    assert_eq!(ops.len(), 1);
    assert_eq!(ops[0].target_path, "/mnt/sync/packages");
    assert_eq!(ops[0].content, "pkg-a\npkg-b\n");
    assert_eq!(manager.check()[0], "To upload:");
}

#[test]
fn report_shows_download_group_under_its_heading() {
    let observations = vec![
        observed("init.lua", None, Some("print(1)\n")),
        observed(".bashrc", None, Some("export A=1\n")),
    ];
    let manager = Manager::new(&observations);
    assert_eq!(
        manager.check(),
        vec![
            "To download:".to_string(),
            "* init.lua".to_string(),
            "* .bashrc".to_string(),
            "".to_string(),
        ]
    );
}

#[test]
fn report_of_empty_store_is_empty() {
    let manager = Manager::new(&vec![]);
    assert_eq!(manager.check(), Vec::<String>::new());
    assert_eq!(manager.statuses().len(), 0);
}

#[test]
fn every_status_lands_in_exactly_one_group() {
    let observations = vec![
        observed(".profile", Some("c\n"), Some("c\n")),
        observed(".bashrc", Some("a\n"), None),
        observed("init.lua", None, Some("b\n")),
        observed(".vimrc", Some("l\n"), Some("r\n")),
        observed(".gitconfig", None, None),
    ];
    let manager = Manager::new(&observations);
    let report = manager.groups();
    let total = report.up_to_date.len() + report.to_update.len() + report.to_upload.len()
        + report.to_download.len() + report.absent.len();
    assert_eq!(total, observations.len());
    assert_eq!(report.absent, vec![".gitconfig".to_string()]);
    assert_eq!(report.up_to_date, vec![".profile".to_string()]);
}

#[test]
fn upload_scenario_round_trip() {
    // Config names one tracked file; the local side exists, the remote side
    // does not.
    let config = Config {
        remote_path: "/mnt/sync".to_string(),
        home_path: None,
        files: Dotfiles(vec![Dotfile { local_path: ".bashrc".to_string(), remote_path: None }]),
    };
    let resolved = resolve_config(&config, &Some("/home/u".to_string())).unwrap();
    assert_eq!(resolved[0].local_full, "/home/u/.bashrc");
    assert_eq!(resolved[0].remote_full, "/mnt/sync/.bashrc");

    let observations = vec![Observation {
        file: resolved[0].clone(),
        local: Some("export A=1".to_string()),
        remote: None,
    }];
    let manager = Manager::new(&observations);
    assert!(matches!(manager.statuses()[0], Status::Upload(_)));

    let upload = Cli { check: false, upload: true, download: false, update: None };
    let ops = manager.run(&upload);
    assert_eq!(ops.len(), 1);
    assert_eq!(ops[0].target_path, "/mnt/sync/.bashrc");
    assert_eq!(ops[0].content, "export A=1");

    // Executing the write puts the planned content at the remote path; the
    // next run observes it there and finds the file up to date.
    let after = vec![Observation {
        file: resolved[0].clone(),
        local: Some("export A=1".to_string()),
        remote: Some(ops[0].content.clone()),
    }];
    let second = Manager::new(&after);
    assert_eq!(
        second.statuses()[0],
        Status::UpToDate(File::new(".bashrc".to_string(), "/home/u/.bashrc".to_string()))
    );

    // The same action a second time finds nothing left to match.
    assert_eq!(second.run(&upload), vec![]);
}

#[test]
fn download_round_trip_settles() {
    let obs = vec![observed("init.lua", None, Some("print(1)\n"))];
    let manager = Manager::new(&obs);
    let download = Cli { check: false, upload: false, download: true, update: None };
    let ops = manager.run(&download);
    assert_eq!(ops[0].target_path, "/home/u/init.lua");

    let after = vec![observed("init.lua", Some(&ops[0].content), Some("print(1)\n"))];
    let second = Manager::new(&after);
    assert!(matches!(second.statuses()[0], Status::UpToDate(_)));
    assert_eq!(second.run(&download), vec![]);
}

#[test]
fn update_round_trip_settles_with_marker() {
    let local = format!("shared\n{}\nsecret\n", MARKER);
    let obs = vec![observed(".bashrc", Some(&local), Some("stale\n"))];
    let manager = Manager::new(&obs);
    let cli = Cli { check: false, upload: false, download: false, update: Some(UpdateMode::Remote) };
    let ops = manager.run(&cli);
    assert_eq!(ops[0].content, "shared\n");

    // The local file keeps its machine-local tail; the remote now holds the
    // truncated snapshot. The pair is up to date and a re-run plans nothing.
    let after = vec![observed(".bashrc", Some(&local), Some(&ops[0].content))];
    let second = Manager::new(&after);
    assert!(matches!(second.statuses()[0], Status::UpToDate(_)));
    assert_eq!(second.run(&cli), vec![]);
}
