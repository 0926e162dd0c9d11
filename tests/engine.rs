use git_wtree::lifecycle::{
    branch_ref_name, clean_targets, failure_kind, id_taken, plan_add, AddStep, ErrorKind,
};
use git_wtree::navigation::{navigation_reply, NavReply, NOT_FOUND_STATUS};
use git_wtree::path_policy::{base_dir, default_dir_name, join_path, target_path, worktree_id};
use git_wtree::resolver::{locate, resolve, resolve_removal, Target, WorktreeEntry};
use git_wtree::root::{
    final_component_of, normalize_path, parent_path, pointer_file, resolve_root, trim_text,
};
use git_wtree::status::{
    branch_label, health_from_changes, list_row, listing, short_commit, status_record,
    status_report, HeadInfo, Health, Listed, Probe, Probed,
};
use git_wtree::text::{contains_text, text_eq};

fn entry(name: &str, path: &str, branch: Option<&str>) -> WorktreeEntry {
    WorktreeEntry {
        name: name.to_string(),
        path: path.to_string(),
        branch: branch.map(|b| b.to_string()),
    }
}

fn strings(v: &[&str]) -> Vec<String> {
    v.iter().map(|s| s.to_string()).collect()
}

#[test]
fn dir_name_is_text_after_last_slash() {
    assert_eq!(default_dir_name("feature/auth"), "auth");
    assert_eq!(default_dir_name("team/feature/login-page"), "login-page");
    assert_eq!(default_dir_name("a//b"), "b");
}

#[test]
fn dir_name_without_slash_is_whole_name() {
    assert_eq!(default_dir_name("main"), "main");
    assert_eq!(default_dir_name(""), "");
}

#[test]
fn dir_name_with_trailing_slash_is_empty() {
    assert_eq!(default_dir_name("feature/"), "");
}

#[test]
fn worktree_id_flattens_slashes() {
    assert_eq!(worktree_id("feature/auth"), "feature-auth");
    assert_eq!(worktree_id("a/b/c"), "a-b-c");
    assert_eq!(worktree_id("plain"), "plain");
}

#[test]
fn join_path_cases() {
    assert_eq!(join_path("/repo", ".worktree"), "/repo/.worktree");
    assert_eq!(join_path("/repo/", "x"), "/repo/x");
    assert_eq!(join_path("", "x"), "x");
    assert_eq!(join_path("/repo", "/abs"), "/abs");
    assert_eq!(join_path("/repo", ""), "/repo/");
}

#[test]
fn base_dir_default_and_override() {
    assert_eq!(base_dir(&None, "/repo"), "/repo/.worktree");
    assert_eq!(base_dir(&Some("/elsewhere".to_string()), "/repo"), "/elsewhere");
}

#[test]
fn target_path_default_and_explicit() {
    assert_eq!(target_path("/repo/.worktree", "feature/auth", &None), "/repo/.worktree/auth");
    assert_eq!(
        target_path("/repo/.worktree", "feature/auth", &Some("../here".to_string())),
        "../here"
    );
}

#[test]
fn text_helpers() {
    assert!(contains_text("feature-auth", "auth"));
    assert!(contains_text("feature-auth", ""));
    assert!(!contains_text("auth", "feature-auth"));
    assert!(!contains_text("feature", "auth"));
    assert!(text_eq("main", "main"));
    assert!(!text_eq("main", "mai"));
}

#[test]
fn identifier_beats_exact_branch_match() {
    let linked = vec![
        entry("other", "/w/other", Some("feature-x")),
        entry("feature-x", "/w/feature-x", Some("main")),
    ];
    assert_eq!(resolve(&linked, "feature-x"), Some(Target::Linked(1)));
}

#[test]
fn resolve_example_listing() {
    let linked = vec![entry("auth", "/repo/.worktree/auth", Some("feature/auth"))];
    assert_eq!(resolve(&linked, "auth"), Some(Target::Linked(0)));
    assert_eq!(resolve(&linked, "feature"), Some(Target::Linked(0)));
    assert_eq!(resolve(&linked, "main"), Some(Target::Primary));
    assert_eq!(resolve(&linked, "nothing"), None);
    let primary = Some("/repo".to_string());
    assert_eq!(locate(&primary, &linked, "main"), Some("/repo".to_string()));
    assert_eq!(locate(&primary, &linked, "feature"), Some("/repo/.worktree/auth".to_string()));
    assert_eq!(locate(&primary, &linked, "nothing"), None);
    assert_eq!(locate(&None, &linked, "main"), None);
}

#[test]
fn exact_name_beats_earlier_substring() {
    let linked = vec![entry("auth-old", "/w/a1", None), entry("auth", "/w/a2", None)];
    assert_eq!(resolve(&linked, "auth"), Some(Target::Linked(1)));
    assert_eq!(resolve(&linked, "old"), Some(Target::Linked(0)));
}

#[test]
fn ambiguous_substring_takes_first() {
    let linked = vec![entry("api-v1", "/w/1", None), entry("api-v2", "/w/2", None)];
    assert_eq!(resolve(&linked, "api"), Some(Target::Linked(0)));
}

#[test]
fn exact_branch_beats_earlier_branch_substring() {
    let linked = vec![
        entry("one", "/w/1", Some("fix-login")),
        entry("two", "/w/2", Some("login")),
    ];
    assert_eq!(resolve(&linked, "login"), Some(Target::Linked(1)));
}

#[test]
fn removal_matches_identifiers_only() {
    let linked = vec![entry("auth", "/w/auth", Some("feature/auth"))];
    assert_eq!(resolve_removal(&linked, "au"), Some(0));
    assert_eq!(resolve_removal(&linked, "feature"), None);
    assert_eq!(resolve_removal(&linked, "main"), None);
}

#[test]
fn removal_takes_first_identifier_containing_token() {
    let linked = vec![entry("auth-old", "/w/a1", None), entry("auth", "/w/a2", None)];
    assert_eq!(resolve_removal(&linked, "auth"), Some(0));
    assert_eq!(resolve_removal(&linked, "old"), Some(0));
    let reversed = vec![entry("auth", "/w/a2", None), entry("auth-old", "/w/a1", None)];
    assert_eq!(resolve_removal(&reversed, "auth"), Some(0));
    assert_eq!(resolve_removal(&reversed, "old"), Some(1));
}

#[test]
fn second_add_is_a_name_collision() {
    let mut ids = strings(&["other"]);
    let first = plan_add(&ids, "feature/auth", "/repo/.worktree", &None, false, false);
    let plan = first.expect("first add is planned");
    assert_eq!(plan.id, "feature-auth");
    assert_eq!(plan.path, "/repo/.worktree/auth");
    ids.push(plan.id.clone());
    let second = plan_add(&ids, "feature/auth", "/repo/.worktree", &None, true, false);
    assert_eq!(second.err(), Some(ErrorKind::NameCollision));
}

#[test]
fn occupied_target_is_a_path_collision() {
    let ids = strings(&[]);
    let r = plan_add(&ids, "topic", "/b", &None, true, true);
    assert_eq!(r.err(), Some(ErrorKind::PathCollision));
}

#[test]
fn new_branch_plan_creates_then_rebinds() {
    let ids = strings(&[]);
    let plan = plan_add(&ids, "feature/auth", "/b", &None, false, false).unwrap();
    assert_eq!(plan.steps.len(), 4);
    match &plan.steps[0] {
        AddStep::AddDetached { id, path } => {
            assert_eq!(id, "feature-auth");
            assert_eq!(path, "/b/auth");
        }
        other => panic!("unexpected first step {:?}", other),
    }
    match &plan.steps[1] {
        AddStep::CreateBranchAtHead { branch } => assert_eq!(branch, "feature/auth"),
        other => panic!("unexpected second step {:?}", other),
    }
    match &plan.steps[2] {
        AddStep::SetHead { refname } => assert_eq!(refname, "refs/heads/feature/auth"),
        other => panic!("unexpected third step {:?}", other),
    }
    assert!(matches!(plan.steps[3], AddStep::ForceCheckout));
    assert_eq!(failure_kind(&plan, 0), ErrorKind::BackendFailure);
    assert_eq!(failure_kind(&plan, 2), ErrorKind::PartialCreate);
}

#[test]
fn existing_branch_plan_binds_in_one_step() {
    let ids = strings(&[]);
    let plan = plan_add(&ids, "topic", "/b", &Some("/x/y".to_string()), true, false).unwrap();
    assert_eq!(plan.path, "/x/y");
    assert_eq!(plan.steps.len(), 1);
    match &plan.steps[0] {
        AddStep::AddBound { id, path, branch } => {
            assert_eq!(id, "topic");
            assert_eq!(path, "/x/y");
            assert_eq!(branch, "topic");
        }
        other => panic!("unexpected step {:?}", other),
    }
}

#[test]
fn branch_ref_and_id_lookup() {
    assert_eq!(branch_ref_name("a/b"), "refs/heads/a/b");
    let ids = strings(&["x", "feature-auth"]);
    assert!(id_taken(&ids, "feature-auth"));
    assert!(!id_taken(&ids, "feature"));
}

#[test]
fn clean_prunes_exactly_absent_and_second_run_is_noop() {
    let present = vec![true, false, true, false];
    assert_eq!(clean_targets(&present), vec![1, 3]);
    let kept: Vec<bool> = present.iter().copied().filter(|p| *p).collect();
    assert_eq!(clean_targets(&kept), Vec::<usize>::new());
    assert_eq!(clean_targets(&vec![]), Vec::<usize>::new());
}

#[test]
fn status_reports_missing_without_blocking_siblings() {
    let linked = vec![
        Probed { name: "gone".to_string(), path: "/w/gone".to_string(), probe: Probe::Absent },
        Probed {
            name: "broken".to_string(),
            path: "/w/broken".to_string(),
            probe: Probe::Unreadable,
        },
        Probed {
            name: "busy".to_string(),
            path: "/w/busy".to_string(),
            probe: Probe::Read { changes: 3, head: Some("feature/busy".to_string()) },
        },
    ];
    let primary = Probe::Read { changes: 0, head: Some("main".to_string()) };
    let r = status_report("/repo", &primary, &linked);
    assert_eq!(r.len(), 4);
    assert_eq!(r[0].name, "main");
    assert_eq!(r[0].path, "/repo");
    assert_eq!(r[0].health, Health::Clean);
    assert_eq!(r[0].branch.as_deref(), Some("main"));
    assert_eq!(r[1].name, "gone");
    assert_eq!(r[1].health, Health::Missing);
    assert_eq!(r[1].branch, None);
    assert_eq!(r[2].health, Health::Failed);
    assert_eq!(r[3].name, "busy");
    assert_eq!(r[3].health, Health::Dirty(3));
    assert_eq!(r[3].branch.as_deref(), Some("feature/busy"));
}

#[test]
fn detached_head_is_labelled_head() {
    let rec = status_record("x", "/x", &Probe::Read { changes: 0, head: None });
    assert_eq!(rec.branch.as_deref(), Some("HEAD"));
    assert_eq!(branch_label(&None), "HEAD");
    assert_eq!(branch_label(&Some("dev".to_string())), "dev");
    assert_eq!(health_from_changes(0), Health::Clean);
    assert_eq!(health_from_changes(2), Health::Dirty(2));
}

#[test]
fn listing_puts_primary_first() {
    let primary = HeadInfo {
        shorthand: Some("main".to_string()),
        commit_id: "0123456789abcdef0123456789abcdef01234567".to_string(),
    };
    let linked = vec![
        Listed {
            name: "auth".to_string(),
            path: "/repo/.worktree/auth".to_string(),
            head: HeadInfo {
                shorthand: Some("feature/auth".to_string()),
                commit_id: "fedcba9876543210fedcba9876543210fedcba98".to_string(),
            },
        },
        Listed {
            name: "loose".to_string(),
            path: "/w/loose".to_string(),
            head: HeadInfo { shorthand: None, commit_id: "abc".to_string() },
        },
    ];
    let rows = listing("/repo", &primary, &linked);
    assert_eq!(rows.len(), 3);
    assert_eq!(rows[0].name, "main");
    assert_eq!(rows[0].path, "/repo");
    assert_eq!(rows[0].branch, "main");
    assert_eq!(rows[0].commit, "0123456");
    assert_eq!(rows[1].name, "auth");
    assert_eq!(rows[1].path, "/repo/.worktree/auth");
    assert_eq!(rows[1].branch, "feature/auth");
    assert_eq!(rows[1].commit, "fedcba9");
    assert_eq!(rows[2].branch, "HEAD");
    assert_eq!(rows[2].commit, "abc");
    let row = list_row("x", "/x", &HeadInfo { shorthand: None, commit_id: "1234567890".to_string() });
    assert_eq!(row.branch, "HEAD");
    assert_eq!(row.commit, "1234567");
}

#[test]
fn short_commit_takes_seven() {
    assert_eq!(short_commit("0123456789abcdef0123456789abcdef01234567"), "0123456");
    assert_eq!(short_commit("abc"), "abc");
}

#[test]
fn root_of_primary_checkout() {
    assert_eq!(resolve_root("/repo/.git/", &None, &Some("/repo/".to_string())), Some("/repo".to_string()));
    assert_eq!(resolve_root("/repo/.git", &None, &None), Some("/repo".to_string()));
}

#[test]
fn root_of_linked_worktree_follows_pointer() {
    let pointer = Some("/repo/.git\n".to_string());
    assert_eq!(
        resolve_root("/repo/.git/worktrees/auth/", &pointer, &Some("/w/auth/".to_string())),
        Some("/repo".to_string())
    );
}

#[test]
fn root_of_linked_worktree_with_relative_pointer() {
    let pointer = Some("../..\n".to_string());
    assert_eq!(
        resolve_root("/repo/.git/worktrees/auth/", &pointer, &Some("/repo/.worktree/auth/".to_string())),
        Some("/repo".to_string())
    );
    assert_eq!(resolve_root("/repo/.git/worktrees/auth", &pointer, &None), Some("/repo".to_string()));
    assert_eq!(
        resolve_root("/repo/.git/worktrees/auth/", &Some("./../../".to_string()), &None),
        Some("/repo".to_string())
    );
}

#[test]
fn primary_and_linked_share_a_root() {
    let primary = resolve_root("/repo/.git/", &None, &Some("/repo/".to_string()));
    let absolute = resolve_root("/repo/.git/worktrees/a/", &Some("/repo/.git\n".to_string()), &None);
    let relative = resolve_root("/repo/.git/worktrees/b/", &Some("../..\n".to_string()), &None);
    assert_eq!(primary, Some("/repo".to_string()));
    assert_eq!(absolute, primary);
    assert_eq!(relative, primary);
}

#[test]
fn normalize_collapses_dots() {
    assert_eq!(normalize_path("/repo/.git/worktrees/auth/../.."), "/repo/.git");
    assert_eq!(normalize_path("/a/./b//c/"), "/a/b/c");
    assert_eq!(normalize_path("/.."), "/");
    assert_eq!(normalize_path("/"), "/");
    assert_eq!(normalize_path("../a/../../b"), "../../b");
    assert_eq!(normalize_path("a/.."), "");
    assert_eq!(normalize_path(""), "");
}

#[test]
fn root_of_linked_worktree_falls_back_to_workdir() {
    assert_eq!(
        resolve_root("/repo/.git/worktrees/auth/", &None, &Some("/w/auth/".to_string())),
        Some("/w/auth/".to_string())
    );
    assert_eq!(resolve_root("/repo/.git/worktrees/auth/", &None, &None), None);
}

#[test]
fn path_pieces() {
    assert_eq!(parent_path("/repo/.git/"), Some("/repo".to_string()));
    assert_eq!(parent_path("/repo"), Some("/".to_string()));
    assert_eq!(parent_path("/"), None);
    assert_eq!(parent_path(""), None);
    assert_eq!(parent_path("foo"), Some(String::new()));
    assert_eq!(parent_path("a//b//"), Some("a".to_string()));
    assert_eq!(final_component_of("/repo/.git/"), ".git");
    assert_eq!(final_component_of("/repo/.git/worktrees/x"), "x");
    assert_eq!(pointer_file("/repo/.git/worktrees/x/"), "/repo/.git/worktrees/x/commondir");
    assert_eq!(trim_text("  /repo/.git \r\n"), "/repo/.git");
    assert_eq!(trim_text(" \t "), "");
}

#[test]
fn navigation_replies() {
    assert!(matches!(navigation_reply(Some("/p".to_string()), true), NavReply::PathOnly(p) if p == "/p"));
    assert!(matches!(navigation_reply(Some("/p".to_string()), false), NavReply::Guide(p) if p == "/p"));
    assert!(matches!(navigation_reply(None, true), NavReply::SilentNotFound));
    assert!(matches!(navigation_reply(None, false), NavReply::NotFoundWithListing));
    assert_eq!(NOT_FOUND_STATUS, 1);
}
