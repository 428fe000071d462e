//! Tests for projects, artifact-size accounting, clean summaries, scan
//! options, the age-filter parser, and the prompt interpreter.

use devdust_core::{
    clean_outcome, interpret_prompt_answer, is_hidden_name, latest_time, parse_age_filter,
    sort_projects_by_size, sum_sizes, CleanError, DeleteAttempt, Project, ProjectType,
    PromptAnswer, ScanOptions,
};

#[test]
fn project_new_keeps_its_fields() {
    let p = Project::new(ProjectType::Rust, "/home/me/code/proj".to_string());
    assert_eq!(p.project_type, ProjectType::Rust);
    assert_eq!(p.path, "/home/me/code/proj");
}

#[test]
fn display_name_takes_last_path_component() {
    let p = Project::new(ProjectType::Rust, "/home/me/code/proj".to_string());
    assert_eq!(p.display_name(), "proj");
    let p = Project::new(ProjectType::Node, "relative/dir".to_string());
    assert_eq!(p.display_name(), "dir");
    let p = Project::new(ProjectType::Node, "plain".to_string());
    assert_eq!(p.display_name(), "plain");
    let p = Project::new(ProjectType::Node, "/home/me/code/proj/".to_string());
    assert_eq!(p.display_name(), "proj");
}

#[test]
fn display_name_skips_trailing_dot_components() {
    // Trailing `.` components are ignored, as path resolution ignores them.
    let p = Project::new(ProjectType::Rust, "proj/.".to_string());
    assert_eq!(p.display_name(), "proj");
    let p = Project::new(ProjectType::Rust, "foo.txt/.".to_string());
    assert_eq!(p.display_name(), "foo.txt");
    let p = Project::new(ProjectType::Rust, "a/././".to_string());
    assert_eq!(p.display_name(), "a");
    // A name that merely ends in a dot is kept whole.
    let p = Project::new(ProjectType::Rust, "a/b.".to_string());
    assert_eq!(p.display_name(), "b.");
    let p = Project::new(ProjectType::Rust, "a/...".to_string());
    assert_eq!(p.display_name(), "...");
}

#[test]
fn display_name_falls_back_to_unknown() {
    for path in ["", "/", ".", "..", "a/..", "././", "/."] {
        let p = Project::new(ProjectType::Rust, path.to_string());
        assert_eq!(p.display_name(), "Unknown", "path {:?}", path);
    }
}

#[test]
fn artifact_size_sums_per_directory_sizes() {
    let p = Project::new(ProjectType::Rust, "/p".to_string());
    // One size per artifact directory of the type (target, .xwin-cache).
    assert_eq!(p.calculate_artifact_size(&vec![100, 20]), 120);
    assert_eq!(p.calculate_artifact_size(&vec![0, 0]), 0);
}

#[test]
fn artifact_size_saturates() {
    let p = Project::new(ProjectType::Rust, "/p".to_string());
    assert_eq!(p.calculate_artifact_size(&vec![u64::MAX, 1]), u64::MAX);
    assert_eq!(p.calculate_artifact_size(&vec![u64::MAX - 5, 5]), u64::MAX);
}

#[test]
fn clean_outcome_sums_successful_attempts() {
    let attempts = vec![
        DeleteAttempt { path: "/p/target".to_string(), size: 100, error: None },
        DeleteAttempt { path: "/p/.xwin-cache".to_string(), size: 5, error: None },
    ];
    match clean_outcome(&attempts) {
        Ok(freed) => assert_eq!(freed, 105),
        Err(_) => panic!("expected every attempt to count as freed"),
    }
}

#[test]
fn clean_outcome_of_no_attempts_frees_nothing() {
    match clean_outcome(&Vec::new()) {
        Ok(freed) => assert_eq!(freed, 0),
        Err(_) => panic!("no attempts cannot fail"),
    }
}

#[test]
fn clean_outcome_collects_failures() {
    let attempts = vec![
        DeleteAttempt { path: "/p/build".to_string(), size: 70, error: None },
        DeleteAttempt {
            path: "/p/.gradle".to_string(),
            size: 9,
            error: Some("permission denied".to_string()),
        },
    ];
    match clean_outcome(&attempts) {
        Ok(_) => panic!("a failed attempt must surface"),
        Err(CleanError::PartialFailure { deleted, errors }) => {
            assert_eq!(deleted, 70);
            assert_eq!(
                errors,
                vec![("/p/.gradle".to_string(), "permission denied".to_string())]
            );
        }
        Err(CleanError::IoError(_)) => panic!("expected a partial failure"),
    }
}

#[test]
fn latest_time_picks_the_maximum() {
    assert_eq!(latest_time(5, &vec![]), 5);
    assert_eq!(latest_time(5, &vec![3, 9, 7]), 9);
    assert_eq!(latest_time(10, &vec![3, 9, 7]), 10);
}

#[test]
fn sum_sizes_adds_and_saturates() {
    assert_eq!(sum_sizes(&vec![]), 0);
    assert_eq!(sum_sizes(&vec![1, 2, 3]), 6);
    assert_eq!(sum_sizes(&vec![u64::MAX, 1, 2]), u64::MAX);
}

#[test]
fn clean_error_messages() {
    let e = CleanError::IoError("permission denied".to_string());
    assert_eq!(e.describe(), "Clean error: permission denied");
    let e = CleanError::PartialFailure {
        deleted: 70,
        errors: vec![
            ("/p/.gradle".to_string(), "permission denied".to_string()),
            ("/p/build".to_string(), "busy".to_string()),
        ],
    };
    assert_eq!(e.describe(), "Partially cleaned (70 bytes), 2 errors occurred");
}

#[test]
fn sorting_orders_largest_first_and_keeps_ties_stable() {
    let mk = |name: &str, size: u64| (Project::new(ProjectType::Rust, name.to_string()), size);
    let sorted = sort_projects_by_size(vec![
        mk("/a", 10),
        mk("/b", 300),
        mk("/c", 10),
        mk("/d", 200),
    ]);
    let view: Vec<(String, u64)> = sorted.iter().map(|p| (p.0.path.clone(), p.1)).collect();
    assert_eq!(
        view,
        vec![
            ("/b".to_string(), 300),
            ("/d".to_string(), 200),
            ("/a".to_string(), 10),
            ("/c".to_string(), 10),
        ]
    );
    assert!(sort_projects_by_size(Vec::new()).is_empty());
}

#[test]
fn scan_options_default() {
    let o = ScanOptions::default();
    assert!(!o.follow_symlinks);
    assert!(o.same_filesystem);
    assert_eq!(o.min_age_seconds, 0);
}

#[test]
fn age_filter_rejects_only_known_recent_times() {
    let o = ScanOptions { follow_symlinks: false, same_filesystem: true, min_age_seconds: 10 };
    assert!(o.too_recent(Some(5)));
    assert!(!o.too_recent(Some(10)));
    assert!(!o.too_recent(None));
    let o = ScanOptions { follow_symlinks: false, same_filesystem: true, min_age_seconds: 0 };
    assert!(!o.too_recent(Some(5)));
}

#[test]
fn hidden_names_start_with_a_dot() {
    assert!(is_hidden_name(".git"));
    assert!(is_hidden_name("."));
    assert!(!is_hidden_name("src"));
    assert!(!is_hidden_name(""));
}

#[test]
fn parse_age_filter_accepts_counts_with_units() {
    assert_eq!(parse_age_filter("10m"), Ok(600));
    assert_eq!(parse_age_filter("1h"), Ok(3600));
    assert_eq!(parse_age_filter("30d"), Ok(2_592_000));
    assert_eq!(parse_age_filter("2w"), Ok(1_209_600));
    assert_eq!(parse_age_filter("6M"), Ok(15_552_000));
    assert_eq!(parse_age_filter("1y"), Ok(31_536_000));
    assert_eq!(parse_age_filter("0d"), Ok(0));
    // A count whose seconds do not fit saturates.
    assert_eq!(parse_age_filter("18446744073709551615y"), Ok(u64::MAX));
}

#[test]
fn parse_age_filter_rejects_bad_input() {
    assert_eq!(parse_age_filter(""), Err("Age filter cannot be empty".to_string()));
    assert_eq!(parse_age_filter("d"), Err("Invalid number: ".to_string()));
    assert_eq!(parse_age_filter("abcy"), Err("Invalid number: abc".to_string()));
    assert_eq!(parse_age_filter("1.5d"), Err("Invalid number: 1.5".to_string()));
    assert_eq!(
        parse_age_filter("99999999999999999999y"),
        Err("Invalid number: 99999999999999999999".to_string())
    );
    assert_eq!(
        parse_age_filter("3x"),
        Err("Invalid unit: x. Use m, h, d, w, M, or y".to_string())
    );
    assert_eq!(
        parse_age_filter("30"),
        Err("Invalid unit: 0. Use m, h, d, w, M, or y".to_string())
    );
}

#[test]
fn prompt_answers_are_trimmed_and_case_insensitive() {
    assert_eq!(interpret_prompt_answer("y\n"), PromptAnswer::Yes);
    assert_eq!(interpret_prompt_answer("YES\n"), PromptAnswer::Yes);
    assert_eq!(interpret_prompt_answer("\n"), PromptAnswer::No);
    assert_eq!(interpret_prompt_answer("n\n"), PromptAnswer::No);
    assert_eq!(interpret_prompt_answer("No\n"), PromptAnswer::No);
    assert_eq!(interpret_prompt_answer("  a  \n"), PromptAnswer::All);
    assert_eq!(interpret_prompt_answer("all\n"), PromptAnswer::All);
    assert_eq!(interpret_prompt_answer("q\n"), PromptAnswer::Quit);
    assert_eq!(interpret_prompt_answer("Quit\n"), PromptAnswer::Quit);
    assert_eq!(interpret_prompt_answer("maybe\n"), PromptAnswer::Invalid);
}
