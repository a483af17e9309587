use submodule_kit::commands::is::{list, run, IsAction, IsCondition};
use submodule_kit::commands::list::list_submodules;
use submodule_kit::commands::{error_line, exit_status};
use submodule_kit::submodule::SubmoduleInfo;

/// Runs `is` to its end; none of these runs needs a remote.
fn drive(
    conditions: Vec<IsCondition>,
    gitmodules: &Result<String, String>,
    out: &mut Vec<String>,
) -> Result<bool, String> {
    let mut r = run(conditions, gitmodules.clone(), out);
    match r.proceed(out) {
        IsAction::Finished(outcome) => outcome,
        IsAction::LsRemote { .. } => panic!("no remote was expected"),
    }
}

const TWO_SUBMODULES: &str = "[submodule \"with\"]\n    path = with\n    url = https://example.com/with.git\n    branch = main\n[submodule \"without\"]\n    path = without\n    url = https://example.com/without.git\n";

#[test]
fn list_reads_the_given_gitmodules() {
    let mut out = Vec::new();
    let result = list(&Ok(TWO_SUBMODULES.to_string()), &mut out);
    assert!(result.is_ok());
    assert_eq!(
        out,
        vec![
            "with     https://example.com/with.git  (branch: main)".to_string(),
            "without  https://example.com/without.git".to_string(),
        ]
    );
}

#[test]
fn list_reports_a_failed_read() {
    let mut out = Vec::new();
    let result = list(&Err("No such file or directory (os error 2)".to_string()), &mut out);
    assert_eq!(
        result,
        Err("Failed to read .gitmodules: No such file or directory (os error 2)".to_string())
    );
    assert!(out.is_empty());
}

#[test]
fn list_reports_a_malformed_file() {
    let mut out = vec!["kept".to_string()];
    let result = list(&Ok("[submodule \"bad\"]\n    path = bad\n".to_string()), &mut out);
    assert_eq!(
        result,
        Err("submodule 'bad' is missing 'url =' in .gitmodules".to_string())
    );
    assert_eq!(out, vec!["kept".to_string()]);
}

#[test]
fn list_appends_after_earlier_lines() {
    let mut out = vec!["first".to_string()];
    list(&Ok("[submodule \"a\"]\npath = a\nurl = u\n".to_string()), &mut out).unwrap();
    assert_eq!(out, vec!["first".to_string(), "a  u".to_string()]);
}

#[test]
fn exit_status_of_each_outcome() {
    assert_eq!(exit_status(&Ok(true)), 0);
    assert_eq!(exit_status(&Ok(false)), 1);
    assert_eq!(exit_status(&Err("boom".to_string())), 2);
}

#[test]
fn error_line_prefixes_the_error() {
    assert_eq!(error_line("boom"), "error: boom");
    assert_eq!(error_line(""), "error: ");
}

#[test]
fn exit_status_of_a_run_without_conditions_is_zero() {
    let mut out = Vec::new();
    let outcome = drive(vec![], &Ok(String::new()), &mut out);
    assert_eq!(exit_status(&outcome), 0);
}

#[test]
fn exit_status_of_a_failed_read_is_two() {
    let mut out = Vec::new();
    let outcome = drive(vec![IsCondition::OnBranch], &Err("gone".to_string()), &mut out);
    assert_eq!(outcome, Err("Failed to read .gitmodules: gone".to_string()));
    assert_eq!(exit_status(&outcome), 2);
}

#[test]
fn the_first_error_stops_the_run() {
    // The read fails, so `on-branch` fails; the conditions after it are not checked.
    let mut out = Vec::new();
    let outcome = drive(
        vec![IsCondition::OnBranch, IsCondition::Synced, IsCondition::AllUpToDate],
        &Err("gone".to_string()),
        &mut out,
    );
    assert_eq!(outcome, Err("Failed to read .gitmodules: gone".to_string()));
    assert!(out.is_empty());
}

#[test]
fn list_submodules_pads_to_the_widest_path() {
    let subs = vec![
        SubmoduleInfo { path: "a".to_string(), url: "ua".to_string(), branch: Some("main".to_string()) },
        SubmoduleInfo { path: "long".to_string(), url: "ul".to_string(), branch: None },
    ];
    let mut out = Vec::new();
    list_submodules(&subs, &mut out);
    assert_eq!(out, vec!["a     ua  (branch: main)".to_string(), "long  ul".to_string()]);
}
