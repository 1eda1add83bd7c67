use mise_tui::data::command::{CommandError, CommandResult};
use mise_tui::data::external::{
    checkupdates_outcome, parse_checkupdates, parse_systemctl_show, systemctl_argv,
    DEFAULT_MAX_OUTPUT_BYTES,
};
use mise_tui::data::types::ActiveState;

// -- checkupdates parser tests --

#[test]
fn parse_checkupdates_standard() {
    let output = "linux 6.8.1-arch1-1 -> 6.8.2-arch1-1\nfirefox 124.0-1 -> 125.0-1\n";
    let updates = parse_checkupdates(output);
    assert_eq!(updates.len(), 2);
    assert_eq!(updates[0].name, "linux");
    assert_eq!(updates[0].old_version, "6.8.1-arch1-1");
    assert_eq!(updates[0].new_version, "6.8.2-arch1-1");
    assert_eq!(updates[1].name, "firefox");
    assert_eq!(updates[1].old_version, "124.0-1");
    assert_eq!(updates[1].new_version, "125.0-1");
}

#[test]
fn parse_checkupdates_empty() {
    let updates = parse_checkupdates("");
    assert!(updates.is_empty());
}

#[test]
fn parse_checkupdates_malformed_skipped() {
    let output = "good-pkg 1.0 -> 2.0\nmalformed line without arrow\n-> also bad\n";
    let updates = parse_checkupdates(output);
    assert_eq!(updates.len(), 1);
    assert_eq!(updates[0].name, "good-pkg");
}

#[test]
fn parse_checkupdates_trailing_whitespace() {
    let output = "  linux 6.8.1 -> 6.8.2  \n";
    let updates = parse_checkupdates(output);
    assert_eq!(updates.len(), 1);
    assert_eq!(updates[0].name, "linux");
    assert_eq!(updates[0].old_version, "6.8.1");
    assert_eq!(updates[0].new_version, "6.8.2");
}

// -- systemctl show parser tests --

#[test]
fn parse_systemctl_two_active() {
    let output = "ActiveState=active\nSubState=running\n\nActiveState=active\nSubState=running";
    let names = vec!["sshd.service".to_string(), "nginx.service".to_string()];
    let statuses = parse_systemctl_show(output, &names);
    assert_eq!(statuses.len(), 2);
    assert_eq!(statuses[0].name, "sshd.service");
    assert_eq!(statuses[0].active_state, ActiveState::Active);
    assert_eq!(statuses[0].sub_state, "running");
    assert_eq!(statuses[1].name, "nginx.service");
    assert_eq!(statuses[1].active_state, ActiveState::Active);
}

#[test]
fn parse_systemctl_mixed_states() {
    let output = "ActiveState=active\nSubState=running\n\nActiveState=failed\nSubState=failed\n\nActiveState=inactive\nSubState=dead";
    let names = vec![
        "sshd.service".to_string(),
        "bad.service".to_string(),
        "stopped.service".to_string(),
    ];
    let statuses = parse_systemctl_show(output, &names);
    assert_eq!(statuses.len(), 3);
    assert_eq!(statuses[0].active_state, ActiveState::Active);
    assert_eq!(statuses[1].active_state, ActiveState::Failed);
    assert_eq!(statuses[1].sub_state, "failed");
    assert_eq!(statuses[2].active_state, ActiveState::Inactive);
    assert_eq!(statuses[2].sub_state, "dead");
}

#[test]
fn parse_systemctl_missing_property() {
    let output = "SubState=running";
    let names = vec!["mystery.service".to_string()];
    let statuses = parse_systemctl_show(output, &names);
    assert_eq!(statuses.len(), 1);
    assert_eq!(statuses[0].active_state, ActiveState::Other("unknown".to_string()));
    assert_eq!(statuses[0].sub_state, "running");
}

#[test]
fn parse_systemctl_empty() {
    let statuses = parse_systemctl_show("", &vec![]);
    assert!(statuses.is_empty());
}

// -- further cases --

#[test]
fn parse_systemctl_more_names_than_blocks_reads_unknown() {
    let names = vec!["a.service".to_string(), "b.service".to_string()];
    let statuses = parse_systemctl_show("ActiveState=activating\nSubState=start", &names);
    assert_eq!(statuses.len(), 2);
    assert_eq!(statuses[0].active_state, ActiveState::Activating);
    assert_eq!(statuses[0].sub_state, "start");
    assert_eq!(statuses[1].name, "b.service");
    assert_eq!(statuses[1].active_state, ActiveState::Other("unknown".to_string()));
    assert_eq!(statuses[1].sub_state, "");
}

#[test]
fn parse_systemctl_deactivating_and_other() {
    let names = vec!["a.service".to_string(), "b.service".to_string()];
    let statuses = parse_systemctl_show(
        "ActiveState=deactivating\nSubState=stop\n\nActiveState=reloading\nSubState=x",
        &names,
    );
    assert_eq!(statuses[0].active_state, ActiveState::Deactivating);
    assert_eq!(statuses[1].active_state, ActiveState::Other("reloading".to_string()));
}

#[test]
fn checkupdates_exit_code_two_means_no_updates() {
    let outcome = checkupdates_outcome(Err(CommandError::Failed { exit_code: 2, stderr: String::new() }));
    match outcome {
        Ok(data) => assert!(data.updates.is_empty()),
        Err(_) => panic!("exit code 2 is not an error"),
    }
}

#[test]
fn checkupdates_other_failure_is_error() {
    let outcome = checkupdates_outcome(Err(CommandError::Failed { exit_code: 1, stderr: "boom".to_string() }));
    assert!(matches!(outcome, Err(CommandError::Failed { exit_code: 1, .. })));
    let outcome = checkupdates_outcome(Err(CommandError::NotFound("checkupdates".to_string())));
    assert!(matches!(outcome, Err(CommandError::NotFound(_))));
}

#[test]
fn checkupdates_success_is_parsed() {
    let outcome = checkupdates_outcome(Ok(CommandResult {
        stdout: "vim 9.0 -> 9.1\n".to_string(),
        exit_code: Some(0),
    }));
    let data = outcome.ok().unwrap();
    assert_eq!(data.updates.len(), 1);
    assert_eq!(data.updates[0].name, "vim");
    assert_eq!(data.updates[0].new_version, "9.1");
}

#[test]
fn systemctl_argv_user_scope() {
    let argv = systemctl_argv("user", &vec!["a.service".to_string(), "b.service".to_string()]);
    assert_eq!(
        argv,
        vec!["systemctl", "--user", "show", "--property=ActiveState,SubState", "--", "a.service", "b.service"]
    );
}

#[test]
fn systemctl_argv_system_scope() {
    let argv = systemctl_argv("system", &vec!["sshd.service".to_string()]);
    assert_eq!(argv, vec!["systemctl", "show", "--property=ActiveState,SubState", "--", "sshd.service"]);
}

#[test]
fn default_output_cap() {
    assert_eq!(DEFAULT_MAX_OUTPUT_BYTES, 64 * 1024);
}
