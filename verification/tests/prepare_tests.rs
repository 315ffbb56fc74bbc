use alfa::prepare::{provision_error, Prepare, ProvisionStep, UserPhase, UserProvision};
use alfa::profile::Profile;

fn profile() -> Profile {
    Profile {
        user_name: "lfa_cafe".to_string(),
        build_dir: "/mnt/sys-1-cafe".to_string(),
    }
}

#[test]
fn dir_plan_is_root_and_fixed_subdirectories() {
    let profile = profile();
    let prepare = Prepare { profile: &profile };
    let paths = prepare.alfa_dir_paths();
    assert_eq!(
        paths,
        vec![
            "/mnt/sys-1-cafe".to_string(),
            "/mnt/sys-1-cafe/lfa".to_string(),
            "/mnt/sys-1-cafe/src".to_string(),
            "/mnt/sys-1-cafe/scripts".to_string(),
        ]
    );
}

#[test]
fn step_commands_are_exact() {
    let profile = profile();
    let prepare = Prepare { profile: &profile };

    let (prog, args) = prepare.step_command(ProvisionStep::Group);
    assert_eq!(prog, "/sbin/groupadd");
    assert_eq!(args, vec!["lfa_cafe".to_string()]);

    let (prog, args) = prepare.step_command(ProvisionStep::User);
    assert_eq!(prog, "/sbin/useradd");
    assert_eq!(
        args,
        vec![
            "-s".to_string(),
            "/bin/bash".to_string(),
            "-g".to_string(),
            "lfa_cafe".to_string(),
            "-m".to_string(),
            "-k".to_string(),
            "/dev/null".to_string(),
            "lfa_cafe".to_string(),
        ]
    );

    let (prog, args) = prepare.step_command(ProvisionStep::Password);
    assert_eq!(prog, "/sbin/passwd");
    assert_eq!(args, vec!["lfa_cafe".to_string()]);
}

#[test]
fn user_provision_runs_the_steps_in_order() {
    let mut up = UserProvision::new();
    assert_eq!(up.current_step(), Some(ProvisionStep::Group));
    up.on_step_result(true);
    assert_eq!(up.current_step(), Some(ProvisionStep::User));
    up.on_step_result(true);
    assert_eq!(up.current_step(), Some(ProvisionStep::Password));
    up.on_step_result(true);
    assert_eq!(up.phase, UserPhase::Done);
    assert_eq!(up.current_step(), None);
}

#[test]
fn a_failed_step_stops_the_sequence() {
    let mut up = UserProvision::new();
    up.on_step_result(false);
    assert_eq!(up.phase, UserPhase::Failed(ProvisionStep::Group));
    assert_eq!(up.current_step(), None);

    let mut up = UserProvision::new();
    up.on_step_result(true);
    up.on_step_result(false);
    assert_eq!(up.phase, UserPhase::Failed(ProvisionStep::User));
}

#[test]
fn provision_error_messages_match_the_step() {
    assert_eq!(
        provision_error(ProvisionStep::Group, "lfa_cafe").message,
        "Failed to create group 'lfa_cafe'"
    );
    assert_eq!(
        provision_error(ProvisionStep::User, "lfa_cafe").message,
        "Failed to create user 'lfa_cafe'"
    );
    assert_eq!(
        provision_error(ProvisionStep::Password, "lfa_cafe").message,
        "Failed to set password for 'lfa_cafe' user"
    );
}
