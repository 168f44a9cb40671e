use awsome::aws_command::{
    AwsCliError, AwsCommand, AwsError, CommandInvocation, DescribeInstancesOutput, InstanceJson,
    InstanceState, Reservation, SendCommandCommand, SendCommandOutput, Tag,
};
use awsome::client::{
    describe_instances, ensure_logged_in, is_logged_in, list_profiles, map_instances,
    parse_profiles, start_ssh_proxy, ClientError, Ec2Instance, InstanceEntry, SsmProgress,
    SsmStep,
};

fn instance(id: &str, state: &str, tags: Option<Vec<(&str, &str)>>) -> InstanceJson {
    InstanceJson {
        instance_id: id.to_string(),
        state: InstanceState { name: state.to_string() },
        tags: tags.map(|ts| {
            ts.into_iter()
                .map(|(k, v)| Tag { key: k.to_string(), value: v.to_string() })
                .collect()
        }),
    }
}

fn args(cmd: &AwsCommand) -> Vec<&str> {
    cmd.args.iter().map(|a| a.as_str()).collect()
}

fn cli_failure(needs_login: bool) -> AwsError {
    AwsError::Cli(AwsCliError {
        command: "aws sts get-caller-identity".to_string(),
        stderr: "boom".to_string(),
        needs_login,
    })
}

#[test]
fn parse_profiles_trims_and_drops_blank_lines() {
    let stdout = "default\n  james-bond  \n\n\tother-profile\n   \n";
    assert_eq!(
        parse_profiles(stdout),
        vec!["default", "james-bond", "other-profile"]
    );
}

#[test]
fn parse_profiles_empty_input_yields_empty() {
    assert!(parse_profiles("").is_empty());
    assert!(parse_profiles("   \n\t\n").is_empty());
}

#[test]
fn map_instances_extracts_name_tag_and_flattens_reservations() {
    let out = DescribeInstancesOutput {
        reservations: vec![
            Reservation {
                instances: vec![instance(
                    "i-withname",
                    "running",
                    Some(vec![("env", "dev"), ("Name", "web-server")]),
                )],
            },
            Reservation { instances: vec![instance("i-noname", "stopped", None)] },
        ],
    };

    let entries = map_instances(&out);
    assert_eq!(entries.len(), 2);

    assert_eq!(entries[0].instance_id, "i-withname");
    assert_eq!(entries[0].name, "web-server");
    assert_eq!(entries[0].state, "running");

    assert_eq!(entries[1].instance_id, "i-noname");
    assert_eq!(entries[1].name, "(no Name tag)");
    assert_eq!(entries[1].state, "stopped");
}

#[test]
fn map_instances_empty_output_yields_empty() {
    let out = DescribeInstancesOutput { reservations: vec![] };
    assert!(map_instances(&out).is_empty());
}

#[test]
fn map_instances_takes_the_first_name_tag_and_skips_empty_tag_lists() {
    let out = DescribeInstancesOutput {
        reservations: vec![Reservation {
            instances: vec![
                instance("i-a", "pending", Some(vec![("Name", "first"), ("Name", "second")])),
                instance("i-b", "stopping", Some(vec![])),
                instance("i-c", "running", Some(vec![("name", "lowercase key")])),
            ],
        }],
    };
    let entries = describe_instances(&out);
    let names: Vec<&str> = entries.iter().map(|e| e.name.as_str()).collect();
    assert_eq!(names, vec!["first", "(no Name tag)", "(no Name tag)"]);
}

#[test]
fn parse_profiles_keeps_inner_spaces_and_handles_crlf() {
    assert_eq!(
        parse_profiles("a b\r\n\u{A0}c\u{3000}\r\nlast"),
        vec!["a b", "c", "last"]
    );
}

#[test]
fn list_profiles_refuses_an_empty_listing() {
    assert!(matches!(list_profiles(" \n\n"), Err(ClientError::NoProfiles)));
    assert_eq!(
        ClientError::NoProfiles.message(),
        "no AWS CLI profiles found, make sure it's configured"
    );
    assert_eq!(list_profiles("dev\nprod\n").unwrap(), vec!["dev", "prod"]);
}

#[test]
fn classify_detects_expired_credentials_in_any_ascii_case() {
    let e = AwsCliError::classify(
        "aws sts".to_string(),
        "Error: The SSO session associated with this profile has EXPIRED or is invalid".to_string(),
    );
    assert!(e.needs_login);
    let e = AwsCliError::classify("aws sts".to_string(), "Unable to locate credentials.".to_string());
    assert!(e.needs_login);
    let e = AwsCliError::classify("aws sts".to_string(), "An error occurred (AccessDenied)".to_string());
    assert!(!e.needs_login);
    assert_eq!(e.stderr, "An error occurred (AccessDenied)");
}

#[test]
fn cli_error_trims_stderr_and_reports_the_command_line() {
    let cmd = AwsCommand::sso_login("dev");
    let e = cmd.cli_error("  Token has expired and refresh failed \n");
    assert!(e.needs_login);
    assert_eq!(e.stderr, "Token has expired and refresh failed");
    assert_eq!(e.command, "aws sso login --no-cli-pager --profile dev");
    assert_eq!(
        e.message(),
        "`aws sso login --no-cli-pager --profile dev` failed (credentials missing or expired - an SSO login is needed): Token has expired and refresh failed"
    );
    let other = cmd.cli_error("nope");
    assert_eq!(other.message(), "`aws sso login --no-cli-pager --profile dev` failed: nope");
}

#[test]
fn needs_login_only_for_cli_failures_that_report_it() {
    assert!(AwsCliError::needs_login(&cli_failure(true)));
    assert!(!AwsCliError::needs_login(&cli_failure(false)));
    assert!(!AwsCliError::needs_login(&AwsError::Other("aws not found".to_string())));
}

#[test]
fn is_logged_in_reads_the_caller_identity_outcome() {
    assert!(is_logged_in(Ok(())).unwrap());
    assert!(!is_logged_in(Err(cli_failure(true))).unwrap());
    assert!(is_logged_in(Err(cli_failure(false))).is_err());
    assert!(is_logged_in(Err(AwsError::Other("x".to_string()))).is_err());
}

#[test]
fn ensure_logged_in_asks_for_an_sso_login_only_when_needed() {
    assert!(ensure_logged_in("dev", Ok(())).unwrap().is_none());
    let login = ensure_logged_in("dev", Err(cli_failure(true))).unwrap().unwrap();
    assert_eq!(args(&login), vec!["sso", "login", "--no-cli-pager", "--profile", "dev"]);
    assert!(ensure_logged_in("dev", Err(cli_failure(false))).is_err());
}

#[test]
fn start_ssh_proxy_fails_fast_without_credentials() {
    let err = start_ssh_proxy("dev", "i-1", 22, Err(cli_failure(true))).unwrap_err();
    assert_eq!(err.message(), "profile dev is not logged in");
    let cmd = start_ssh_proxy("dev", "i-1", 2222, Ok(())).unwrap();
    assert_eq!(cmd.program, "aws");
    assert_eq!(
        args(&cmd),
        vec![
            "ssm",
            "start-session",
            "--target",
            "i-1",
            "--document-name",
            "AWS-StartSSHSession",
            "--parameters",
            "portNumber=2222",
            "--profile",
            "dev"
        ]
    );
    assert!(matches!(
        start_ssh_proxy("dev", "i-1", 22, Err(cli_failure(false))),
        Err(ClientError::Aws(AwsError::Cli(_)))
    ));
}

#[test]
fn aws_commands_carry_the_expected_arguments() {
    let d = AwsCommand::describe_instances("p", Some("i-9"));
    assert_eq!(
        args(&d),
        vec!["ec2", "describe-instances", "--instance-ids", "i-9", "--profile", "p", "--output", "json"]
    );
    let d = AwsCommand::describe_instances("p", None);
    assert_eq!(args(&d), vec!["ec2", "describe-instances", "--profile", "p", "--output", "json"]);
    assert_eq!(d.command_line(), "aws ec2 describe-instances --profile p --output json");
    assert_eq!(args(&AwsCommand::list_profiles()), vec!["configure", "list-profiles"]);
    assert_eq!(
        args(&AwsCommand::get_caller_identity("p")),
        vec!["sts", "get-caller-identity", "--no-cli-pager", "--profile", "p"]
    );
    assert_eq!(
        args(&AwsCommand::start_instances("p", "i")),
        vec!["ec2", "start-instances", "--instance-ids", "i", "--no-cli-pager", "--profile", "p"]
    );
    assert_eq!(
        args(&AwsCommand::wait_instance_running("p", "i")),
        vec!["ec2", "wait", "instance-running", "--instance-ids", "i", "--profile", "p"]
    );
    assert_eq!(
        args(&AwsCommand::stop_instances("p", "i")),
        vec!["ec2", "stop-instances", "--instance-ids", "i", "--no-cli-pager", "--profile", "p"]
    );
    assert_eq!(
        args(&AwsCommand::wait_instance_stopped("p", "i")),
        vec!["ec2", "wait", "instance-stopped", "--instance-ids", "i", "--profile", "p"]
    );
    assert_eq!(
        args(&AwsCommand::send_shell_script_command("p", "i", "echo hi")),
        vec![
            "ssm", "send-command", "--instance-ids", "i", "--document-name", "AWS-RunShellScript",
            "--parameters", "echo hi", "--profile", "p", "--output", "json"
        ]
    );
    assert_eq!(
        args(&AwsCommand::wait_command_executed("p", "c", "i")),
        vec!["ssm", "wait", "command-executed", "--command-id", "c", "--instance-id", "i", "--profile", "p"]
    );
    assert_eq!(
        args(&AwsCommand::get_command_invocation("p", "c", "i")),
        vec![
            "ssm", "get-command-invocation", "--command-id", "c", "--instance-id", "i", "--profile",
            "p", "--output", "json"
        ]
    );
}

#[test]
fn start_and_stop_plans_skip_instances_already_there() {
    let ec2 = Ec2Instance::new_logged_in("p", "i-7");
    assert!(ec2.start_and_wait("running").is_empty());
    let plan = ec2.start_and_wait("stopped");
    assert_eq!(plan.len(), 2);
    assert_eq!(args(&plan[0])[1], "start-instances");
    assert_eq!(args(&plan[1])[2], "instance-running");
    assert!(ec2.stop_and_wait("stopped").is_empty());
    let plan = ec2.stop_and_wait("running");
    assert_eq!(args(&plan[0])[1], "stop-instances");
    assert_eq!(args(&plan[1])[2], "instance-stopped");
}

#[test]
fn state_is_the_first_entry_or_not_found() {
    let ec2 = Ec2Instance::new_logged_in("p", "i-7");
    let entries = vec![InstanceEntry {
        instance_id: "i-7".to_string(),
        name: "n".to_string(),
        state: "running".to_string(),
    }];
    assert_eq!(ec2.state(&entries).unwrap(), "running");
    let err = ec2.state(&vec![]).unwrap_err();
    assert_eq!(err.message(), "instance i-7 was not found");
    assert_eq!(entries[0].to_string(), "i-7 n");
}

#[test]
fn schedule_shutdown_sends_the_shutdown_script() {
    let ec2 = Ec2Instance::new_logged_in("p", "i-7");
    let cmd = match ec2.schedule_shutdown(42, "18:30") {
        SsmStep::Send(cmd) => cmd,
        other => panic!("expected a send step, got {other:?}"),
    };
    let script = args(&cmd)[7];
    assert_eq!(
        script,
        "if show=$(shutdown --show 2>&1); then echo 'Shutdown already scheduled, leaving it as-is:'; echo \"$show\"; else shutdown -h +42 'Auto-shutdown scheduled by awsome' && echo 'Scheduled shutdown at 18:30 (in 42 minute(s)).'; fi"
    );
}

#[test]
fn push_public_key_starts_the_instance_before_sending_the_script() {
    let ec2 = Ec2Instance::new_logged_in("p", "i-7");
    let plan = ec2.push_public_key("stopped", "install");
    assert_eq!(plan.start.len(), 2);
    assert_eq!(args(&plan.start[0])[1], "start-instances");
    assert_eq!(args(&plan.start[1])[2], "instance-running");
    match plan.ssm {
        SsmStep::Send(cmd) => assert_eq!(args(&cmd)[7], "install"),
        other => panic!("expected a send step, got {other:?}"),
    }
    assert!(ec2.push_public_key("running", "install").start.is_empty());
}

#[test]
fn ssm_steps_send_then_wait_then_fetch_and_stop_at_a_failure() {
    let ec2 = Ec2Instance::new_logged_in("p", "i-7");
    let sent = SendCommandOutput { command: SendCommandCommand { command_id: "c-1".to_string() } };
    let (command_id, wait) = match ec2.ssm_next(SsmProgress::Sent(Ok(sent))) {
        SsmStep::Wait { command_id, call } => (command_id, call),
        other => panic!("expected a wait step, got {other:?}"),
    };
    assert_eq!(command_id, "c-1");
    assert_eq!(
        args(&wait),
        vec!["ssm", "wait", "command-executed", "--command-id", "c-1", "--instance-id", "i-7", "--profile", "p"]
    );
    let fetch = match ec2.ssm_next(SsmProgress::Waited { command_id, result: Ok(()) }) {
        SsmStep::Fetch { call, .. } => call,
        other => panic!("expected a fetch step, got {other:?}"),
    };
    assert_eq!(args(&fetch)[1], "get-command-invocation");
    assert_eq!(args(&fetch)[3], "c-1");
    let inv = CommandInvocation {
        status: "Success".to_string(),
        standard_output_content: Some("done".to_string()),
        standard_error_content: None,
    };
    match ec2.ssm_next(SsmProgress::Fetched(Ok(inv))) {
        SsmStep::Done(Ok(out)) => assert_eq!(out.stdout.as_deref(), Some("done")),
        other => panic!("expected success, got {other:?}"),
    }
    match ec2.ssm_next(SsmProgress::Sent(Err(AwsError::Other("no aws".to_string())))) {
        SsmStep::Done(Err(e)) => assert_eq!(e.message(), "no aws"),
        other => panic!("expected a failure, got {other:?}"),
    }
    match ec2.ssm_next(SsmProgress::Waited {
        command_id: "c-1".to_string(),
        result: Err(cli_failure(false)),
    }) {
        SsmStep::Done(Err(ClientError::Aws(_))) => {}
        other => panic!("expected a failure, got {other:?}"),
    }
}

#[test]
fn ssm_script_outcome_reports_failures_with_their_output() {
    let failed = CommandInvocation {
        status: "Failed".to_string(),
        standard_output_content: Some("out".to_string()),
        standard_error_content: Some("".to_string()),
    };
    match Ec2Instance::ssm_script_outcome(failed) {
        Err(ClientError::ScriptFailed { message }) => {
            assert_eq!(message, "SSM shell command unsuccessful\nstdout: out")
        }
        _ => panic!("expected a failure"),
    }
    let ok = CommandInvocation {
        status: "Success".to_string(),
        standard_output_content: None,
        standard_error_content: Some("warn".to_string()),
    };
    let out = Ec2Instance::ssm_script_outcome(ok).unwrap_or_else(|_| panic!("expected success"));
    assert!(out.stdout.is_none());
    assert_eq!(out.stderr.as_deref(), Some("warn"));
}
