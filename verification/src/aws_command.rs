//! Invocations of the `aws` CLI (program and arguments), the classification
//! of its failures, and the shapes of the JSON documents it prints.

use vstd::prelude::*;

use crate::text::{
    chars_of, contains, contains_chars, decimal, decimal_string, join, join_strs, lower_all,
    lower_chars, trim, trim_str, views,
};

verus! {

broadcast use vstd::string::group_string_axioms;

/// Error from an `aws` CLI invocation that ran but exited unsuccessfully.
///
/// `needs_login` distinguishes the "the profile just needs an (SSO) login"
/// case from any other failure, so callers can check it instead of scraping
/// stderr themselves.
#[derive(Debug)]
pub struct AwsCliError {
    pub command: String,
    pub stderr: String,
    /// Whether the CLI reported that the profile's credentials are missing or
    /// expired, i.e. an SSO login is needed.
    pub needs_login: bool,
}

/// The (lowercase) messages botocore prints when credentials are missing or
/// expired: `NoCredentialsError`, `SSOTokenLoadError`, `TokenRetrievalError`,
/// `UnauthorizedSSOTokenError` and the STS `ExpiredToken` server error.
pub open spec fn login_markers() -> Seq<Seq<char>> {
    seq![
        "sso session associated with this profile has expired"@,
        "error loading sso token"@,
        "token has expired"@,
        "the security token included in the request is expired"@,
        "unable to locate credentials"@,
    ]
}

/// `stderr` reports missing or expired credentials: it holds one of the
/// markers, compared without regard to ASCII case.
pub open spec fn reports_login_needed(stderr: Seq<char>) -> bool {
    exists|i: int| 0 <= i < login_markers().len() && contains(lower_all(stderr), #[trigger] login_markers()[i])
}

/// Failure of some `aws` invocation.
#[derive(Debug)]
pub enum AwsError {
    /// The CLI ran and exited unsuccessfully.
    Cli(AwsCliError),
    /// Anything else: the CLI could not be launched, or its output could not
    /// be read.
    Other(String),
}

impl AwsCliError {
    /// Classifies a failed command's `stderr`, setting `needs_login` if it
    /// matches a known "credentials missing/expired" message.
    pub fn classify(command: String, stderr: String) -> (r: AwsCliError)
        ensures
            r.command == command,
            r.stderr == stderr,
            r.needs_login == reports_login_needed(stderr@),
    {
        let lowered = lower_chars(&chars_of(stderr.as_str()));
        let m0 = contains_chars(&lowered, &chars_of("sso session associated with this profile has expired"));
        let m1 = contains_chars(&lowered, &chars_of("error loading sso token"));
        let m2 = contains_chars(&lowered, &chars_of("token has expired"));
        let m3 = contains_chars(&lowered, &chars_of("the security token included in the request is expired"));
        let m4 = contains_chars(&lowered, &chars_of("unable to locate credentials"));
        let needs_login = m0 || m1 || m2 || m3 || m4;
        proof {
            let ms = login_markers();
            if needs_login {
                if m0 {
                    assert(contains(lower_all(stderr@), ms[0]));
                } else if m1 {
                    assert(contains(lower_all(stderr@), ms[1]));
                } else if m2 {
                    assert(contains(lower_all(stderr@), ms[2]));
                } else if m3 {
                    assert(contains(lower_all(stderr@), ms[3]));
                } else {
                    assert(contains(lower_all(stderr@), ms[4]));
                }
            } else {
                assert forall|i: int| 0 <= i < ms.len() implies !contains(lower_all(stderr@), #[trigger] ms[i]) by {
                    if i == 0 {
                    } else if i == 1 {
                    } else if i == 2 {
                    } else if i == 3 {
                    } else {
                    }
                }
            }
        }
        AwsCliError { command, stderr, needs_login }
    }

    /// Whether `err` is a CLI failure reporting that the profile's credentials
    /// are missing or expired (an SSO login is needed). Any other error, such
    /// as the `aws` executable not being found, gives `false`.
    pub fn needs_login(err: &AwsError) -> (r: bool)
        ensures
            r == (match err {
                AwsError::Cli(e) => e.needs_login,
                AwsError::Other(_) => false,
            }),
    {
        match err {
            AwsError::Cli(e) => e.needs_login,
            AwsError::Other(_) => false,
        }
    }

    /// How the failure is reported.
    pub open spec fn spec_message(&self) -> Seq<char> {
        if self.needs_login {
            "`"@ + self.command@ + "` failed (credentials missing or expired - an SSO login is needed): "@
                + self.stderr@
        } else {
            "`"@ + self.command@ + "` failed: "@ + self.stderr@
        }
    }

    /// How the failure is reported.
    pub fn message(&self) -> (r: String)
        ensures
            r@ == self.spec_message(),
    {
        let mut r = String::from_str("`");
        r.append(self.command.as_str());
        if self.needs_login {
            r.append("` failed (credentials missing or expired - an SSO login is needed): ");
        } else {
            r.append("` failed: ");
        }
        r.append(self.stderr.as_str());
        r
    }
}

impl AwsError {
    /// How the failure is reported.
    pub fn message(&self) -> (r: String)
        ensures
            r@ == (match self {
                AwsError::Cli(e) => e.spec_message(),
                AwsError::Other(m) => m@,
            }),
    {
        match self {
            AwsError::Cli(e) => e.message(),
            AwsError::Other(m) => m.clone(),
        }
    }
}

// AWS CLI docs:
// https://docs.aws.amazon.com/cli/latest/reference/ec2/describe-instances.html
/// `ec2 describe-instances` output.
#[derive(Debug)]
pub struct DescribeInstancesOutput {
    pub reservations: Vec<Reservation>,
}

/// One reservation of `describe-instances`.
#[derive(Debug)]
pub struct Reservation {
    pub instances: Vec<InstanceJson>,
}

/// One instance of a reservation.
#[derive(Debug)]
pub struct InstanceJson {
    pub instance_id: String,
    pub state: InstanceState,
    pub tags: Option<Vec<Tag>>,
}

/// The state of an instance, such as `running` or `stopped`.
#[derive(Debug)]
pub struct InstanceState {
    pub name: String,
}

/// A key/value tag of an instance.
#[derive(Debug)]
pub struct Tag {
    pub key: String,
    pub value: String,
}

// AWS CLI docs:
// https://docs.aws.amazon.com/cli/latest/reference/ssm/send-command.html
/// `ssm send-command` output.
#[derive(Debug)]
pub struct SendCommandOutput {
    pub command: SendCommandCommand,
}

/// The command that `send-command` created.
#[derive(Debug)]
pub struct SendCommandCommand {
    pub command_id: String,
}

// AWS CLI docs:
// https://docs.aws.amazon.com/cli/latest/reference/ssm/get-command-invocation.html
/// `ssm get-command-invocation` output.
#[derive(Debug)]
pub struct CommandInvocation {
    pub status: String,
    pub standard_output_content: Option<String>,
    pub standard_error_content: Option<String>,
}

/// An `aws` CLI invocation: the program and its arguments, in order.
#[derive(Debug)]
pub struct AwsCommand {
    pub program: String,
    pub args: Vec<String>,
}

impl View for AwsCommand {
    type V = (Seq<char>, Seq<Seq<char>>);

    open spec fn view(&self) -> (Seq<char>, Seq<Seq<char>>) {
        (self.program@, views(self.args@))
    }
}

/// The `aws` program with the given arguments.
pub open spec fn aws(args: Seq<Seq<char>>) -> (Seq<char>, Seq<Seq<char>>) {
    ("aws"@, args)
}

/// The arguments that scope a command to `profile`.
pub open spec fn profile_args(profile: Seq<char>) -> Seq<Seq<char>> {
    seq!["--profile"@, profile]
}

/// The arguments that ask for JSON output.
pub open spec fn json_args() -> Seq<Seq<char>> {
    seq!["--output"@, "json"@]
}

/// The invocation that [`AwsCommand::describe_instances`] builds.
pub open spec fn spec_describe_instances(
    profile: Seq<char>,
    with_id: Option<Seq<char>>,
) -> (Seq<char>, Seq<Seq<char>>) {
    aws(
        seq!["ec2"@, "describe-instances"@] + (match with_id {
            Some(id) => seq!["--instance-ids"@, id],
            None => Seq::<Seq<char>>::empty(),
        }) + profile_args(profile) + json_args(),
    )
}

/// The invocation that [`AwsCommand::list_profiles`] builds.
pub open spec fn spec_list_profiles() -> (Seq<char>, Seq<Seq<char>>) {
    aws(seq!["configure"@, "list-profiles"@])
}

/// The invocation that [`AwsCommand::sso_login`] builds.
pub open spec fn spec_sso_login(profile: Seq<char>) -> (Seq<char>, Seq<Seq<char>>) {
    aws(seq!["sso"@, "login"@, "--no-cli-pager"@] + profile_args(profile))
}

/// The invocation that [`AwsCommand::get_caller_identity`] builds.
pub open spec fn spec_get_caller_identity(profile: Seq<char>) -> (Seq<char>, Seq<Seq<char>>) {
    aws(seq!["sts"@, "get-caller-identity"@, "--no-cli-pager"@] + profile_args(profile))
}

/// The invocation that [`AwsCommand::start_instances`] builds.
pub open spec fn spec_start_instances(
    profile: Seq<char>,
    instance_id: Seq<char>,
) -> (Seq<char>, Seq<Seq<char>>) {
    aws(
        seq!["ec2"@, "start-instances"@, "--instance-ids"@, instance_id, "--no-cli-pager"@]
            + profile_args(profile),
    )
}

/// The invocation that [`AwsCommand::wait_instance_running`] builds.
pub open spec fn spec_wait_instance_running(
    profile: Seq<char>,
    instance_id: Seq<char>,
) -> (Seq<char>, Seq<Seq<char>>) {
    aws(
        seq!["ec2"@, "wait"@, "instance-running"@, "--instance-ids"@, instance_id]
            + profile_args(profile),
    )
}

/// The invocation that [`AwsCommand::stop_instances`] builds.
pub open spec fn spec_stop_instances(
    profile: Seq<char>,
    instance_id: Seq<char>,
) -> (Seq<char>, Seq<Seq<char>>) {
    aws(
        seq!["ec2"@, "stop-instances"@, "--instance-ids"@, instance_id, "--no-cli-pager"@]
            + profile_args(profile),
    )
}

/// The invocation that [`AwsCommand::wait_instance_stopped`] builds.
pub open spec fn spec_wait_instance_stopped(
    profile: Seq<char>,
    instance_id: Seq<char>,
) -> (Seq<char>, Seq<Seq<char>>) {
    aws(
        seq!["ec2"@, "wait"@, "instance-stopped"@, "--instance-ids"@, instance_id]
            + profile_args(profile),
    )
}

/// The invocation that [`AwsCommand::send_shell_script_command`] builds.
pub open spec fn spec_send_shell_script_command(
    profile: Seq<char>,
    instance_id: Seq<char>,
    parameters: Seq<char>,
) -> (Seq<char>, Seq<Seq<char>>) {
    aws(
        seq![
            "ssm"@,
            "send-command"@,
            "--instance-ids"@,
            instance_id,
            "--document-name"@,
            "AWS-RunShellScript"@,
            "--parameters"@,
            parameters,
        ] + profile_args(profile) + json_args(),
    )
}

/// The invocation that [`AwsCommand::wait_command_executed`] builds.
pub open spec fn spec_wait_command_executed(
    profile: Seq<char>,
    command_id: Seq<char>,
    instance_id: Seq<char>,
) -> (Seq<char>, Seq<Seq<char>>) {
    aws(
        seq![
            "ssm"@,
            "wait"@,
            "command-executed"@,
            "--command-id"@,
            command_id,
            "--instance-id"@,
            instance_id,
        ] + profile_args(profile),
    )
}

/// The invocation that [`AwsCommand::get_command_invocation`] builds.
pub open spec fn spec_get_command_invocation(
    profile: Seq<char>,
    command_id: Seq<char>,
    instance_id: Seq<char>,
) -> (Seq<char>, Seq<Seq<char>>) {
    aws(
        seq![
            "ssm"@,
            "get-command-invocation"@,
            "--command-id"@,
            command_id,
            "--instance-id"@,
            instance_id,
        ] + profile_args(profile) + json_args(),
    )
}

/// The invocation that [`AwsCommand::start_ssh_session`] builds.
pub open spec fn spec_start_ssh_session(
    profile: Seq<char>,
    instance_id: Seq<char>,
    port: u16,
) -> (Seq<char>, Seq<Seq<char>>) {
    aws(
        seq![
            "ssm"@,
            "start-session"@,
            "--target"@,
            instance_id,
            "--document-name"@,
            "AWS-StartSSHSession"@,
            "--parameters"@,
            "portNumber="@ + decimal(port as nat),
        ] + profile_args(profile),
    )
}

impl AwsCommand {
    /// The `aws` program with no arguments.
    pub fn new() -> (r: AwsCommand)
        ensures
            r@ == aws(seq![]),
    {
        let r = AwsCommand { program: String::from_str("aws"), args: Vec::new() };
        assert(views(r.args@) =~= Seq::<Seq<char>>::empty());
        r
    }

    /// This command with `arg` appended.
    pub fn arg(self, arg: &str) -> (r: AwsCommand)
        ensures
            r@ == (self@.0, self@.1.push(arg@)),
    {
        let mut cmd = self;
        let ghost before = views(cmd.args@);
        cmd.args.push(String::from_str(arg));
        assert(views(cmd.args@) =~= before.push(arg@));
        cmd
    }

    /// This command scoped to `profile`.
    pub fn add_profile(self, profile: &str) -> (r: AwsCommand)
        ensures
            r@ == (self@.0, self@.1 + profile_args(profile@)),
    {
        let r = self.arg("--profile").arg(profile);
        assert(r@.1 =~= self@.1 + profile_args(profile@));
        r
    }

    /// This command asking for JSON output.
    pub fn json_output(self) -> (r: AwsCommand)
        ensures
            r@ == (self@.0, self@.1 + json_args()),
    {
        let r = self.arg("--output").arg("json");
        assert(r@.1 =~= self@.1 + json_args());
        r
    }

    /// The command line roughly as it would be typed in a shell, for error
    /// messages.
    pub open spec fn spec_command_line(&self) -> Seq<char> {
        self@.0 + " "@ + join(self@.1, " "@)
    }

    /// The command line roughly as it would be typed in a shell.
    pub fn command_line(&self) -> (r: String)
        ensures
            r@ == self.spec_command_line(),
    {
        let mut r = self.program.clone();
        r.append(" ");
        let args = join_strs(&self.args, " ");
        r.append(args.as_str());
        r
    }

    /// The failure of this command, which printed `raw_stderr`: its command
    /// line, its trimmed stderr, and whether a login is needed.
    pub fn cli_error(&self, raw_stderr: &str) -> (r: AwsCliError)
        ensures
            r.command@ == self.spec_command_line(),
            r.stderr@ == trim(raw_stderr@),
            r.needs_login == reports_login_needed(trim(raw_stderr@)),
    {
        AwsCliError::classify(self.command_line(), trim_str(raw_stderr))
    }

    /// `aws ec2 describe-instances`, optionally for one instance only.
    pub fn describe_instances(profile: &str, with_id: Option<&str>) -> (r: AwsCommand)
        ensures
            r@ == spec_describe_instances(profile@, match with_id { Some(x) => Some(x@), None => None }),
    {
        let mut cmd = Self::new().arg("ec2").arg("describe-instances");
        let ghost base = cmd@.1;
        if let Some(id) = with_id {
            cmd = cmd.arg("--instance-ids").arg(id);
            assert(cmd@.1 =~= base + seq!["--instance-ids"@, id@]);
        } else {
            assert(cmd@.1 =~= base + Seq::<Seq<char>>::empty());
        }
        let r = cmd.add_profile(profile).json_output();
        r
    }

    /// `aws configure list-profiles`.
    pub fn list_profiles() -> (r: AwsCommand)
        ensures
            r@ == spec_list_profiles(),
    {
        let r = Self::new().arg("configure").arg("list-profiles");
        assert(r@.1 =~= seq!["configure"@, "list-profiles"@]);
        r
    }

    /// `aws sso login` for `profile`.
    pub fn sso_login(profile: &str) -> (r: AwsCommand)
        ensures
            r@ == spec_sso_login(profile@),
    {
        let r = Self::new().arg("sso").arg("login").arg("--no-cli-pager").add_profile(profile);
        assert(r@.1 =~= seq!["sso"@, "login"@, "--no-cli-pager"@] + profile_args(profile@));
        r
    }

    /// `aws sts get-caller-identity` for `profile`: succeeds if the profile has
    /// valid credentials.
    pub fn get_caller_identity(profile: &str) -> (r: AwsCommand)
        ensures
            r@ == spec_get_caller_identity(profile@),
    {
        let r = Self::new().arg("sts").arg("get-caller-identity").arg("--no-cli-pager").add_profile(
            profile,
        );
        assert(r@.1 =~= seq!["sts"@, "get-caller-identity"@, "--no-cli-pager"@] + profile_args(
            profile@,
        ));
        r
    }

    /// `aws ec2 start-instances` for one instance.
    pub fn start_instances(profile: &str, instance_id: &str) -> (r: AwsCommand)
        ensures
            r@ == spec_start_instances(profile@, instance_id@),
    {
        let r = Self::new().arg("ec2").arg("start-instances").arg("--instance-ids").arg(
            instance_id,
        ).arg("--no-cli-pager").add_profile(profile);
        assert(r@.1 =~= seq![
            "ec2"@,
            "start-instances"@,
            "--instance-ids"@,
            instance_id@,
            "--no-cli-pager"@,
        ] + profile_args(profile@));
        r
    }

    /// `aws ec2 wait instance-running` for one instance.
    pub fn wait_instance_running(profile: &str, instance_id: &str) -> (r: AwsCommand)
        ensures
            r@ == spec_wait_instance_running(profile@, instance_id@),
    {
        let r = Self::new().arg("ec2").arg("wait").arg("instance-running").arg(
            "--instance-ids",
        ).arg(instance_id).add_profile(profile);
        assert(r@.1 =~= seq![
            "ec2"@,
            "wait"@,
            "instance-running"@,
            "--instance-ids"@,
            instance_id@,
        ] + profile_args(profile@));
        r
    }

    /// `aws ec2 stop-instances` for one instance.
    pub fn stop_instances(profile: &str, instance_id: &str) -> (r: AwsCommand)
        ensures
            r@ == spec_stop_instances(profile@, instance_id@),
    {
        let r = Self::new().arg("ec2").arg("stop-instances").arg("--instance-ids").arg(
            instance_id,
        ).arg("--no-cli-pager").add_profile(profile);
        assert(r@.1 =~= seq![
            "ec2"@,
            "stop-instances"@,
            "--instance-ids"@,
            instance_id@,
            "--no-cli-pager"@,
        ] + profile_args(profile@));
        r
    }

    /// `aws ec2 wait instance-stopped` for one instance.
    pub fn wait_instance_stopped(profile: &str, instance_id: &str) -> (r: AwsCommand)
        ensures
            r@ == spec_wait_instance_stopped(profile@, instance_id@),
    {
        let r = Self::new().arg("ec2").arg("wait").arg("instance-stopped").arg(
            "--instance-ids",
        ).arg(instance_id).add_profile(profile);
        assert(r@.1 =~= seq![
            "ec2"@,
            "wait"@,
            "instance-stopped"@,
            "--instance-ids"@,
            instance_id@,
        ] + profile_args(profile@));
        r
    }

    /// `aws ssm send-command` running `parameters` with the
    /// `AWS-RunShellScript` document on one instance.
    pub fn send_shell_script_command(profile: &str, instance_id: &str, parameters: &str) -> (r:
        AwsCommand)
        ensures
            r@ == spec_send_shell_script_command(profile@, instance_id@, parameters@),
    {
        let r = Self::new().arg("ssm").arg("send-command").arg("--instance-ids").arg(
            instance_id,
        ).arg("--document-name").arg("AWS-RunShellScript").arg("--parameters").arg(
            parameters,
        ).add_profile(profile).json_output();
        assert(r@.1 =~= seq![
            "ssm"@,
            "send-command"@,
            "--instance-ids"@,
            instance_id@,
            "--document-name"@,
            "AWS-RunShellScript"@,
            "--parameters"@,
            parameters@,
        ] + profile_args(profile@) + json_args());
        r
    }

    /// `aws ssm wait command-executed` for one command on one instance.
    pub fn wait_command_executed(profile: &str, command_id: &str, instance_id: &str) -> (r:
        AwsCommand)
        ensures
            r@ == spec_wait_command_executed(profile@, command_id@, instance_id@),
    {
        let r = Self::new().arg("ssm").arg("wait").arg("command-executed").arg(
            "--command-id",
        ).arg(command_id).arg("--instance-id").arg(instance_id).add_profile(profile);
        assert(r@.1 =~= seq![
            "ssm"@,
            "wait"@,
            "command-executed"@,
            "--command-id"@,
            command_id@,
            "--instance-id"@,
            instance_id@,
        ] + profile_args(profile@));
        r
    }

    /// `aws ssm get-command-invocation` for one command on one instance.
    pub fn get_command_invocation(profile: &str, command_id: &str, instance_id: &str) -> (r:
        AwsCommand)
        ensures
            r@ == spec_get_command_invocation(profile@, command_id@, instance_id@),
    {
        let r = Self::new().arg("ssm").arg("get-command-invocation").arg("--command-id").arg(
            command_id,
        ).arg("--instance-id").arg(instance_id).add_profile(profile).json_output();
        assert(r@.1 =~= seq![
            "ssm"@,
            "get-command-invocation"@,
            "--command-id"@,
            command_id@,
            "--instance-id"@,
            instance_id@,
        ] + profile_args(profile@) + json_args());
        r
    }

    /// `aws ssm start-session` opening an SSH tunnel (the
    /// `AWS-StartSSHSession` document) to `port` on one instance.
    pub fn start_ssh_session(profile: &str, instance_id: &str, port: u16) -> (r: AwsCommand)
        ensures
            r@ == spec_start_ssh_session(profile@, instance_id@, port),
    {
        let mut parameters = String::from_str("portNumber=");
        let digits = decimal_string(port as u128);
        parameters.append(digits.as_str());
        let r = Self::new().arg("ssm").arg("start-session").arg("--target").arg(instance_id).arg(
            "--document-name",
        ).arg("AWS-StartSSHSession").arg("--parameters").arg(parameters.as_str()).add_profile(
            profile,
        );
        assert(r@.1 =~= seq![
            "ssm"@,
            "start-session"@,
            "--target"@,
            instance_id@,
            "--document-name"@,
            "AWS-StartSSHSession"@,
            "--parameters"@,
            "portNumber="@ + decimal(port as nat),
        ] + profile_args(profile@));
        r
    }
}

/// A failed call needs an SSO login exactly when its error output, ASCII
/// lowercased, holds one of botocore's five messages for missing or expired
/// credentials: an expired SSO session, an SSO token that cannot be loaded
/// (`SSOTokenLoadError`), an expired token, an expired security token, or no
/// credentials at all.
pub proof fn lemma_login_needed_messages(stderr: Seq<char>)
    ensures
        reports_login_needed(stderr) <==> {
            let low = lower_all(stderr);
            ||| contains(low, "sso session associated with this profile has expired"@)
            ||| contains(low, "error loading sso token"@)
            ||| contains(low, "token has expired"@)
            ||| contains(low, "the security token included in the request is expired"@)
            ||| contains(low, "unable to locate credentials"@)
        },
{
    let low = lower_all(stderr);
    let ms = login_markers();
    if reports_login_needed(stderr) {
        let i = choose|i: int| 0 <= i < ms.len() && contains(low, #[trigger] ms[i]);
        assert(i == 0 || i == 1 || i == 2 || i == 3 || i == 4);
    }
    if contains(low, "sso session associated with this profile has expired"@) {
        assert(contains(low, ms[0]));
    }
    if contains(low, "error loading sso token"@) {
        assert(contains(low, ms[1]));
    }
    if contains(low, "token has expired"@) {
        assert(contains(low, ms[2]));
    }
    if contains(low, "the security token included in the request is expired"@) {
        assert(contains(low, ms[3]));
    }
    if contains(low, "unable to locate credentials"@) {
        assert(contains(low, ms[4]));
    }
}

} // verus!
