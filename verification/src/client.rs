//! Decisions around the `aws` CLI: login checks, the steps that start or stop
//! an instance, SSM script runs and their outcome, and the interpretation of
//! the CLI's output.

use vstd::prelude::*;

use crate::aws_command::{
    SendCommandOutput, spec_describe_instances, spec_get_command_invocation, spec_send_shell_script_command,
    spec_sso_login, spec_start_instances, spec_start_ssh_session, spec_stop_instances,
    spec_wait_command_executed, spec_wait_instance_running, spec_wait_instance_stopped,
    AwsCliError, AwsCommand, AwsError, CommandInvocation, DescribeInstancesOutput, InstanceJson,
    Reservation, Tag,
};
use crate::text::{
    decimal, lemma_decimal_reads_back, lemma_signed_decimal_reads_back, lines, lines_of,
    read_decimal,
    signed_decimal, signed_decimal_string, trim, trim_str, views,
};

verus! {

broadcast use vstd::string::group_string_axioms;

/// One EC2 instance as the tool shows and selects it.
#[derive(Debug)]
pub struct InstanceEntry {
    pub instance_id: String,
    pub name: String,
    pub state: String,
}

impl View for InstanceEntry {
    type V = (Seq<char>, Seq<char>, Seq<char>);

    open spec fn view(&self) -> (Seq<char>, Seq<char>, Seq<char>) {
        (self.instance_id@, self.name@, self.state@)
    }
}

impl InstanceEntry {
    /// The instance as it is shown: its ID, a space, then its name.
    pub fn to_string(&self) -> (r: String)
        ensures
            r@ == self.instance_id@ + " "@ + self.name@,
    {
        let mut r = self.instance_id.clone();
        r.append(" ");
        r.append(self.name.as_str());
        r
    }
}

/// Failures of the client operations.
#[derive(Debug)]
pub enum ClientError {
    /// An `aws` invocation failed.
    Aws(AwsError),
    /// The profile has no valid credentials and no login may be started.
    NotLoggedIn { profile: String },
    /// The AWS CLI has no profile configured.
    NoProfiles,
    /// `describe-instances` did not list the instance.
    InstanceNotFound { instance_id: String },
    /// An SSM shell script did not succeed; the message holds its output.
    ScriptFailed { message: String },
}

impl ClientError {
    /// How the failure is reported.
    pub fn message(&self) -> (r: String)
        ensures
            r@ == (match self {
                ClientError::Aws(AwsError::Cli(e)) => e.spec_message(),
                ClientError::Aws(AwsError::Other(m)) => m@,
                ClientError::NotLoggedIn { profile } => "profile "@ + profile@ + " is not logged in"@,
                ClientError::NoProfiles => "no AWS CLI profiles found, make sure it's configured"@,
                ClientError::InstanceNotFound { instance_id } => "instance "@ + instance_id@
                    + " was not found"@,
                ClientError::ScriptFailed { message } => message@,
            }),
    {
        match self {
            ClientError::Aws(e) => e.message(),
            ClientError::NotLoggedIn { profile } => {
                let mut r = String::from_str("profile ");
                r.append(profile.as_str());
                r.append(" is not logged in");
                r
            },
            ClientError::NoProfiles => String::from_str(
                "no AWS CLI profiles found, make sure it's configured",
            ),
            ClientError::InstanceNotFound { instance_id } => {
                let mut r = String::from_str("instance ");
                r.append(instance_id.as_str());
                r.append(" was not found");
                r
            },
            ClientError::ScriptFailed { message } => message.clone(),
        }
    }
}

/// Whether the profile has valid credentials, from the outcome of
/// `sts get-caller-identity` for it.
///
/// `Ok(false)` only when the CLI reported that the credentials are missing or
/// expired (an SSO login is needed). Any other failure, such as the `aws`
/// executable not being installed, is passed on rather than being taken for
/// "not logged in".
pub fn is_logged_in(caller_identity: Result<(), AwsError>) -> (r: Result<bool, AwsError>)
    ensures
        match caller_identity {
            Ok(()) => r == Ok::<bool, AwsError>(true),
            Err(AwsError::Cli(e)) => if e.needs_login {
                r == Ok::<bool, AwsError>(false)
            } else {
                r == Err::<bool, AwsError>(AwsError::Cli(e))
            },
            Err(e) => r == Err::<bool, AwsError>(e),
        },
{
    match caller_identity {
        Ok(()) => Ok(true),
        Err(err) => {
            if AwsCliError::needs_login(&err) {
                Ok(false)
            } else {
                Err(err)
            }
        },
    }
}

/// What making sure `profile` has valid credentials takes, from the outcome of
/// `sts get-caller-identity` for it: nothing (`None`), the SSO login to run,
/// or the failure that stands in the way.
pub fn ensure_logged_in(profile: &str, caller_identity: Result<(), AwsError>) -> (r: Result<
    Option<AwsCommand>,
    AwsError,
>)
    ensures
        match caller_identity {
            Ok(()) => r matches Ok(None),
            Err(AwsError::Cli(e)) => if e.needs_login {
                r matches Ok(Some(c)) && c@ == spec_sso_login(profile@)
            } else {
                r == Err::<Option<AwsCommand>, AwsError>(AwsError::Cli(e))
            },
            Err(e) => r == Err::<Option<AwsCommand>, AwsError>(e),
        },
{
    if !is_logged_in(caller_identity)? {
        return Ok(Some(AwsCommand::sso_login(profile)));
    }
    Ok(None)
}


/// A profile-scoped handle for controlling a single EC2 instance.
#[derive(Debug)]
pub struct Ec2Instance {
    pub profile: String,
    pub instance_id: String,
}

/// The output of a successful SSM shell script, each stream only when it is
/// not empty.
#[derive(Debug)]
pub struct ScriptOutput {
    pub stdout: Option<String>,
    pub stderr: Option<String>,
}

/// A stream's content, when there is some.
pub open spec fn non_empty(s: Option<String>) -> Option<Seq<char>> {
    match s {
        Some(t) => if t@.len() > 0 {
            Some(t@)
        } else {
            None
        },
        None => None,
    }
}

/// The content of an optional stream, when it is present and not empty.
fn resolve(s: &Option<String>) -> (r: Option<String>)
    ensures
        match r {
            Some(t) => non_empty(*s) == Some(t@),
            None => non_empty(*s) is None,
        },
{
    match s {
        Some(t) => if t.unicode_len() > 0 {
            Some(t.clone())
        } else {
            None
        },
        None => None,
    }
}

/// The report of an unsuccessful script: a fixed first line, then the
/// non-empty streams.
pub open spec fn spec_failure_report(inv: CommandInvocation) -> Seq<char> {
    "SSM shell command unsuccessful"@ + (match non_empty(inv.standard_output_content) {
        Some(o) => "\nstdout: "@ + o,
        None => Seq::<char>::empty(),
    }) + (match non_empty(inv.standard_error_content) {
        Some(e) => "\nstderr: "@ + e,
        None => Seq::<char>::empty(),
    })
}

/// `r` is the outcome of the script whose invocation record is `inv`: its
/// non-empty output streams when the status is `Success`, otherwise a failure
/// whose message carries them.
pub open spec fn is_script_outcome(inv: CommandInvocation, r: Result<ScriptOutput, ClientError>) -> bool {
    &&& inv.status@ == "Success"@ ==> (r matches Ok(out) && (match out.stdout {
        Some(o) => non_empty(inv.standard_output_content) == Some(o@),
        None => non_empty(inv.standard_output_content) is None,
    }) && (match out.stderr {
        Some(e) => non_empty(inv.standard_error_content) == Some(e@),
        None => non_empty(inv.standard_error_content) is None,
    }))
    &&& inv.status@ != "Success"@ ==> (r matches Err(ClientError::ScriptFailed { message })
        && message@ == spec_failure_report(inv))
}

/// The next step of running a shell script over SSM Run Command.
#[derive(Debug)]
pub enum SsmStep {
    /// Send the script (`ssm send-command`).
    Send(AwsCommand),
    /// Wait until the sent command has run (`ssm wait command-executed`).
    Wait { command_id: String, call: AwsCommand },
    /// Fetch the command's result (`ssm get-command-invocation`).
    Fetch { command_id: String, call: AwsCommand },
    /// The run is over, with the script's outcome or the failure that ended it.
    Done(Result<ScriptOutput, ClientError>),
}

/// What the step just taken gave back.
#[derive(Debug)]
pub enum SsmProgress {
    /// The outcome of sending the script.
    Sent(Result<SendCommandOutput, AwsError>),
    /// The outcome of waiting for the command `command_id`.
    Waited { command_id: String, result: Result<(), AwsError> },
    /// The outcome of fetching the command's result.
    Fetched(Result<CommandInvocation, AwsError>),
}

/// The remote script that schedules an OS-level shutdown in `minutes`
/// minutes, unless one is already pending (`shutdown --show` exits with 0 when
/// a shutdown is scheduled); `target_time` only appears in its message.
pub open spec fn spec_shutdown_script(minutes: int, target_time: Seq<char>) -> Seq<char> {
    "if show=$(shutdown --show 2>&1); then echo 'Shutdown already scheduled, leaving it as-is:'; echo \"$show\"; else shutdown -h +"@
        + signed_decimal(minutes) + " 'Auto-shutdown scheduled by awsome' && echo 'Scheduled shutdown at "@
        + target_time + " (in "@ + signed_decimal(minutes) + " minute(s)).'; fi"@
}

/// The remote shutdown script.
pub fn shutdown_script(minutes: i64, target_time: &str) -> (r: String)
    ensures
        r@ == spec_shutdown_script(minutes as int, target_time@),
{
    let m = signed_decimal_string(minutes);
    let mut r = String::from_str(
        "if show=$(shutdown --show 2>&1); then echo 'Shutdown already scheduled, leaving it as-is:'; echo \"$show\"; else shutdown -h +",
    );
    r.append(m.as_str());
    r.append(" 'Auto-shutdown scheduled by awsome' && echo 'Scheduled shutdown at ");
    r.append(target_time);
    r.append(" (in ");
    r.append(m.as_str());
    r.append(" minute(s)).'; fi");
    r
}

impl Ec2Instance {
    /// The handle for `instance_id` under `profile`, once the profile's login
    /// has been seen to (see [`ensure_logged_in`]).
    pub fn new_logged_in(profile: &str, instance_id: &str) -> (r: Ec2Instance)
        ensures
            r.profile@ == profile@,
            r.instance_id@ == instance_id@,
    {
        Ec2Instance { profile: String::from_str(profile), instance_id: String::from_str(instance_id) }
    }

    /// The `describe-instances` call that fetches this instance's state.
    pub fn describe(&self) -> (r: AwsCommand)
        ensures
            r@ == spec_describe_instances(self.profile@, Some(self.instance_id@)),
    {
        AwsCommand::describe_instances(self.profile.as_str(), Some(self.instance_id.as_str()))
    }

    /// The current state (such as `running` or `stopped`) of this instance,
    /// from the entries `describe-instances` listed for it: the first entry's
    /// state, or an error if there is none.
    pub fn state(&self, entries: &Vec<InstanceEntry>) -> (r: Result<String, ClientError>)
        ensures
            entries@.len() > 0 ==> (r matches Ok(s) && s@ == entries@[0].state@),
            entries@.len() == 0 ==> (r matches Err(ClientError::InstanceNotFound { instance_id })
                && instance_id@ == self.instance_id@),
    {
        if entries.len() > 0 {
            Ok(entries[0].state.clone())
        } else {
            Err(ClientError::InstanceNotFound { instance_id: self.instance_id.clone() })
        }
    }

    /// The calls that start this instance and wait until it is `running`,
    /// given its current state: none when it is already running.
    pub fn start_and_wait(&self, state: &str) -> (r: Vec<AwsCommand>)
        ensures
            state@ == "running"@ ==> r@.len() == 0,
            state@ != "running"@ ==> r@.len() == 2 && r@[0]@ == spec_start_instances(
                self.profile@,
                self.instance_id@,
            ) && r@[1]@ == spec_wait_instance_running(self.profile@, self.instance_id@),
    {
        let mut r: Vec<AwsCommand> = Vec::new();
        if crate::text::str_eq(state, "running") {
            return r;
        }
        r.push(AwsCommand::start_instances(self.profile.as_str(), self.instance_id.as_str()));
        r.push(AwsCommand::wait_instance_running(self.profile.as_str(), self.instance_id.as_str()));
        r
    }

    /// The calls that stop this instance and wait until it is `stopped`,
    /// given its current state: none when it is already stopped.
    pub fn stop_and_wait(&self, state: &str) -> (r: Vec<AwsCommand>)
        ensures
            state@ == "stopped"@ ==> r@.len() == 0,
            state@ != "stopped"@ ==> r@.len() == 2 && r@[0]@ == spec_stop_instances(
                self.profile@,
                self.instance_id@,
            ) && r@[1]@ == spec_wait_instance_stopped(self.profile@, self.instance_id@),
    {
        let mut r: Vec<AwsCommand> = Vec::new();
        if crate::text::str_eq(state, "stopped") {
            return r;
        }
        r.push(AwsCommand::stop_instances(self.profile.as_str(), self.instance_id.as_str()));
        r.push(AwsCommand::wait_instance_stopped(self.profile.as_str(), self.instance_id.as_str()));
        r
    }

    /// The first step of running `script` on this instance via SSM Run
    /// Command (`AWS-RunShellScript`): sending it, verbatim. Each later step
    /// comes from [`Ec2Instance::ssm_next`].
    pub fn run_ssm_shell_script(&self, script: &str) -> (r: SsmStep)
        ensures
            r matches SsmStep::Send(c) && c@ == spec_send_shell_script_command(
                self.profile@,
                self.instance_id@,
                script@,
            ),
    {
        SsmStep::Send(
            AwsCommand::send_shell_script_command(
                self.profile.as_str(),
                self.instance_id.as_str(),
                script,
            ),
        )
    }

    /// The step after `progress`: once the script is sent, wait for its
    /// command; once that has run, fetch its result; once fetched, the
    /// script's outcome. A failed step ends the run with its failure.
    pub fn ssm_next(&self, progress: SsmProgress) -> (r: SsmStep)
        ensures
            match progress {
                SsmProgress::Sent(Ok(out)) => r matches SsmStep::Wait { command_id, call }
                    && command_id@ == out.command.command_id@ && call@
                    == spec_wait_command_executed(
                    self.profile@,
                    out.command.command_id@,
                    self.instance_id@,
                ),
                SsmProgress::Waited { command_id, result: Ok(()) } => r matches SsmStep::Fetch {
                    command_id: c,
                    call,
                } && c@ == command_id@ && call@ == spec_get_command_invocation(
                    self.profile@,
                    command_id@,
                    self.instance_id@,
                ),
                SsmProgress::Fetched(Ok(inv)) => r matches SsmStep::Done(res) && is_script_outcome(
                    inv,
                    res,
                ),
                SsmProgress::Sent(Err(e)) => r == SsmStep::Done(Err(ClientError::Aws(e))),
                SsmProgress::Waited { command_id: _, result: Err(e) } => r == SsmStep::Done(
                    Err(ClientError::Aws(e)),
                ),
                SsmProgress::Fetched(Err(e)) => r == SsmStep::Done(Err(ClientError::Aws(e))),
            },
    {
        match progress {
            SsmProgress::Sent(Ok(out)) => {
                let call = self.wait_ssm_command(out.command.command_id.as_str());
                SsmStep::Wait { command_id: out.command.command_id, call }
            },
            SsmProgress::Sent(Err(e)) => SsmStep::Done(Err(ClientError::Aws(e))),
            SsmProgress::Waited { command_id, result: Ok(()) } => {
                let call = self.ssm_command_invocation(command_id.as_str());
                SsmStep::Fetch { command_id, call }
            },
            SsmProgress::Waited { command_id: _, result: Err(e) } => SsmStep::Done(
                Err(ClientError::Aws(e)),
            ),
            SsmProgress::Fetched(Ok(inv)) => SsmStep::Done(Self::ssm_script_outcome(inv)),
            SsmProgress::Fetched(Err(e)) => SsmStep::Done(Err(ClientError::Aws(e))),
        }
    }

    /// The call that waits until the SSM command `command_id` has run here.
    pub fn wait_ssm_command(&self, command_id: &str) -> (r: AwsCommand)
        ensures
            r@ == spec_wait_command_executed(self.profile@, command_id@, self.instance_id@),
    {
        AwsCommand::wait_command_executed(self.profile.as_str(), command_id, self.instance_id.as_str())
    }

    /// The call that fetches the result of the SSM command `command_id` here.
    pub fn ssm_command_invocation(&self, command_id: &str) -> (r: AwsCommand)
        ensures
            r@ == spec_get_command_invocation(self.profile@, command_id@, self.instance_id@),
    {
        AwsCommand::get_command_invocation(
            self.profile.as_str(),
            command_id,
            self.instance_id.as_str(),
        )
    }

    /// The outcome of an SSM shell script from its invocation record: its
    /// non-empty output streams when the status is `Success`, otherwise a
    /// failure whose message carries them.
    pub fn ssm_script_outcome(invocation: CommandInvocation) -> (r: Result<
        ScriptOutput,
        ClientError,
    >)
        ensures
            is_script_outcome(invocation, r),
    {
        let stdout = resolve(&invocation.standard_output_content);
        let stderr = resolve(&invocation.standard_error_content);
        if !crate::text::str_eq(invocation.status.as_str(), "Success") {
            let mut message = String::from_str("SSM shell command unsuccessful");
            if let Some(o) = &stdout {
                message.append("\nstdout: ");
                message.append(o.as_str());
            }
            if let Some(e) = &stderr {
                message.append("\nstderr: ");
                message.append(e.as_str());
            }
            assert(invocation.status@ != "Success"@);
            assert(message@ == spec_failure_report(invocation));
            return Err(ClientError::ScriptFailed { message });
        }
        Ok(ScriptOutput { stdout, stderr })
    }

    /// The first step of scheduling an OS-level shutdown inside this instance
    /// in `minutes` minutes (`target_time` is only used for the printed
    /// message) via SSM Run Command, leaving an already pending shutdown alone.
    pub fn schedule_shutdown(&self, minutes: i64, target_time: &str) -> (r: SsmStep)
        ensures
            r matches SsmStep::Send(c) && c@ == spec_send_shell_script_command(
                self.profile@,
                self.instance_id@,
                spec_shutdown_script(minutes as int, target_time@),
            ),
    {
        let script = shutdown_script(minutes, target_time);
        self.run_ssm_shell_script(script.as_str())
    }

    /// Installing a public key on the instance by running `script` (see
    /// [`crate::ssh_setup::keys::build_push_script`]) over SSM Run Command,
    /// given the instance's current state: first the calls that start it (none
    /// when it is already running; each has to succeed before the next, and a
    /// failure ends the installation), then the SSM run that sends `script`.
    pub fn push_public_key(&self, state: &str, script: &str) -> (r: PushPlan)
        ensures
            state@ == "running"@ ==> r.start@.len() == 0,
            state@ != "running"@ ==> r.start@.len() == 2 && r.start@[0]@ == spec_start_instances(
                self.profile@,
                self.instance_id@,
            ) && r.start@[1]@ == spec_wait_instance_running(self.profile@, self.instance_id@),
            r.ssm matches SsmStep::Send(c) && c@ == spec_send_shell_script_command(
                self.profile@,
                self.instance_id@,
                script@,
            ),
    {
        PushPlan { start: self.start_and_wait(state), ssm: self.run_ssm_shell_script(script) }
    }
}

/// The installation of a public key: the calls that start the instance, in
/// order, then the SSM run of the install script from its first step.
#[derive(Debug)]
pub struct PushPlan {
    pub start: Vec<AwsCommand>,
    pub ssm: SsmStep,
}

/// The SSH-over-SSM tunnel to `port` of `instance_id`, for use as an SSH
/// `ProxyCommand`, from the outcome of `sts get-caller-identity` for
/// `profile`. It runs inside the SSH transport, so no interactive login may be
/// started: missing or expired credentials fail fast instead.
pub fn start_ssh_proxy(
    profile: &str,
    instance_id: &str,
    port: u16,
    caller_identity: Result<(), AwsError>,
) -> (r: Result<AwsCommand, ClientError>)
    ensures
        match caller_identity {
            Ok(()) => r matches Ok(c) && c@ == spec_start_ssh_session(profile@, instance_id@, port),
            Err(AwsError::Cli(e)) => if e.needs_login {
                r matches Err(ClientError::NotLoggedIn { profile: p }) && p@ == profile@
            } else {
                r == Err::<AwsCommand, ClientError>(ClientError::Aws(AwsError::Cli(e)))
            },
            Err(e) => r == Err::<AwsCommand, ClientError>(ClientError::Aws(e)),
        },
{
    match is_logged_in(caller_identity) {
        Err(e) => Err(ClientError::Aws(e)),
        Ok(false) => Err(ClientError::NotLoggedIn { profile: String::from_str(profile) }),
        Ok(true) => Ok(AwsCommand::start_ssh_session(profile, instance_id, port)),
    }
}

/// The trimmed, non-blank lines among `ls`, in order.
pub open spec fn trimmed_nonblank(ls: Seq<Seq<char>>) -> Seq<Seq<char>>
    decreases ls.len(),
{
    if ls.len() == 0 {
        seq![]
    } else {
        trimmed_nonblank(ls.drop_last()) + (if trim(ls.last()).len() > 0 {
            seq![trim(ls.last())]
        } else {
            Seq::<Seq<char>>::empty()
        })
    }
}

/// The profile names in `aws configure list-profiles` output: each line
/// trimmed, blank ones dropped.
pub open spec fn spec_parse_profiles(stdout: Seq<char>) -> Seq<Seq<char>> {
    trimmed_nonblank(lines(stdout))
}

/// Parses `aws configure list-profiles` stdout into a list of profile names,
/// trimming each line and dropping blank ones.
pub fn parse_profiles(stdout: &str) -> (r: Vec<String>)
    ensures
        views(r@) == spec_parse_profiles(stdout@),
{
    let ls = lines_of(stdout);
    let n = ls.len();
    let mut out: Vec<String> = Vec::new();
    let mut i: usize = 0;
    assert(views(ls@).take(0) =~= Seq::<Seq<char>>::empty());
    assert(views(out@) =~= Seq::<Seq<char>>::empty());
    while i < n
        invariant
            n == ls@.len(),
            i <= n,
            views(ls@) == lines(stdout@),
            views(out@) == trimmed_nonblank(views(ls@).take(i as int)),
        decreases n - i,
    {
        let ghost before = views(out@);
        assert(views(ls@).take(i + 1).drop_last() =~= views(ls@).take(i as int));
        assert(views(ls@).take(i + 1).last() == ls@[i as int]@);
        let t = trim_str(ls[i].as_str());
        if t.unicode_len() > 0 {
            out.push(t);
            assert(views(out@) =~= before + seq![trim(ls@[i as int]@)]);
        } else {
            assert(before + Seq::<Seq<char>>::empty() =~= before);
        }
        i = i + 1;
    }
    assert(views(ls@).take(n as int) =~= views(ls@));
    out
}

/// Every profile name read is non-blank and already trimmed.
pub proof fn lemma_profiles_trimmed(stdout: Seq<char>)
    ensures
        forall|i: int|
            0 <= i < spec_parse_profiles(stdout).len() ==> (#[trigger] spec_parse_profiles(stdout)[i]).len()
                > 0 && trim(spec_parse_profiles(stdout)[i]) == spec_parse_profiles(stdout)[i],
{
    lemma_trimmed_nonblank(lines(stdout));
}

/// Every line kept by [`trimmed_nonblank`] is non-blank and trimmed.
proof fn lemma_trimmed_nonblank(ls: Seq<Seq<char>>)
    ensures
        forall|i: int|
            0 <= i < trimmed_nonblank(ls).len() ==> (#[trigger] trimmed_nonblank(ls)[i]).len() > 0
                && trim(trimmed_nonblank(ls)[i]) == trimmed_nonblank(ls)[i],
    decreases ls.len(),
{
    if ls.len() > 0 {
        lemma_trimmed_nonblank(ls.drop_last());
        crate::text::lemma_trim_idempotent(ls.last());
        let prev = trimmed_nonblank(ls.drop_last());
        assert forall|i: int|
            0 <= i < trimmed_nonblank(ls).len() implies (#[trigger] trimmed_nonblank(ls)[i]).len() > 0
            && trim(trimmed_nonblank(ls)[i]) == trimmed_nonblank(ls)[i] by {
            if i < prev.len() {
                assert(trimmed_nonblank(ls)[i] == prev[i]);
            }
        }
    }
}

/// The AWS CLI profiles, from the output of `aws configure list-profiles`; an
/// error when there is none.
pub fn list_profiles(stdout: &str) -> (r: Result<Vec<String>, ClientError>)
    ensures
        spec_parse_profiles(stdout@).len() == 0 ==> (r matches Err(ClientError::NoProfiles)),
        spec_parse_profiles(stdout@).len() > 0 ==> (r matches Ok(ps) && views(ps@)
            == spec_parse_profiles(stdout@)),
{
    let profiles = parse_profiles(stdout);
    if profiles.len() == 0 {
        return Err(ClientError::NoProfiles);
    }
    Ok(profiles)
}

/// The value of the first tag keyed `Name`.
pub open spec fn name_tag(tags: Seq<Tag>) -> Option<Seq<char>>
    decreases tags.len(),
{
    if tags.len() == 0 {
        None
    } else if tags[0].key@ == "Name"@ {
        Some(tags[0].value@)
    } else {
        name_tag(tags.drop_first())
    }
}

/// The name an instance is shown with: its `Name` tag, or a placeholder.
pub open spec fn instance_name(tags: Option<Vec<Tag>>) -> Seq<char> {
    let found = match tags {
        Some(ts) => name_tag(ts@),
        None => None,
    };
    match found {
        Some(n) => n,
        None => "(no Name tag)"@,
    }
}

/// The entry for one instance of the output.
pub open spec fn entry_of(i: InstanceJson) -> (Seq<char>, Seq<char>, Seq<char>) {
    (i.instance_id@, instance_name(i.tags), i.state.name@)
}

/// All instances of all reservations, in order.
pub open spec fn all_instances(rs: Seq<Reservation>) -> Seq<InstanceJson>
    decreases rs.len(),
{
    if rs.len() == 0 {
        seq![]
    } else {
        all_instances(rs.drop_last()) + rs.last().instances@
    }
}

/// The entries of the instances in `describe-instances` output.
pub open spec fn spec_map_instances(out: DescribeInstancesOutput) -> Seq<
    (Seq<char>, Seq<char>, Seq<char>),
> {
    all_instances(out.reservations@).map_values(|i: InstanceJson| entry_of(i))
}

/// The name an instance is shown with.
fn find_name(tags: &Option<Vec<Tag>>) -> (r: String)
    ensures
        r@ == instance_name(*tags),
{
    match tags {
        Some(ts) => {
            let n = ts.len();
            let mut i: usize = 0;
            assert(ts@.skip(0) =~= ts@);
            while i < n
                invariant
                    n == ts@.len(),
                    i <= n,
                    name_tag(ts@) == name_tag(ts@.skip(i as int)),
                    instance_name(*tags) == (match name_tag(ts@) {
                        Some(v) => v,
                        None => "(no Name tag)"@,
                    }),
                decreases n - i,
            {
                assert(ts@.skip(i as int)[0] == ts@[i as int]);
                assert(ts@.skip(i as int).drop_first() =~= ts@.skip(i + 1));
                if crate::text::str_eq(ts[i].key.as_str(), "Name") {
                    assert(name_tag(ts@.skip(i as int)) == Some(ts@[i as int].value@));
                    assert(name_tag(ts@) == Some(ts@[i as int].value@));
                    return ts[i].value.clone();
                }
                i = i + 1;
            }
            assert(ts@.skip(n as int).len() == 0);
            String::from_str("(no Name tag)")
        },
        None => String::from_str("(no Name tag)"),
    }
}

/// Flattens `describe-instances` output into entries, pulling each
/// instance's `Name` tag (or a placeholder when there is none).
pub fn map_instances(out: &DescribeInstancesOutput) -> (r: Vec<InstanceEntry>)
    ensures
        r@.map_values(|e: InstanceEntry| e@) == spec_map_instances(*out),
{
    let rs = &out.reservations;
    let n = rs.len();
    let mut entries: Vec<InstanceEntry> = Vec::new();
    let mut i: usize = 0;
    assert(rs@.take(0) =~= Seq::<Reservation>::empty());
    assert(entries@.map_values(|e: InstanceEntry| e@) =~= Seq::<
        (Seq<char>, Seq<char>, Seq<char>),
    >::empty());
    while i < n
        invariant
            n == rs@.len(),
            rs@ == out.reservations@,
            i <= n,
            entries@.map_values(|e: InstanceEntry| e@) == all_instances(rs@.take(i as int)).map_values(
                |x: InstanceJson| entry_of(x),
            ),
        decreases n - i,
    {
        let instances = &rs[i].instances;
        let m = instances.len();
        let mut j: usize = 0;
        let ghost base = all_instances(rs@.take(i as int));
        assert(instances@.take(0) =~= Seq::<InstanceJson>::empty());
        assert(base + instances@.take(0) =~= base);
        while j < m
            invariant
                m == instances@.len(),
                j <= m,
                entries@.map_values(|e: InstanceEntry| e@) == (base + instances@.take(
                    j as int,
                )).map_values(|x: InstanceJson| entry_of(x)),
            decreases m - j,
        {
            let inst = &instances[j];
            let entry = InstanceEntry {
                instance_id: inst.instance_id.clone(),
                name: find_name(&inst.tags),
                state: inst.state.name.clone(),
            };
            let ghost before = entries@;
            entries.push(entry);
            assert(base + instances@.take(j + 1) =~= (base + instances@.take(j as int)).push(
                instances@[j as int],
            ));
            assert(entries@.map_values(|e: InstanceEntry| e@) =~= before.map_values(
                |e: InstanceEntry| e@,
            ).push(entry_of(instances@[j as int])));
            j = j + 1;
        }
        assert(rs@.take(i + 1).drop_last() =~= rs@.take(i as int));
        assert(rs@.take(i + 1).last() == rs@[i as int]);
        assert(instances@.take(m as int) =~= instances@);
        i = i + 1;
    }
    assert(rs@.take(n as int) =~= rs@);
    entries
}

/// The entries of `describe-instances` output (see [`map_instances`]).
pub fn describe_instances(out: &DescribeInstancesOutput) -> (r: Vec<InstanceEntry>)
    ensures
        r@.map_values(|e: InstanceEntry| e@) == spec_map_instances(*out),
{
    map_instances(out)
}

/// The shutdown script asks for a shutdown in exactly `minutes` minutes: the
/// text after `shutdown -h +` is one or more ASCII digits, without a leading
/// zero unless `minutes` is zero, that read back as `minutes`, followed by the
/// shutdown message; and the same digits are reported back with the target
/// time.
pub proof fn lemma_shutdown_script_minutes(minutes: int, target_time: Seq<char>)
    requires
        minutes >= 0,
    ensures
        exists|d: Seq<char>|
            {
                &&& d.len() > 0
                &&& forall|i: int| 0 <= i < d.len() ==> '0' <= #[trigger] d[i] <= '9'
                &&& (minutes != 0 ==> d[0] != '0')
                &&& read_decimal(d) == minutes
                &&& spec_shutdown_script(minutes, target_time)
                    == "if show=$(shutdown --show 2>&1); then echo 'Shutdown already scheduled, leaving it as-is:'; echo \"$show\"; else shutdown -h +"@
                    + d + " 'Auto-shutdown scheduled by awsome' && echo 'Scheduled shutdown at "@
                    + target_time + " (in "@ + d + " minute(s)).'; fi"@
            },
{
    lemma_signed_decimal_reads_back(minutes);
    lemma_decimal_reads_back(minutes as nat);
    let d = signed_decimal(minutes);
    assert(d == decimal(minutes as nat));
}

} // verus!
