//! Starting and stopping the servers: the arguments of the Java machine, the
//! commands sent to a server's terminal session, and the order of the steps.

use vstd::prelude::*;
use vstd::string::StringExecFns;
use crate::arg_types::ServerMemory;
use crate::config::StartArgs;
use crate::text::{join, joined, text_views};

verus! {

/// From this many gibibytes on, a server counts as large and gets other
/// settings for its garbage collector.
pub const LARGE_MEMORY_GIBIBYTES: u8 = 12;

/// The flags for the garbage collector, by whether the server is large.
pub open spec fn aikar_flags(large: bool) -> Seq<Seq<char>> {
    seq![
        "-XX:+UseG1GC"@,
        "-XX:+ParallelRefProcEnabled"@,
        "-XX:MaxGCPauseMillis=200"@,
        "-XX:+UnlockExperimentalVMOptions"@,
        "-XX:+DisableExplicitGC"@,
        "-XX:+AlwaysPreTouch"@,
        if large {
            "-XX:G1NewSizePercent=40"@
        } else {
            "-XX:G1NewSizePercent=30"@
        },
        if large {
            "-XX:G1MaxNewSizePercent=50"@
        } else {
            "-XX:G1MaxNewSizePercent=40"@
        },
        if large {
            "-XX:G1HeapRegionSize=16M"@
        } else {
            "-XX:G1HeapRegionSize=8M"@
        },
        if large {
            "-XX:G1ReservePercent=15"@
        } else {
            "-XX:G1ReservePercent=20"@
        },
        "-XX:G1HeapWastePercent=5"@,
        "-XX:G1MixedGCCountTarget=4"@,
        if large {
            "-XX:InitiatingHeapOccupancyPercent=20"@
        } else {
            "-XX:InitiatingHeapOccupancyPercent=15"@
        },
        "-XX:G1MixedGCLiveThresholdPercent=90"@,
        "-XX:G1RSetUpdatingPauseTimePercent=5"@,
        "-XX:SurvivorRatio=32"@,
        "-XX:+PerfDisableSharedMem"@,
        "-XX:MaxTenuringThreshold=1"@,
        "-Dusing.aikars.flags=https://mcflags.emc.gs"@,
        "-Daikars.new.flags=true"@,
    ]
}

/// The arguments of the Java machine: the memory limit, then the flags for
/// the garbage collector where they are wanted, then what the user added.
pub open spec fn jvm_flags(
    memory: Seq<char>,
    bytes: u64,
    use_aikar_flags: bool,
    jvm_args: Option<String>,
) -> Seq<Seq<char>> {
    seq!["-Xmx"@ + memory] + (if use_aikar_flags {
        aikar_flags(bytes >= 12 * 1_073_741_824)
    } else {
        Seq::empty()
    }) + (match jvm_args {
        Some(more) => seq![more@],
        None => Seq::empty(),
    })
}

/// The flags for the garbage collector.
fn aikar_flag_list(large: bool) -> (flags: Vec<String>)
    ensures
        text_views(flags@) == aikar_flags(large),
{
    let mut flags: Vec<String> = Vec::new();
    flags.push(String::from_str("-XX:+UseG1GC"));
    flags.push(String::from_str("-XX:+ParallelRefProcEnabled"));
    flags.push(String::from_str("-XX:MaxGCPauseMillis=200"));
    flags.push(String::from_str("-XX:+UnlockExperimentalVMOptions"));
    flags.push(String::from_str("-XX:+DisableExplicitGC"));
    flags.push(String::from_str("-XX:+AlwaysPreTouch"));
    flags.push(
        String::from_str(
            if large {
                "-XX:G1NewSizePercent=40"
            } else {
                "-XX:G1NewSizePercent=30"
            },
        ),
    );
    flags.push(
        String::from_str(
            if large {
                "-XX:G1MaxNewSizePercent=50"
            } else {
                "-XX:G1MaxNewSizePercent=40"
            },
        ),
    );
    flags.push(
        String::from_str(
            if large {
                "-XX:G1HeapRegionSize=16M"
            } else {
                "-XX:G1HeapRegionSize=8M"
            },
        ),
    );
    flags.push(
        String::from_str(
            if large {
                "-XX:G1ReservePercent=15"
            } else {
                "-XX:G1ReservePercent=20"
            },
        ),
    );
    flags.push(String::from_str("-XX:G1HeapWastePercent=5"));
    flags.push(String::from_str("-XX:G1MixedGCCountTarget=4"));
    flags.push(
        String::from_str(
            if large {
                "-XX:InitiatingHeapOccupancyPercent=20"
            } else {
                "-XX:InitiatingHeapOccupancyPercent=15"
            },
        ),
    );
    flags.push(String::from_str("-XX:G1MixedGCLiveThresholdPercent=90"));
    flags.push(String::from_str("-XX:G1RSetUpdatingPauseTimePercent=5"));
    flags.push(String::from_str("-XX:SurvivorRatio=32"));
    flags.push(String::from_str("-XX:+PerfDisableSharedMem"));
    flags.push(String::from_str("-XX:MaxTenuringThreshold=1"));
    flags.push(String::from_str("-Dusing.aikars.flags=https://mcflags.emc.gs"));
    flags.push(String::from_str("-Daikars.new.flags=true"));
    assert(text_views(flags@) =~= aikar_flags(large));
    flags
}

/// The arguments of the Java machine for a server, with a blank between
/// each two.
pub fn generate_jvm_args(args: StartArgs) -> (line: String)
    ensures
        line@ == joined(
            jvm_flags(
                args.max_memory.text(),
                args.max_memory.size(),
                args.use_aikar_flags,
                args.jvm_args,
            ),
            " "@,
        ),
{
    let mut flags: Vec<String> = Vec::new();
    let mut limit = String::from_str("-Xmx");
    limit.append(args.max_memory.to_string().as_str());
    flags.push(limit);
    assert(text_views(flags@) =~= seq!["-Xmx"@ + args.max_memory.text()]);
    if args.use_aikar_flags {
        let large_mem = args.max_memory >= ServerMemory::gibibytes(LARGE_MEMORY_GIBIBYTES);
        let mut more = aikar_flag_list(large_mem);
        let ghost head = text_views(flags@);
        let ghost tail = text_views(more@);
        flags.append(&mut more);
        assert(text_views(flags@) =~= head + tail);
    }
    let ghost so_far = text_views(flags@);
    match args.jvm_args {
        Some(jvm_args) => {
            flags.push(jvm_args);
            assert(text_views(flags@) =~= so_far + seq![jvm_args@]);
        },
        None => {
            assert(so_far + Seq::<Seq<char>>::empty() =~= so_far);
        },
    }
    assert(text_views(flags@) =~= jvm_flags(
        args.max_memory.text(),
        args.max_memory.size(),
        args.use_aikar_flags,
        args.jvm_args,
    ));
    join(&flags, " ")
}

/// The command that makes a terminal session enter a server's directory.
pub fn cd_command(name: &str) -> (command: String)
    ensures
        command@ == "cd ./"@ + name@,
{
    let mut command = String::from_str("cd ./");
    command.append(name);
    command
}

/// The name under which the end of a server's run is signalled.
pub fn exit_handle(name: &str) -> (handle: String)
    ensures
        handle@ == name@ + "_exit"@,
{
    let mut handle = String::from_str(name);
    handle.append("_exit");
    handle
}

/// The command that runs a server in its terminal session and signals the
/// end of the run.
pub fn run_command(jvm_args: &str, jar_file: &str, name: &str) -> (command: String)
    ensures
        command@ == "java "@ + jvm_args@ + " -jar "@ + jar_file@ + " nogui ; tmux wait -S "@
            + name@ + "_exit"@,
{
    let mut command = String::from_str("java ");
    command.append(jvm_args);
    command.append(" -jar ");
    command.append(jar_file);
    command.append(" nogui ; tmux wait -S ");
    command.append(name);
    command.append("_exit");
    command
}

/// What is done to the servers' sessions.
#[derive(Debug, Clone, Copy, PartialEq, Eq, Structural)]
pub enum SessionCommand {
    Start,
    Stop,
    Restart,
}

/// One step on the terminal session of a server.
#[derive(Debug, Clone, Copy, PartialEq, Eq, Structural)]
pub enum SessionStep {
    /// Open a new session, detached.
    NewSession,
    /// Enter the server's directory.
    ChangeDirectory,
    /// Run the server.
    Run,
    /// Interrupt the running server.
    Interrupt,
    /// Wait for the end of the server's run, for a limited time.
    AwaitExit,
    /// Close the session.
    KillSession,
}

/// How a step ended.
#[derive(Debug, Clone, Copy, PartialEq, Eq, Structural)]
pub enum StepOutcome {
    /// The step was done.
    Done,
    /// The time of the wait ran out.
    TimedOut,
    /// The step could not be done.
    Failed,
}

/// What follows a step.
#[derive(Debug, Clone, Copy, PartialEq, Eq, Structural)]
pub enum Verdict {
    /// Go on with the next step.
    Proceed,
    /// Warn that the server did not stop in time, and go on with the next
    /// step.
    ProceedAfterTimeout,
    /// Report the failure and leave the rest of this server's steps out.
    GiveUp,
}

/// The steps of a command on one server, in their order.
pub open spec fn steps_of(command: SessionCommand) -> Seq<SessionStep> {
    match command {
        SessionCommand::Start => seq![
            SessionStep::NewSession,
            SessionStep::ChangeDirectory,
            SessionStep::Run,
        ],
        SessionCommand::Stop => seq![
            SessionStep::Interrupt,
            SessionStep::AwaitExit,
            SessionStep::KillSession,
        ],
        SessionCommand::Restart => seq![
            SessionStep::Interrupt,
            SessionStep::AwaitExit,
            SessionStep::Run,
        ],
    }
}

/// The steps of a command on one server, in their order.
pub fn session_steps(command: SessionCommand) -> (steps: Vec<SessionStep>)
    ensures
        steps@ == steps_of(command),
{
    let mut steps: Vec<SessionStep> = Vec::new();
    match command {
        SessionCommand::Start => {
            steps.push(SessionStep::NewSession);
            steps.push(SessionStep::ChangeDirectory);
            steps.push(SessionStep::Run);
        },
        SessionCommand::Stop => {
            steps.push(SessionStep::Interrupt);
            steps.push(SessionStep::AwaitExit);
            steps.push(SessionStep::KillSession);
        },
        SessionCommand::Restart => {
            steps.push(SessionStep::Interrupt);
            steps.push(SessionStep::AwaitExit);
            steps.push(SessionStep::Run);
        },
    }
    assert(steps@ =~= steps_of(command));
    steps
}

/// What follows a step that ended with `outcome`: a failure ends the work
/// on the server; a wait that ran out of time is followed by the next step
/// all the same, after a warning.
pub fn verdict(step: SessionStep, outcome: StepOutcome) -> (next: Verdict)
    ensures
        next == match outcome {
            StepOutcome::Failed => Verdict::GiveUp,
            StepOutcome::Done => Verdict::Proceed,
            StepOutcome::TimedOut => if step == SessionStep::AwaitExit {
                Verdict::ProceedAfterTimeout
            } else {
                Verdict::GiveUp
            },
        },
{
    match outcome {
        StepOutcome::Failed => Verdict::GiveUp,
        StepOutcome::Done => Verdict::Proceed,
        StepOutcome::TimedOut => match step {
            SessionStep::AwaitExit => Verdict::ProceedAfterTimeout,
            _ => Verdict::GiveUp,
        },
    }
}

} // verus!
