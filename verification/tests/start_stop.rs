use provisioner::arg_types::ServerMemory;
use provisioner::cmd_start_stop::{
    cd_command, exit_handle, generate_jvm_args, run_command, session_steps, verdict,
    SessionCommand, SessionStep, StepOutcome, Verdict, LARGE_MEMORY_GIBIBYTES,
};
use provisioner::config::StartArgs;

fn args(memory: &str, use_aikar_flags: bool, jvm_args: Option<&str>) -> StartArgs {
    StartArgs {
        max_memory: ServerMemory::from_str(memory).unwrap(),
        use_aikar_flags,
        jvm_args: jvm_args.map(String::from),
    }
}

#[test]
fn memory_limit_alone() {
    assert_eq!(generate_jvm_args(args("1G", false, None)), "-Xmx1G");
    assert_eq!(generate_jvm_args(args("512m", false, None)), "-Xmx512m");
}

#[test]
fn added_arguments_come_last() {
    assert_eq!(
        generate_jvm_args(args("2G", false, Some("-Dfoo=bar -Dx"))),
        "-Xmx2G -Dfoo=bar -Dx"
    );
}

#[test]
fn flags_for_a_small_server() {
    assert_eq!(
        generate_jvm_args(args("4G", true, None)),
        "-Xmx4G -XX:+UseG1GC -XX:+ParallelRefProcEnabled -XX:MaxGCPauseMillis=200 \
         -XX:+UnlockExperimentalVMOptions -XX:+DisableExplicitGC -XX:+AlwaysPreTouch \
         -XX:G1NewSizePercent=30 -XX:G1MaxNewSizePercent=40 -XX:G1HeapRegionSize=8M \
         -XX:G1ReservePercent=20 -XX:G1HeapWastePercent=5 -XX:G1MixedGCCountTarget=4 \
         -XX:InitiatingHeapOccupancyPercent=15 -XX:G1MixedGCLiveThresholdPercent=90 \
         -XX:G1RSetUpdatingPauseTimePercent=5 -XX:SurvivorRatio=32 -XX:+PerfDisableSharedMem \
         -XX:MaxTenuringThreshold=1 -Dusing.aikars.flags=https://mcflags.emc.gs \
         -Daikars.new.flags=true"
    );
}

#[test]
fn flags_for_a_large_server() {
    let expected = "-XX:+UseG1GC -XX:+ParallelRefProcEnabled -XX:MaxGCPauseMillis=200 \
         -XX:+UnlockExperimentalVMOptions -XX:+DisableExplicitGC -XX:+AlwaysPreTouch \
         -XX:G1NewSizePercent=40 -XX:G1MaxNewSizePercent=50 -XX:G1HeapRegionSize=16M \
         -XX:G1ReservePercent=15 -XX:G1HeapWastePercent=5 -XX:G1MixedGCCountTarget=4 \
         -XX:InitiatingHeapOccupancyPercent=20 -XX:G1MixedGCLiveThresholdPercent=90 \
         -XX:G1RSetUpdatingPauseTimePercent=5 -XX:SurvivorRatio=32 -XX:+PerfDisableSharedMem \
         -XX:MaxTenuringThreshold=1 -Dusing.aikars.flags=https://mcflags.emc.gs \
         -Daikars.new.flags=true";
    assert_eq!(generate_jvm_args(args("12G", true, None)), format!("-Xmx12G {}", expected));
    assert_eq!(
        generate_jvm_args(args("12288m", true, Some("-Dlast"))),
        format!("-Xmx12288m {} -Dlast", expected)
    );
    assert_eq!(LARGE_MEMORY_GIBIBYTES, 12);
}

#[test]
fn a_server_just_below_twelve_gibibytes_is_small() {
    let line = generate_jvm_args(args("12287m", true, None));
    assert!(line.contains("-XX:G1NewSizePercent=30"));
    assert!(line.contains("-XX:G1HeapRegionSize=8M"));
    let line = generate_jvm_args(args("12288m", true, None));
    assert!(line.contains("-XX:G1NewSizePercent=40"));
}

#[test]
fn session_commands() {
    assert_eq!(cd_command("mammoth_server_25565"), "cd ./mammoth_server_25565");
    assert_eq!(exit_handle("mammoth_server_25565"), "mammoth_server_25565_exit");
    assert_eq!(
        run_command("-Xmx1G", "paper.jar", "mammoth_server_25565"),
        "java -Xmx1G -jar paper.jar nogui ; tmux wait -S mammoth_server_25565_exit"
    );
}

#[test]
fn steps_of_the_commands() {
    assert_eq!(
        session_steps(SessionCommand::Start),
        vec![SessionStep::NewSession, SessionStep::ChangeDirectory, SessionStep::Run]
    );
    assert_eq!(
        session_steps(SessionCommand::Stop),
        vec![SessionStep::Interrupt, SessionStep::AwaitExit, SessionStep::KillSession]
    );
    assert_eq!(
        session_steps(SessionCommand::Restart),
        vec![SessionStep::Interrupt, SessionStep::AwaitExit, SessionStep::Run]
    );
}

#[test]
fn what_follows_a_step() {
    for step in [
        SessionStep::NewSession,
        SessionStep::ChangeDirectory,
        SessionStep::Run,
        SessionStep::Interrupt,
        SessionStep::AwaitExit,
        SessionStep::KillSession,
    ] {
        assert_eq!(verdict(step, StepOutcome::Done), Verdict::Proceed);
        assert_eq!(verdict(step, StepOutcome::Failed), Verdict::GiveUp);
    }
    assert_eq!(
        verdict(SessionStep::AwaitExit, StepOutcome::TimedOut),
        Verdict::ProceedAfterTimeout
    );
    assert_eq!(verdict(SessionStep::Run, StepOutcome::TimedOut), Verdict::GiveUp);
}
