use aurora::executor::Effect;
use aurora::executor::Failure;
use aurora::executor::is_prompt_text;
use aurora::executor::LogBuffer;
use aurora::executor::mentions_lock;
use aurora::executor::Phase;
use aurora::executor::Preflight;
use aurora::executor::PromptResponse;
use aurora::executor::Refusal;
use aurora::executor::should_prompt;
use aurora::executor::TransactionExecutor;
use aurora::models::Settings;
use aurora::models::TerminalEmulator;
use aurora::models::TerminalMode;
use aurora::runner::CommandSpec;
use aurora::runner::LogEvent;
use aurora::transactions::TransactionPlan;

fn command(name: &str) -> CommandSpec {
    CommandSpec::new(name, vec!["arg".to_string()])
}

fn plan(names: &[&str]) -> TransactionPlan {
    TransactionPlan { commands: names.iter().map(|n| command(n)).collect() }
}

fn clear() -> Preflight {
    Preflight { active: Ok(Vec::new()), lock_file_present: false }
}

fn line(text: &str) -> LogEvent {
    LogEvent::Line(text.to_string())
}

fn log(text: &str) -> Effect {
    Effect::Log(text.to_string())
}

fn notify(text: &str) -> Effect {
    Effect::Notify(text.to_string())
}

fn spawn(name: &str, settings: &Settings) -> Effect {
    Effect::Spawn {
        command: command(name),
        mode: settings.terminal_mode,
        emulator: settings.terminal_emulator,
    }
}

fn spawns(effects: &[Effect]) -> usize {
    effects.iter().filter(|e| matches!(e, Effect::Spawn { .. })).count()
}

fn prompts(effects: &[Effect]) -> usize {
    effects.iter().filter(|e| matches!(e, Effect::OpenPrompt(_))).count()
}

fn external() -> Settings {
    Settings {
        terminal_mode: TerminalMode::External,
        terminal_emulator: TerminalEmulator::Konsole,
        ..Settings::default()
    }
}

#[test]
fn a_new_executor_is_idle() {
    let executor = TransactionExecutor::new();
    assert_eq!(executor.phase(), Phase::Idle);
    assert!(!executor.in_progress());
    assert_eq!(executor.completed_steps(), 0);
    assert_eq!(executor.dispatch_attempts(), Some(0));
    assert!(executor.commands().is_empty());
    assert!(!executor.prompt_open());
}

#[test]
fn an_accepted_plan_starts_its_first_command() {
    let settings = Settings::default();
    let mut executor = TransactionExecutor::new();
    let (outcome, effects) = executor.start(plan(&["one", "two"]), &clear(), &settings);
    assert_eq!(outcome, Ok(()));
    assert_eq!(
        effects,
        vec![
            Effect::ClearLog,
            Effect::ShowLog,
            log("$ LC_ALL='C' 'one' 'arg'"),
            spawn("one", &settings),
        ]
    );
    assert!(executor.in_progress());
    assert_eq!(executor.phase(), Phase::Running);
    assert_eq!(executor.completed_steps(), 0);
    assert_eq!(executor.dispatch_attempts(), Some(1));
    assert_eq!(executor.commands().len(), 2);
}

#[test]
fn a_terminal_run_is_announced() {
    let settings = external();
    let mut executor = TransactionExecutor::new();
    let (_, effects) = executor.start(plan(&["one"]), &clear(), &settings);
    assert_eq!(
        effects,
        vec![
            Effect::ClearLog,
            Effect::ShowLog,
            log("$ LC_ALL='C' 'one' 'arg'"),
            log("Launching command in external terminal (Konsole)"),
            spawn("one", &settings),
        ]
    );
}

#[test]
fn a_failing_command_stops_the_plan() {
    let settings = Settings::default();
    let mut executor = TransactionExecutor::new();
    executor.start(plan(&["one", "two"]), &clear(), &settings);
    let effects = executor.handle_event(LogEvent::Finished(0), &settings);
    assert_eq!(effects, vec![log("$ LC_ALL='C' 'two' 'arg'"), spawn("two", &settings)]);
    assert_eq!(executor.completed_steps(), 1);
    let effects = executor.handle_event(LogEvent::Finished(2), &settings);
    assert_eq!(effects, vec![notify("Command failed (2)"), log("Command failed (2)")]);
    assert_eq!(executor.phase(), Phase::Failed(Failure::ExitCode(2)));
    assert_eq!(executor.dispatch_attempts(), Some(2));
    assert_eq!(executor.commands().len(), 2);
    assert_eq!(executor.completed_steps(), 1);
    assert!(!executor.in_progress());
}

#[test]
fn the_commands_after_a_failure_never_run() {
    let settings = Settings::default();
    let mut executor = TransactionExecutor::new();
    executor.start(plan(&["one", "two", "three"]), &clear(), &settings);
    let effects = executor.handle_event(LogEvent::Finished(-1), &settings);
    assert_eq!(effects, vec![notify("Command failed (-1)"), log("Command failed (-1)")]);
    assert_eq!(executor.phase(), Phase::Failed(Failure::ExitCode(-1)));
    assert_eq!(executor.dispatch_attempts(), Some(1));
    for event in [LogEvent::Finished(0), line("late"), LogEvent::Finished(1)] {
        assert_eq!(executor.handle_event(event, &settings), Vec::new());
    }
    assert_eq!(executor.phase(), Phase::Failed(Failure::ExitCode(-1)));
    assert_eq!(executor.dispatch_attempts(), Some(1));
}

#[test]
fn the_last_success_completes_the_plan() {
    let settings = Settings::default();
    let mut executor = TransactionExecutor::new();
    executor.start(plan(&["one", "two"]), &clear(), &settings);
    let mut started = 1;
    started += spawns(&executor.handle_event(LogEvent::Finished(0), &settings));
    let effects = executor.handle_event(LogEvent::Finished(0), &settings);
    started += spawns(&effects);
    assert_eq!(started, 2);
    assert_eq!(effects, vec![Effect::ShowCompleted, notify("Transactions complete")]);
    assert_eq!(executor.phase(), Phase::Completed);
    assert!(!executor.in_progress());
    assert!(executor.commands().is_empty());
    assert_eq!(executor.completed_steps(), 2);
    assert_eq!(executor.dispatch_attempts(), Some(2));
}

#[test]
fn a_second_plan_is_refused_while_one_runs() {
    let settings = Settings::default();
    let mut executor = TransactionExecutor::new();
    executor.start(plan(&["one", "two"]), &clear(), &settings);
    executor.handle_event(LogEvent::Finished(0), &settings);
    let (outcome, effects) = executor.start(plan(&["other"]), &clear(), &settings);
    assert_eq!(outcome, Err(Refusal::InProgress));
    assert_eq!(
        effects,
        vec![
            notify("A transaction is already running. Wait for it to finish."),
            Effect::ShowLog,
            log("Refusing to start: another transaction is still running. It has to finish before a new one can begin."),
        ]
    );
    assert!(executor.in_progress());
    assert_eq!(executor.completed_steps(), 1);
    assert_eq!(executor.commands(), &plan(&["one", "two"]).commands);
    let effects = executor.handle_event(LogEvent::Finished(0), &settings);
    assert_eq!(executor.phase(), Phase::Completed);
    assert_eq!(spawns(&effects), 0);
}

#[test]
fn a_running_package_manager_refuses_the_plan() {
    let settings = Settings::default();
    let mut executor = TransactionExecutor::new();
    let probe = Preflight {
        active: Ok(vec!["pacman".to_string(), "yay".to_string()]),
        lock_file_present: true,
    };
    let (outcome, effects) = executor.start(plan(&["one"]), &probe, &settings);
    assert_eq!(outcome, Err(Refusal::PackageManagerActive));
    assert_eq!(
        effects,
        vec![
            notify("Another package manager process is already running"),
            Effect::ShowLog,
            log("Refusing to start: active package manager process detected: pacman, yay"),
        ]
    );
    assert_eq!(spawns(&effects), 0);
    assert!(!executor.in_progress());
    assert_eq!(executor.phase(), Phase::Idle);
    assert_eq!(executor.dispatch_attempts(), Some(0));
}

#[test]
fn a_lock_file_refuses_the_plan() {
    let mut executor = TransactionExecutor::new();
    let probe = Preflight { active: Ok(Vec::new()), lock_file_present: true };
    let (outcome, effects) = executor.start(plan(&["one"]), &probe, &Settings::default());
    assert_eq!(outcome, Err(Refusal::LockFilePresent));
    assert_eq!(
        effects,
        vec![
            notify("Pacman lock file present"),
            Effect::ShowLog,
            log("Refusing to start because /var/lib/pacman/db.lck exists. Use the Clear Lock button in Logs."),
        ]
    );
    assert!(!executor.in_progress());
}

#[test]
fn an_unreadable_process_table_refuses_the_plan() {
    let mut executor = TransactionExecutor::new();
    let probe = Preflight { active: Err("pgrep failed for yay: gone".to_string()), lock_file_present: false };
    let (outcome, effects) = executor.start(plan(&["one"]), &probe, &Settings::default());
    assert_eq!(outcome, Err(Refusal::ProbeFailed));
    assert_eq!(
        effects,
        vec![
            notify("Failed to check package manager status"),
            Effect::ShowLog,
            log("Failed to check active package managers: pgrep failed for yay: gone"),
        ]
    );
    assert!(!executor.in_progress());
}

#[test]
fn an_empty_plan_is_turned_away_silently() {
    let mut executor = TransactionExecutor::new();
    let (outcome, effects) = executor.start(plan(&[]), &clear(), &Settings::default());
    assert_eq!(outcome, Err(Refusal::EmptyPlan));
    assert_eq!(effects, Vec::new());
    assert_eq!(executor.phase(), Phase::Idle);
}

#[test]
fn a_refusal_keeps_what_the_last_plan_left() {
    let settings = Settings::default();
    let mut executor = TransactionExecutor::new();
    executor.start(plan(&["one", "two"]), &clear(), &settings);
    executor.handle_event(LogEvent::Finished(3), &settings);
    let probe = Preflight { active: Ok(Vec::new()), lock_file_present: true };
    let (outcome, _) = executor.start(plan(&["x"]), &probe, &settings);
    assert_eq!(outcome, Err(Refusal::LockFilePresent));
    assert_eq!(executor.phase(), Phase::Failed(Failure::ExitCode(3)));
    assert_eq!(executor.commands(), &plan(&["one", "two"]).commands);
}

#[test]
fn a_new_plan_may_follow_a_failed_or_completed_one() {
    let settings = Settings::default();
    let mut executor = TransactionExecutor::new();
    executor.start(plan(&["one"]), &clear(), &settings);
    executor.handle_event(LogEvent::Finished(1), &settings);
    assert_eq!(executor.start(plan(&["two"]), &clear(), &settings).0, Ok(()));
    assert_eq!(executor.dispatch_attempts(), Some(1));
    executor.handle_event(LogEvent::Finished(0), &settings);
    assert_eq!(executor.phase(), Phase::Completed);
    assert_eq!(executor.start(plan(&["three"]), &clear(), &settings).0, Ok(()));
    assert!(executor.in_progress());
    assert_eq!(executor.completed_steps(), 0);
}

#[test]
fn one_question_opens_one_prompt() {
    let settings = Settings::default();
    let mut executor = TransactionExecutor::new();
    executor.start(plan(&["one"]), &clear(), &settings);
    let question = "Proceed with installation? [Y/n]";
    let effects = executor.handle_event(line(question), &settings);
    assert_eq!(effects, vec![Effect::OpenPrompt(question.to_string()), log(question)]);
    assert!(executor.prompt_open());
    let effects = executor.handle_event(line(question), &settings);
    assert_eq!(effects, vec![log(question)]);
    assert_eq!(prompts(&effects), 0);
    let effects = executor.handle_event(line("Enter a number:"), &settings);
    assert_eq!(prompts(&effects), 0);
    assert_eq!(executor.prompt_answered(PromptResponse::Yes), Some("y".to_string()));
    assert!(!executor.prompt_open());
    let effects = executor.handle_event(line(question), &settings);
    assert_eq!(prompts(&effects), 1);
}

#[test]
fn a_terminal_run_relays_no_prompts() {
    let settings = external();
    let mut executor = TransactionExecutor::new();
    executor.start(plan(&["one"]), &clear(), &settings);
    let effects = executor.handle_event(line("Proceed with installation? [Y/n]"), &settings);
    assert_eq!(effects, vec![log("Proceed with installation? [Y/n]")]);
    assert!(!executor.prompt_open());
}

#[test]
fn the_mode_is_taken_anew_for_each_command() {
    let mut executor = TransactionExecutor::new();
    executor.start(plan(&["one", "two"]), &clear(), &external());
    let settings = Settings::default();
    let effects = executor.handle_event(LogEvent::Finished(0), &settings);
    assert_eq!(effects, vec![log("$ LC_ALL='C' 'two' 'arg'"), spawn("two", &settings)]);
    assert_eq!(prompts(&executor.handle_event(line("sure?"), &settings)), 1);
}

#[test]
fn plain_lines_only_go_to_the_transcript() {
    let settings = Settings::default();
    let mut executor = TransactionExecutor::new();
    executor.start(plan(&["one"]), &clear(), &settings);
    assert_eq!(executor.handle_event(line("resolving dependencies..."), &settings), vec![log("resolving dependencies...")]);
    assert_eq!(executor.handle_event(line(""), &settings), vec![log("")]);
    assert!(executor.in_progress());
    assert_eq!(executor.completed_steps(), 0);
}

#[test]
fn lines_are_ignored_while_nothing_runs() {
    let mut executor = TransactionExecutor::new();
    assert_eq!(executor.handle_event(line("stray?"), &Settings::default()), Vec::new());
    assert_eq!(executor.handle_event(LogEvent::Finished(0), &Settings::default()), Vec::new());
    assert_eq!(executor.spawn_failed("x"), Vec::new());
    assert_eq!(executor.disconnected(), Vec::new());
    assert_eq!(executor.phase(), Phase::Idle);
}

#[test]
fn the_lock_hint_comes_once() {
    let settings = Settings::default();
    let mut executor = TransactionExecutor::new();
    executor.start(plan(&["one", "two"]), &clear(), &settings);
    let complaint = "error: Unable to lock database";
    let effects = executor.handle_event(line(complaint), &settings);
    assert_eq!(
        effects,
        vec![
            log(complaint),
            log("Hint: pacman lock detected. If no package manager is running, remove it with: sudo rm -f /var/lib/pacman/db.lck"),
            notify("Pacman lock file detected"),
        ]
    );
    assert_eq!(executor.handle_event(line(complaint), &settings), vec![log(complaint)]);
    executor.handle_event(LogEvent::Finished(0), &settings);
    let again = "could not lock database: File exists";
    assert_eq!(executor.handle_event(line(again), &settings), vec![log(again)]);
}

#[test]
fn a_line_may_ask_and_hint_at_once() {
    let settings = Settings::default();
    let mut executor = TransactionExecutor::new();
    executor.start(plan(&["one"]), &clear(), &settings);
    let text = "remove /var/lib/pacman/db.lck?";
    let effects = executor.handle_event(line(text), &settings);
    assert_eq!(effects.len(), 4);
    assert_eq!(effects[0], Effect::OpenPrompt(text.to_string()));
    assert_eq!(effects[1], log(text));
    assert_eq!(effects[3], notify("Pacman lock file detected"));
}

#[test]
fn a_command_that_cannot_start_fails_the_plan() {
    let settings = external();
    let mut executor = TransactionExecutor::new();
    executor.start(plan(&["one", "two"]), &clear(), &settings);
    let effects = executor.spawn_failed("No supported terminal found.");
    assert_eq!(
        effects,
        vec![
            notify("Failed to start command"),
            log("Failed to start command: No supported terminal found."),
        ]
    );
    assert_eq!(executor.phase(), Phase::Failed(Failure::SpawnFailed));
    assert!(!executor.in_progress());
    assert_eq!(executor.commands().len(), 2);
    assert_eq!(executor.dispatch_attempts(), Some(1));
}

#[test]
fn events_that_end_early_fail_the_plan() {
    let settings = Settings::default();
    let mut executor = TransactionExecutor::new();
    executor.start(plan(&["one", "two"]), &clear(), &settings);
    executor.handle_event(LogEvent::Finished(0), &settings);
    let effects = executor.disconnected();
    assert_eq!(
        effects,
        vec![
            notify("Command ended unexpectedly"),
            log("The command stopped reporting before it gave an exit code; the transaction was abandoned."),
        ]
    );
    assert_eq!(executor.phase(), Phase::Failed(Failure::Disconnected));
    assert!(!executor.in_progress());
    assert_eq!(executor.completed_steps(), 1);
}

#[test]
fn each_response_has_its_reply() {
    let mut executor = TransactionExecutor::new();
    let mut reply = |r: PromptResponse| executor.prompt_answered(r);
    assert_eq!(reply(PromptResponse::Yes), Some("y".to_string()));
    assert_eq!(reply(PromptResponse::No), Some("n".to_string()));
    assert_eq!(reply(PromptResponse::All), Some("a".to_string()));
    assert_eq!(reply(PromptResponse::Installed), Some("i".to_string()));
    assert_eq!(reply(PromptResponse::NotInstalled), Some("no".to_string()));
    assert_eq!(reply(PromptResponse::Abort), Some("ab".to_string()));
    assert_eq!(reply(PromptResponse::Send("1 2 3".to_string())), Some("1 2 3".to_string()));
    assert_eq!(reply(PromptResponse::Send(String::new())), Some(String::new()));
    assert_eq!(reply(PromptResponse::Cancel), None);
}

#[test]
fn a_cancelled_prompt_lets_the_next_question_through() {
    let settings = Settings::default();
    let mut executor = TransactionExecutor::new();
    executor.start(plan(&["one"]), &clear(), &settings);
    executor.handle_event(line("ok?"), &settings);
    assert_eq!(executor.prompt_answered(PromptResponse::Cancel), None);
    assert_eq!(prompts(&executor.handle_event(line("ok?"), &settings)), 1);
}

#[test]
fn recognises_questions_whatever_their_case() {
    for text in [
        "Proceed with installation? [Y/n]",
        ":: PROCEED WITH INSTALLATION",
        "Proceed with transaction",
        "==> Packages to cleanBuild?",
        "Enter a number (default=1):",
        "Continue [y/N]",
        "Remove make dependencies after install? [y]",
        "Really",
        "Really?",
        "?",
    ] {
        assert_eq!(should_prompt(text), text != "Really", "{text:?}");
    }
    for text in ["", "downloading...", "what? no", "[yn]", "y/n", "enter  a number"] {
        assert!(!should_prompt(text), "{text:?}");
    }
}

#[test]
fn a_prompt_text_is_judged_in_lowercase() {
    assert!(is_prompt_text("proceed with installation"));
    assert!(!is_prompt_text("Proceed With Installation"));
    assert!(is_prompt_text("[y/n]"));
    assert!(!is_prompt_text("[Y/n]"));
    assert!(mentions_lock("unable to lock database"));
    assert!(mentions_lock("x could not lock database y"));
    assert!(mentions_lock("/var/lib/pacman/db.lck"));
    assert!(!mentions_lock("Unable to lock database"));
    assert!(!mentions_lock("lock"));
}

#[test]
fn the_transcript_keeps_the_newest_lines() {
    let mut log = LogBuffer::new();
    assert_eq!(log.len(), 0);
    assert_eq!(log.text(), "");
    for i in 0..5 {
        log.append_line(&format!("line {i}"), 3);
    }
    assert_eq!(log.len(), 3);
    assert_eq!(log.text(), "line 2\nline 3\nline 4");
    log.append_line("last", 1);
    assert_eq!(log.text(), "last");
    log.append_line("gone", 0);
    assert_eq!(log.len(), 0);
    assert_eq!(log.text(), "");
    log.append_line("a", 2);
    log.append_line("b", 2);
    assert_eq!(log.text(), "a\nb");
    log.clear();
    assert_eq!(log.len(), 0);
}
