//! Carrying out a plan: the checks before anything starts, one command at a
//! time, the relay of prompts, and the guard that lets one plan run at once.
//!
//! The executor decides and never acts. Each of its operations takes what
//! has happened and returns what is to be done, as a list of [`Effect`]s
//! that the caller performs in order.

use vstd::prelude::*;
use vstd::string::*;

use crate::models::Settings;
use crate::models::TerminalEmulator;
use crate::models::TerminalMode;
use crate::runner::CommandModel;
use crate::runner::CommandSpec;
use crate::runner::LogEvent;
use crate::text::append;
use crate::text::chars_of;
use crate::text::contains;
use crate::text::ends_with;
use crate::text::has_infix;
use crate::text::join;
use crate::text::joined;
use crate::text::lowercase;
use crate::text::push_signed_decimal;
use crate::text::signed_decimal;
use crate::text::texts;
use crate::text::to_lowercase;
use crate::transactions::command_models;
use crate::transactions::TransactionPlan;

verus! {

/// Whether a line of output, in lowercase, reads like a question to the
/// operator.
pub open spec fn prompt_like(lower: Seq<char>) -> bool {
    has_infix(lower, "packages to cleanbuild"@) || has_infix(lower, "proceed with installation"@)
        || has_infix(lower, "proceed with transaction"@) || has_infix(lower, "enter a number"@)
        || has_infix(lower, "[y/n]"@) || has_infix(lower, "[y]"@) || "?"@.is_suffix_of(lower)
}

/// Whether a line of output, in lowercase, says that the package database is
/// locked.
pub open spec fn lock_contention(lower: Seq<char>) -> bool {
    has_infix(lower, "unable to lock database"@) || has_infix(lower, "could not lock database"@)
        || has_infix(lower, "/var/lib/pacman/db.lck"@)
}

fn holds(hay: &Vec<char>, needle: &str) -> (r: bool)
    ensures
        r == has_infix(hay@, needle@),
{
    let n = chars_of(needle);
    contains(hay.as_slice(), n.as_slice())
}

/// Whether `lower`, a line of output in lowercase, reads like a question to
/// the operator.
pub fn is_prompt_text(lower: &str) -> (r: bool)
    ensures
        r == prompt_like(lower@),
{
    let l = chars_of(lower);
    let q = chars_of("?");
    holds(&l, "packages to cleanbuild") || holds(&l, "proceed with installation") || holds(
        &l,
        "proceed with transaction",
    ) || holds(&l, "enter a number") || holds(&l, "[y/n]") || holds(&l, "[y]") || ends_with(
        l.as_slice(),
        q.as_slice(),
    )
}

/// Whether `lower`, a line of output in lowercase, says that the package
/// database is locked.
pub fn mentions_lock(lower: &str) -> (r: bool)
    ensures
        r == lock_contention(lower@),
{
    let l = chars_of(lower);
    holds(&l, "unable to lock database") || holds(&l, "could not lock database") || holds(
        &l,
        "/var/lib/pacman/db.lck",
    )
}

/// Whether a line of output reads like a question to the operator, whatever
/// its case.
pub fn should_prompt(line: &str) -> (r: bool)
    ensures
        r == prompt_like(lowercase(line@)),
{
    let lower = to_lowercase(line);
    is_prompt_text(lower.as_str())
}

/// The last `limit` of `lines`, or all of them when there are no more.
pub open spec fn retained(lines: Seq<Seq<char>>, limit: nat) -> Seq<Seq<char>> {
    if lines.len() > limit {
        lines.subrange(lines.len() - limit, lines.len() as int)
    } else {
        lines
    }
}

/// The lines of a transcript that are kept, oldest first.
#[derive(Debug)]
pub struct LogBuffer {
    lines: Vec<String>,
}

impl View for LogBuffer {
    type V = Seq<Seq<char>>;

    closed spec fn view(&self) -> Seq<Seq<char>> {
        texts(self.lines@)
    }
}

impl LogBuffer {
    /// A transcript without lines.
    pub fn new() -> (r: Self)
        ensures
            r@ == Seq::<Seq<char>>::empty(),
    {
        let r = LogBuffer { lines: Vec::new() };
        assert(r@ =~= Seq::<Seq<char>>::empty());
        r
    }

    /// Appends `line` and then drops the oldest lines until no more than
    /// `limit` are left.
    pub fn append_line(&mut self, line: &str, limit: usize)
        ensures
            final(self)@ == retained(old(self)@.push(line@), limit as nat),
    {
        let ghost before = self@;
        self.lines.push(String::from_str(line));
        let ghost all = before.push(line@);
        assert(texts(self.lines@) =~= all);
        let ghost mut dropped: int = 0;
        while self.lines.len() > limit
            invariant
                0 <= dropped <= all.len(),
                texts(self.lines@) == all.subrange(dropped, all.len() as int),
                dropped > 0 ==> all.len() - dropped >= limit,
            decreases self.lines.len(),
        {
            let ghost current = texts(self.lines@);
            self.lines.remove(0);
            proof {
                assert(texts(self.lines@) =~= current.subrange(1, current.len() as int));
                dropped = dropped + 1;
                assert(texts(self.lines@) =~= all.subrange(dropped, all.len() as int));
            }
        }
        proof {
            if dropped == 0 {
                assert(all.subrange(0, all.len() as int) =~= all);
            }
        }
    }

    /// Drops every line.
    pub fn clear(&mut self)
        ensures
            final(self)@ == Seq::<Seq<char>>::empty(),
    {
        self.lines.clear();
        assert(self@ =~= Seq::<Seq<char>>::empty());
    }

    /// The number of lines kept.
    pub fn len(&self) -> (n: usize)
        ensures
            n == self@.len(),
    {
        self.lines.len()
    }

    /// The transcript as one text, a newline between each two lines.
    pub fn text(&self) -> (r: String)
        ensures
            r@ == joined(self@, seq!['\n']),
    {
        proof {
            reveal_strlit("\n");
            assert("\n"@ =~= seq!['\n']);
        }
        join(&self.lines, "\n")
    }
}

/// No more than `limit` lines are kept, and those kept are the newest, in
/// the order they came.
pub proof fn lemma_retained(lines: Seq<Seq<char>>, limit: nat)
    ensures
        retained(lines, limit).len() <= limit || retained(lines, limit) == lines,
        retained(lines, limit).len() == if lines.len() > limit {
            limit
        } else {
            lines.len()
        },
        retained(lines, limit).is_suffix_of(lines),
{
    let kept = retained(lines, limit);
    if lines.len() > limit {
        assert(lines.subrange(lines.len() - kept.len(), lines.len() as int) =~= kept);
    } else {
        assert(lines.subrange(0, lines.len() as int) =~= lines);
    }
}


/// Why a plan stopped before its last command had succeeded.
#[derive(Debug, Clone, Copy, PartialEq, Eq, Structural)]
pub enum Failure {
    /// A command ended with this exit code, which is not 0.
    ExitCode(i32),
    /// A command could not be started.
    SpawnFailed,
    /// The events of a command ended without its exit code.
    Disconnected,
}

/// Where the executor stands.
#[derive(Debug, Clone, Copy, PartialEq, Eq, Structural)]
pub enum Phase {
    /// No plan has been accepted yet.
    Idle,
    /// A plan is being carried out; one of its commands is in flight.
    Running,
    /// Every command of the last plan succeeded.
    Completed,
    /// The last plan stopped early.
    Failed(Failure),
}

/// Why a plan was not accepted.
#[derive(Debug, Clone, Copy, PartialEq, Eq, Structural)]
pub enum Refusal {
    /// The plan holds no command.
    EmptyPlan,
    /// Another plan is being carried out.
    InProgress,
    /// The process table could not be read.
    ProbeFailed,
    /// A package manager or a front-end of one is running.
    PackageManagerActive,
    /// The lock file of the package database exists.
    LockFilePresent,
}

/// What was found before a plan starts.
#[derive(Debug, PartialEq, Eq)]
pub struct Preflight {
    /// The watched processes that are running, or why that is not known.
    pub active: Result<Vec<String>, String>,
    /// Whether the lock file of the package database exists.
    pub lock_file_present: bool,
}

/// What a [`Preflight`] holds, as plain values.
pub struct PreflightModel {
    pub active: Result<Seq<Seq<char>>, Seq<char>>,
    pub lock_file_present: bool,
}

impl View for Preflight {
    type V = PreflightModel;

    open spec fn view(&self) -> PreflightModel {
        PreflightModel {
            active: match self.active {
                Ok(names) => Ok(texts(names@)),
                Err(error) => Err(error@),
            },
            lock_file_present: self.lock_file_present,
        }
    }
}

/// One thing for the caller to do.
#[derive(Debug, PartialEq, Eq)]
pub enum Effect {
    /// Show a short notice that goes away by itself.
    Notify(String),
    /// Empty the transcript.
    ClearLog,
    /// Bring the transcript into view.
    ShowLog,
    /// Append a line to the transcript.
    Log(String),
    /// Start a command: with its output streamed back where `mode` is
    /// integrated, else in a window of the terminal `emulator`.
    Spawn { command: CommandSpec, mode: TerminalMode, emulator: TerminalEmulator },
    /// Ask the operator to answer the question that the line puts.
    OpenPrompt(String),
    /// Tell the operator that every command has succeeded.
    ShowCompleted,
}

/// What an [`Effect`] holds, as plain values.
pub enum EffectModel {
    Notify(Seq<char>),
    ClearLog,
    ShowLog,
    Log(Seq<char>),
    Spawn { command: CommandModel, mode: TerminalMode, emulator: TerminalEmulator },
    OpenPrompt(Seq<char>),
    ShowCompleted,
}

impl View for Effect {
    type V = EffectModel;

    open spec fn view(&self) -> EffectModel {
        match self {
            Effect::Notify(text) => EffectModel::Notify(text@),
            Effect::ClearLog => EffectModel::ClearLog,
            Effect::ShowLog => EffectModel::ShowLog,
            Effect::Log(text) => EffectModel::Log(text@),
            Effect::Spawn { command, mode, emulator } => EffectModel::Spawn {
                command: command@,
                mode: *mode,
                emulator: *emulator,
            },
            Effect::OpenPrompt(text) => EffectModel::OpenPrompt(text@),
            Effect::ShowCompleted => EffectModel::ShowCompleted,
        }
    }
}

/// The models of a sequence of effects.
pub open spec fn effect_models(v: Seq<Effect>) -> Seq<EffectModel> {
    Seq::new(v.len(), |i: int| v[i]@)
}

/// How many commands `effects` start.
pub open spec fn spawn_count(effects: Seq<EffectModel>) -> nat
    decreases effects.len(),
{
    if effects.len() == 0 {
        0
    } else {
        spawn_count(effects.drop_last()) + if effects.last() is Spawn {
            1nat
        } else {
            0nat
        }
    }
}

fn push_effect(effects: &mut Vec<Effect>, effect: Effect)
    ensures
        effect_models(final(effects)@) == effect_models(old(effects)@).push(effect@),
{
    let ghost before = effect_models(effects@);
    let ghost model = effect@;
    effects.push(effect);
    assert(effect_models(effects@) =~= before.push(model));
}

/// The line of the transcript that shows a command about to start.
pub open spec fn trace_line(command: CommandModel) -> Seq<char> {
    "$ "@ + command.display_line()
}

/// The line of the transcript that says a command opens in a terminal.
pub open spec fn terminal_line(emulator: TerminalEmulator) -> Seq<char> {
    "Launching command in external terminal ("@ + emulator.label_text() + ")"@
}

/// What starting `command` under `settings` asks of the caller: the trace
/// line, a line on the terminal where one is opened, and the start itself.
pub open spec fn dispatch_effects(command: CommandModel, settings: Settings) -> Seq<EffectModel> {
    seq![EffectModel::Log(trace_line(command))] + (if settings.terminal_mode
        == TerminalMode::External {
        seq![EffectModel::Log(terminal_line(settings.terminal_emulator))]
    } else {
        Seq::empty()
    }) + seq![
        EffectModel::Spawn {
            command,
            mode: settings.terminal_mode,
            emulator: settings.terminal_emulator,
        },
    ]
}

/// The notice and the line of the transcript for a refusal. An empty plan is
/// turned away without a word.
pub open spec fn refusal_effects(reason: Refusal, probe: PreflightModel) -> Seq<EffectModel> {
    match reason {
        Refusal::EmptyPlan => Seq::empty(),
        Refusal::InProgress => seq![
            EffectModel::Notify("A transaction is already running. Wait for it to finish."@),
            EffectModel::ShowLog,
            EffectModel::Log(
                "Refusing to start: another transaction is still running. It has to finish before a new one can begin."@,
            ),
        ],
        Refusal::ProbeFailed => seq![
            EffectModel::Notify("Failed to check package manager status"@),
            EffectModel::ShowLog,
            EffectModel::Log(
                "Failed to check active package managers: "@ + (match probe.active {
                    Err(error) => error,
                    Ok(_) => Seq::empty(),
                }),
            ),
        ],
        Refusal::PackageManagerActive => seq![
            EffectModel::Notify("Another package manager process is already running"@),
            EffectModel::ShowLog,
            EffectModel::Log(
                "Refusing to start: active package manager process detected: "@ + joined(
                    match probe.active {
                        Ok(names) => names,
                        Err(_) => Seq::empty(),
                    },
                    ", "@,
                ),
            ),
        ],
        Refusal::LockFilePresent => seq![
            EffectModel::Notify("Pacman lock file present"@),
            EffectModel::ShowLog,
            EffectModel::Log(
                "Refusing to start because /var/lib/pacman/db.lck exists. Use the Clear Lock button in Logs."@,
            ),
        ],
    }
}

/// The text that reports a command's exit code.
pub open spec fn failure_text(code: i32) -> Seq<char> {
    "Command failed ("@ + signed_decimal(code as int) + ")"@
}

/// The hint shown once when a command finds the database locked.
pub open spec fn lock_hint() -> Seq<char> {
    "Hint: pacman lock detected. If no package manager is running, remove it with: sudo rm -f /var/lib/pacman/db.lck"@
}

/// The state of an executor, as plain values.
pub struct ExecutorModel {
    pub phase: Phase,
    /// The commands of the plan accepted last, until they have all succeeded.
    pub commands: Seq<CommandModel>,
    /// How many commands of that plan have succeeded; while the plan runs,
    /// also the index of the command in flight.
    pub step: nat,
    /// Whether the command in flight takes input, so that prompts are relayed.
    pub streaming: bool,
    /// Whether a prompt is waiting for the operator's answer.
    pub prompt_open: bool,
    /// Whether the hint on a locked database was given for this plan.
    pub lock_hint_shown: bool,
}

impl ExecutorModel {
    /// The state before any plan.
    pub open spec fn idle() -> ExecutorModel {
        ExecutorModel {
            phase: Phase::Idle,
            commands: Seq::empty(),
            step: 0,
            streaming: false,
            prompt_open: false,
            lock_hint_shown: false,
        }
    }

    /// Whether the guard is held: a plan is being carried out.
    pub open spec fn in_progress(self) -> bool {
        self.phase == Phase::Running
    }

    /// Whether the state is one that the executor can reach.
    pub open spec fn wf(self) -> bool {
        match self.phase {
            Phase::Idle => self.step == 0 && self.commands.len() == 0,
            Phase::Running => self.step < self.commands.len(),
            Phase::Completed => self.commands.len() == 0,
            Phase::Failed(_) => self.step < self.commands.len(),
        }
    }

    /// How many commands of the plan accepted last were started, or tried.
    pub open spec fn dispatch_attempts(self) -> nat {
        match self.phase {
            Phase::Idle => 0,
            Phase::Running => self.step + 1,
            Phase::Completed => self.step,
            Phase::Failed(_) => self.step + 1,
        }
    }

    /// Why `plan` is turned away in this state with what `probe` found, if
    /// it is: an empty plan; a plan in progress; a process table that cannot
    /// be read; a package manager that is running; the lock file. The first
    /// of these that holds decides.
    pub open spec fn refusal(self, plan: Seq<CommandModel>, probe: PreflightModel) -> Option<
        Refusal,
    > {
        if plan.len() == 0 {
            Some(Refusal::EmptyPlan)
        } else if self.in_progress() {
            Some(Refusal::InProgress)
        } else {
            match probe.active {
                Err(_) => Some(Refusal::ProbeFailed),
                Ok(names) => if names.len() > 0 {
                    Some(Refusal::PackageManagerActive)
                } else if probe.lock_file_present {
                    Some(Refusal::LockFilePresent)
                } else {
                    None
                },
            }
        }
    }

    /// The state and the effects after `plan` was offered. A refusal leaves
    /// the state as it was. An accepted plan takes the guard and starts its
    /// first command.
    pub open spec fn started(
        self,
        plan: Seq<CommandModel>,
        probe: PreflightModel,
        settings: Settings,
    ) -> (ExecutorModel, Seq<EffectModel>) {
        match self.refusal(plan, probe) {
            Some(reason) => (self, refusal_effects(reason, probe)),
            None => (
                ExecutorModel {
                    phase: Phase::Running,
                    commands: plan,
                    step: 0,
                    streaming: settings.terminal_mode == TerminalMode::Integrated,
                    prompt_open: false,
                    lock_hint_shown: false,
                },
                seq![EffectModel::ClearLog, EffectModel::ShowLog] + dispatch_effects(
                    plan[0],
                    settings,
                ),
            ),
        }
    }

    /// Whether `line` opens a prompt: the command in flight takes input, the
    /// line reads like a question, and no prompt is open.
    pub open spec fn asks(self, line: Seq<char>) -> bool {
        self.streaming && prompt_like(lowercase(line)) && !self.prompt_open
    }

    /// Whether `line` brings the hint on a locked database: it speaks of the
    /// lock, and the hint was not given yet.
    pub open spec fn hints(self, line: Seq<char>) -> bool {
        !self.lock_hint_shown && lock_contention(lowercase(line))
    }

    /// The state and the effects after the command in flight printed `line`.
    pub open spec fn after_line(self, line: Seq<char>) -> (ExecutorModel, Seq<EffectModel>) {
        if !self.in_progress() {
            (self, Seq::empty())
        } else {
            (
                ExecutorModel {
                    prompt_open: self.prompt_open || self.asks(line),
                    lock_hint_shown: self.lock_hint_shown || self.hints(line),
                    ..self
                },
                (if self.asks(line) {
                    seq![EffectModel::OpenPrompt(line)]
                } else {
                    Seq::empty()
                }) + seq![EffectModel::Log(line)] + (if self.hints(line) {
                    seq![
                        EffectModel::Log(lock_hint()),
                        EffectModel::Notify("Pacman lock file detected"@),
                    ]
                } else {
                    Seq::empty()
                }),
            )
        }
    }

    /// The state and the effects after the command in flight ended with
    /// `code`. A code other than 0 ends the plan as failed. After 0 the next
    /// command starts, or the plan is completed when there is none.
    pub open spec fn after_finished(self, code: i32, settings: Settings) -> (
        ExecutorModel,
        Seq<EffectModel>,
    ) {
        if !self.in_progress() {
            (self, Seq::empty())
        } else if code != 0 {
            (
                ExecutorModel { phase: Phase::Failed(Failure::ExitCode(code)), ..self },
                seq![
                    EffectModel::Notify(failure_text(code)),
                    EffectModel::Log(failure_text(code)),
                ],
            )
        } else if self.step + 1 < self.commands.len() {
            (
                ExecutorModel {
                    step: self.step + 1,
                    streaming: settings.terminal_mode == TerminalMode::Integrated,
                    ..self
                },
                dispatch_effects(self.commands[self.step as int + 1], settings),
            )
        } else {
            (
                ExecutorModel {
                    phase: Phase::Completed,
                    commands: Seq::empty(),
                    step: self.commands.len(),
                    ..self
                },
                seq![
                    EffectModel::ShowCompleted,
                    EffectModel::Notify("Transactions complete"@),
                ],
            )
        }
    }

    /// The state and the effects after the command in flight could not be
    /// started, with `error` as the reason.
    pub open spec fn after_spawn_failure(self, error: Seq<char>) -> (
        ExecutorModel,
        Seq<EffectModel>,
    ) {
        if !self.in_progress() {
            (self, Seq::empty())
        } else {
            (
                ExecutorModel { phase: Phase::Failed(Failure::SpawnFailed), ..self },
                seq![
                    EffectModel::Notify("Failed to start command"@),
                    EffectModel::Log("Failed to start command: "@ + error),
                ],
            )
        }
    }

    /// The state and the effects after the events of the command in flight
    /// ended without an exit code.
    pub open spec fn after_disconnect(self) -> (ExecutorModel, Seq<EffectModel>) {
        if !self.in_progress() {
            (self, Seq::empty())
        } else {
            (
                ExecutorModel { phase: Phase::Failed(Failure::Disconnected), ..self },
                seq![
                    EffectModel::Notify("Command ended unexpectedly"@),
                    EffectModel::Log(
                        "The command stopped reporting before it gave an exit code; the transaction was abandoned."@,
                    ),
                ],
            )
        }
    }

    /// The state and the effects after `event` of the command in flight.
    pub open spec fn after_event(self, event: crate::runner::EventModel, settings: Settings) -> (
        ExecutorModel,
        Seq<EffectModel>,
    ) {
        match event {
            crate::runner::EventModel::Line(line) => self.after_line(line),
            crate::runner::EventModel::Finished(code) => self.after_finished(code, settings),
        }
    }

    /// The state after the operator answered or dismissed the prompt.
    pub open spec fn after_answer(self) -> ExecutorModel {
        ExecutorModel { prompt_open: false, ..self }
    }
}


/// What the operator did with a prompt.
#[derive(Debug, PartialEq, Eq)]
pub enum PromptResponse {
    Yes,
    No,
    All,
    Installed,
    NotInstalled,
    Abort,
    /// The operator typed an answer.
    Send(String),
    /// The operator closed the prompt without an answer.
    Cancel,
}

/// What a [`PromptResponse`] holds, as plain values.
pub enum ResponseModel {
    Yes,
    No,
    All,
    Installed,
    NotInstalled,
    Abort,
    Send(Seq<char>),
    Cancel,
}

impl View for PromptResponse {
    type V = ResponseModel;

    open spec fn view(&self) -> ResponseModel {
        match self {
            PromptResponse::Yes => ResponseModel::Yes,
            PromptResponse::No => ResponseModel::No,
            PromptResponse::All => ResponseModel::All,
            PromptResponse::Installed => ResponseModel::Installed,
            PromptResponse::NotInstalled => ResponseModel::NotInstalled,
            PromptResponse::Abort => ResponseModel::Abort,
            PromptResponse::Send(text) => ResponseModel::Send(text@),
            PromptResponse::Cancel => ResponseModel::Cancel,
        }
    }
}

/// What is written to the command for a response: a fixed word for each of
/// the ready answers, the typed text as it is, nothing for a cancelled prompt.
pub open spec fn reply_text(response: ResponseModel) -> Option<Seq<char>> {
    match response {
        ResponseModel::Yes => Some("y"@),
        ResponseModel::No => Some("n"@),
        ResponseModel::All => Some("a"@),
        ResponseModel::Installed => Some("i"@),
        ResponseModel::NotInstalled => Some("no"@),
        ResponseModel::Abort => Some("ab"@),
        ResponseModel::Send(text) => Some(text),
        ResponseModel::Cancel => None,
    }
}

/// Carries out plans, one at a time and one command at a time.
#[derive(Debug)]
pub struct TransactionExecutor {
    phase: Phase,
    commands: Vec<CommandSpec>,
    step: usize,
    streaming: bool,
    prompt_open: bool,
    lock_hint_shown: bool,
}

impl View for TransactionExecutor {
    type V = ExecutorModel;

    closed spec fn view(&self) -> ExecutorModel {
        ExecutorModel {
            phase: self.phase,
            commands: command_models(self.commands@),
            step: self.step as nat,
            streaming: self.streaming,
            prompt_open: self.prompt_open,
            lock_hint_shown: self.lock_hint_shown,
        }
    }
}

impl TransactionExecutor {
    /// An executor that has not seen a plan.
    pub fn new() -> (r: Self)
        ensures
            r@ == ExecutorModel::idle(),
            r@.wf(),
    {
        let r = TransactionExecutor {
            phase: Phase::Idle,
            commands: Vec::new(),
            step: 0,
            streaming: false,
            prompt_open: false,
            lock_hint_shown: false,
        };
        assert(r@.commands =~= Seq::<CommandModel>::empty());
        r
    }

    /// Where the executor stands.
    pub fn phase(&self) -> (r: Phase)
        ensures
            r == self@.phase,
    {
        self.phase
    }

    /// Whether the guard is held: a plan is being carried out.
    pub fn in_progress(&self) -> (r: bool)
        ensures
            r == self@.in_progress(),
    {
        match self.phase {
            Phase::Running => true,
            _ => false,
        }
    }

    /// How many commands of the plan accepted last have succeeded.
    pub fn completed_steps(&self) -> (r: usize)
        ensures
            r == self@.step,
    {
        self.step
    }

    /// How many commands of the plan accepted last were started, or tried;
    /// `None` if the number does not fit.
    pub fn dispatch_attempts(&self) -> (r: Option<usize>)
        ensures
            match r {
                Some(n) => n == self@.dispatch_attempts(),
                None => self@.dispatch_attempts() > usize::MAX,
            },
    {
        match self.phase {
            Phase::Idle => Some(0),
            Phase::Completed => Some(self.step),
            _ => self.step.checked_add(1),
        }
    }

    /// The commands of the plan accepted last; none once they have all
    /// succeeded.
    pub fn commands(&self) -> (r: &Vec<CommandSpec>)
        ensures
            command_models(r@) == self@.commands,
    {
        &self.commands
    }

    /// Whether a prompt is waiting for the operator's answer.
    pub fn prompt_open(&self) -> (r: bool)
        ensures
            r == self@.prompt_open,
    {
        self.prompt_open
    }

    fn dispatch(command: &CommandSpec, settings: &Settings, effects: &mut Vec<Effect>)
        ensures
            effect_models(final(effects)@) == effect_models(old(effects)@) + dispatch_effects(
                command@,
                *settings,
            ),
    {
        let ghost before = effect_models(effects@);
        let line = command.display_line();
        push_effect(effects, Effect::Log(append("$ ", line.as_str())));
        match settings.terminal_mode {
            TerminalMode::External => {
                let mut note = String::from_str("Launching command in external terminal (");
                note.append(settings.terminal_emulator.label());
                note.append(")");
                push_effect(effects, Effect::Log(note));
            },
            TerminalMode::Integrated => {},
        }
        push_effect(
            effects,
            Effect::Spawn {
                command: command.clone(),
                mode: settings.terminal_mode,
                emulator: settings.terminal_emulator,
            },
        );
        assert(effect_models(effects@) =~= before + dispatch_effects(command@, *settings));
    }

    fn refuse(reason: Refusal, probe: &Preflight) -> (r: Vec<Effect>)
        ensures
            effect_models(r@) == refusal_effects(reason, probe@),
    {
        let mut effects: Vec<Effect> = Vec::new();
        assert(effect_models(effects@) =~= Seq::<EffectModel>::empty());
        match reason {
            Refusal::EmptyPlan => {},
            Refusal::InProgress => {
                push_effect(
                    &mut effects,
                    Effect::Notify(
                        String::from_str("A transaction is already running. Wait for it to finish."),
                    ),
                );
                push_effect(&mut effects, Effect::ShowLog);
                push_effect(
                    &mut effects,
                    Effect::Log(
                        String::from_str(
                            "Refusing to start: another transaction is still running. It has to finish before a new one can begin.",
                        ),
                    ),
                );
            },
            Refusal::ProbeFailed => {
                let error = match &probe.active {
                    Err(error) => error.clone(),
                    Ok(_) => String::new(),
                };
                push_effect(
                    &mut effects,
                    Effect::Notify(String::from_str("Failed to check package manager status")),
                );
                push_effect(&mut effects, Effect::ShowLog);
                push_effect(
                    &mut effects,
                    Effect::Log(
                        append("Failed to check active package managers: ", error.as_str()),
                    ),
                );
            },
            Refusal::PackageManagerActive => {
                let names = match &probe.active {
                    Ok(names) => join(names, ", "),
                    Err(_) => String::new(),
                };
                push_effect(
                    &mut effects,
                    Effect::Notify(
                        String::from_str("Another package manager process is already running"),
                    ),
                );
                push_effect(&mut effects, Effect::ShowLog);
                push_effect(
                    &mut effects,
                    Effect::Log(
                        append(
                            "Refusing to start: active package manager process detected: ",
                            names.as_str(),
                        ),
                    ),
                );
            },
            Refusal::LockFilePresent => {
                push_effect(&mut effects, Effect::Notify(String::from_str("Pacman lock file present")));
                push_effect(&mut effects, Effect::ShowLog);
                push_effect(
                    &mut effects,
                    Effect::Log(
                        String::from_str(
                            "Refusing to start because /var/lib/pacman/db.lck exists. Use the Clear Lock button in Logs.",
                        ),
                    ),
                );
            },
        }
        assert(effect_models(effects@) =~= refusal_effects(reason, probe@));
        effects
    }

    /// Offers `plan` for execution, with what was found before the start.
    ///
    /// The plan is turned away, and the executor left as it was, when the
    /// plan is empty, when another plan is in progress, when the process
    /// table could not be read or shows a package manager running, or when
    /// the lock file exists. Else the executor takes the guard and starts
    /// the plan's first command.
    pub fn start(&mut self, plan: TransactionPlan, probe: &Preflight, settings: &Settings) -> (r: (
        Result<(), Refusal>,
        Vec<Effect>,
    ))
        ensures
            (final(self)@, effect_models(r.1@)) == old(self)@.started(plan@, probe@, *settings),
            r.0 == match old(self)@.refusal(plan@, probe@) {
                Some(reason) => Err::<(), Refusal>(reason),
                None => Ok::<(), Refusal>(()),
            },
            old(self)@.wf() ==> final(self)@.wf(),
    {
        let refusal = if plan.commands.len() == 0 {
            Some(Refusal::EmptyPlan)
        } else if self.in_progress() {
            Some(Refusal::InProgress)
        } else {
            match &probe.active {
                Err(_) => Some(Refusal::ProbeFailed),
                Ok(names) => if names.len() > 0 {
                    Some(Refusal::PackageManagerActive)
                } else if probe.lock_file_present {
                    Some(Refusal::LockFilePresent)
                } else {
                    None
                },
            }
        };
        assert(refusal == self@.refusal(plan@, probe@));
        match refusal {
            Some(reason) => (Err(reason), Self::refuse(reason, probe)),
            None => {
                let mut effects: Vec<Effect> = Vec::new();
                assert(effect_models(effects@) =~= Seq::<EffectModel>::empty());
                push_effect(&mut effects, Effect::ClearLog);
                push_effect(&mut effects, Effect::ShowLog);
                Self::dispatch(&plan.commands[0], settings, &mut effects);
                self.phase = Phase::Running;
                self.commands = plan.commands;
                self.step = 0;
                self.streaming = match settings.terminal_mode {
                    TerminalMode::Integrated => true,
                    TerminalMode::External => false,
                };
                self.prompt_open = false;
                self.lock_hint_shown = false;
                assert(effect_models(effects@) =~= seq![EffectModel::ClearLog, EffectModel::ShowLog]
                    + dispatch_effects(plan@[0], *settings));
                (Ok(()), effects)
            },
        }
    }

    fn handle_line(&mut self, line: String) -> (effects: Vec<Effect>)
        ensures
            (final(self)@, effect_models(effects@)) == old(self)@.after_line(line@),
    {
        let mut effects: Vec<Effect> = Vec::new();
        assert(effect_models(effects@) =~= Seq::<EffectModel>::empty());
        if !self.in_progress() {
            return effects;
        }
        let lower = to_lowercase(line.as_str());
        let asks = self.streaming && !self.prompt_open && is_prompt_text(lower.as_str());
        let hints = !self.lock_hint_shown && mentions_lock(lower.as_str());
        assert(asks == self@.asks(line@));
        assert(hints == self@.hints(line@));
        if asks {
            self.prompt_open = true;
            push_effect(&mut effects, Effect::OpenPrompt(line.clone()));
        }
        push_effect(&mut effects, Effect::Log(line));
        if hints {
            self.lock_hint_shown = true;
            push_effect(
                &mut effects,
                Effect::Log(
                    String::from_str(
                        "Hint: pacman lock detected. If no package manager is running, remove it with: sudo rm -f /var/lib/pacman/db.lck",
                    ),
                ),
            );
            push_effect(&mut effects, Effect::Notify(String::from_str("Pacman lock file detected")));
        }
        assert(effect_models(effects@) =~= old(self)@.after_line(line@).1);
        effects
    }

    fn handle_finished(&mut self, code: i32, settings: &Settings) -> (effects: Vec<Effect>)
        ensures
            (final(self)@, effect_models(effects@)) == old(self)@.after_finished(code, *settings),
    {
        let mut effects: Vec<Effect> = Vec::new();
        assert(effect_models(effects@) =~= Seq::<EffectModel>::empty());
        if !self.in_progress() {
            return effects;
        }
        if code != 0 {
            self.phase = Phase::Failed(Failure::ExitCode(code));
            let mut text = String::from_str("Command failed (");
            push_signed_decimal(&mut text, code);
            text.append(")");
            push_effect(&mut effects, Effect::Notify(text.clone()));
            push_effect(&mut effects, Effect::Log(text));
            assert(effect_models(effects@) =~= old(self)@.after_finished(code, *settings).1);
            return effects;
        }
        let count = self.commands.len();
        if self.step < count && count - self.step > 1 {
            self.step = self.step + 1;
            self.streaming = match settings.terminal_mode {
                TerminalMode::Integrated => true,
                TerminalMode::External => false,
            };
            Self::dispatch(&self.commands[self.step], settings, &mut effects);
            assert(effect_models(effects@) =~= old(self)@.after_finished(code, *settings).1);
            effects
        } else {
            self.phase = Phase::Completed;
            self.step = count;
            self.commands = Vec::new();
            push_effect(&mut effects, Effect::ShowCompleted);
            push_effect(&mut effects, Effect::Notify(String::from_str("Transactions complete")));
            assert(self@.commands =~= Seq::<CommandModel>::empty());
            assert(effect_models(effects@) =~= old(self)@.after_finished(code, *settings).1);
            effects
        }
    }

    /// Takes one event of the command in flight.
    ///
    /// A line goes to the transcript; it opens a prompt when the command
    /// takes input, the line reads like a question and no prompt is open;
    /// and the first line that speaks of the database lock brings a hint.
    /// The end of the command with exit code 0 starts the next command, or
    /// completes the plan after the last one, which releases the guard and
    /// drops the plan's commands. Any other exit code fails the plan, keeps
    /// its commands and releases the guard. While no plan is in progress an
    /// event changes nothing.
    pub fn handle_event(&mut self, event: LogEvent, settings: &Settings) -> (effects: Vec<Effect>)
        ensures
            (final(self)@, effect_models(effects@)) == old(self)@.after_event(event@, *settings),
            old(self)@.wf() ==> final(self)@.wf(),
    {
        match event {
            LogEvent::Line(line) => self.handle_line(line),
            LogEvent::Finished(code) => self.handle_finished(code, settings),
        }
    }

    /// Takes the news that the command in flight could not be started: the
    /// plan fails and the guard is released.
    pub fn spawn_failed(&mut self, error: &str) -> (effects: Vec<Effect>)
        ensures
            (final(self)@, effect_models(effects@)) == old(self)@.after_spawn_failure(error@),
            old(self)@.wf() ==> final(self)@.wf(),
    {
        let mut effects: Vec<Effect> = Vec::new();
        assert(effect_models(effects@) =~= Seq::<EffectModel>::empty());
        if !self.in_progress() {
            return effects;
        }
        self.phase = Phase::Failed(Failure::SpawnFailed);
        push_effect(&mut effects, Effect::Notify(String::from_str("Failed to start command")));
        push_effect(&mut effects, Effect::Log(append("Failed to start command: ", error)));
        assert(effect_models(effects@) =~= old(self)@.after_spawn_failure(error@).1);
        effects
    }

    /// Takes the news that the events of the command in flight have ended
    /// without an exit code: the plan fails and the guard is released.
    pub fn disconnected(&mut self) -> (effects: Vec<Effect>)
        ensures
            (final(self)@, effect_models(effects@)) == old(self)@.after_disconnect(),
            old(self)@.wf() ==> final(self)@.wf(),
    {
        let mut effects: Vec<Effect> = Vec::new();
        assert(effect_models(effects@) =~= Seq::<EffectModel>::empty());
        if !self.in_progress() {
            return effects;
        }
        self.phase = Phase::Failed(Failure::Disconnected);
        push_effect(&mut effects, Effect::Notify(String::from_str("Command ended unexpectedly")));
        push_effect(
            &mut effects,
            Effect::Log(
                String::from_str(
                    "The command stopped reporting before it gave an exit code; the transaction was abandoned.",
                ),
            ),
        );
        assert(effect_models(effects@) =~= old(self)@.after_disconnect().1);
        effects
    }

    /// Takes the operator's response to the open prompt and returns what is
    /// to be written to the command, if anything. The prompt counts as
    /// closed from then on.
    pub fn prompt_answered(&mut self, response: PromptResponse) -> (reply: Option<String>)
        ensures
            final(self)@ == old(self)@.after_answer(),
            crate::models::option_text(reply) == reply_text(response@),
            old(self)@.wf() ==> final(self)@.wf(),
    {
        self.prompt_open = false;
        match response {
            PromptResponse::Yes => Some(String::from_str("y")),
            PromptResponse::No => Some(String::from_str("n")),
            PromptResponse::All => Some(String::from_str("a")),
            PromptResponse::Installed => Some(String::from_str("i")),
            PromptResponse::NotInstalled => Some(String::from_str("no")),
            PromptResponse::Abort => Some(String::from_str("ab")),
            PromptResponse::Send(text) => Some(text),
            PromptResponse::Cancel => None,
        }
    }
}


/// Whether `effects` open a prompt.
pub open spec fn opens_prompt(effects: Seq<EffectModel>) -> bool {
    exists|i: int| 0 <= i < effects.len() && #[trigger] effects[i] is OpenPrompt
}

proof fn lemma_spawn_count_push(effects: Seq<EffectModel>, effect: EffectModel)
    ensures
        spawn_count(effects.push(effect)) == spawn_count(effects) + if effect is Spawn {
            1nat
        } else {
            0nat
        },
{
    assert(effects.push(effect).drop_last() =~= effects);
}

proof fn lemma_dispatch_spawns_once(command: CommandModel, settings: Settings)
    ensures
        spawn_count(dispatch_effects(command, settings)) == 1,
        spawn_count(
            seq![EffectModel::ClearLog, EffectModel::ShowLog] + dispatch_effects(command, settings),
        ) == 1,
        dispatch_effects(command, settings).last() == (EffectModel::Spawn {
            command,
            mode: settings.terminal_mode,
            emulator: settings.terminal_emulator,
        }),
{
    let empty = Seq::<EffectModel>::empty();
    let trace = EffectModel::Log(trace_line(command));
    let note = EffectModel::Log(terminal_line(settings.terminal_emulator));
    let spawn = EffectModel::Spawn {
        command,
        mode: settings.terminal_mode,
        emulator: settings.terminal_emulator,
    };
    let clear = EffectModel::ClearLog;
    let show = EffectModel::ShowLog;
    assert(spawn_count(empty) == 0);
    lemma_spawn_count_push(empty, trace);
    lemma_spawn_count_push(empty, clear);
    lemma_spawn_count_push(empty.push(clear), show);
    lemma_spawn_count_push(empty.push(clear).push(show), trace);
    if settings.terminal_mode == TerminalMode::External {
        lemma_spawn_count_push(empty.push(trace), note);
        lemma_spawn_count_push(empty.push(trace).push(note), spawn);
        assert(dispatch_effects(command, settings) =~= empty.push(trace).push(note).push(spawn));
        lemma_spawn_count_push(empty.push(clear).push(show).push(trace), note);
        lemma_spawn_count_push(empty.push(clear).push(show).push(trace).push(note), spawn);
        assert(seq![clear, show] + dispatch_effects(command, settings) =~= empty.push(clear).push(
            show,
        ).push(trace).push(note).push(spawn));
    } else {
        lemma_spawn_count_push(empty.push(trace), spawn);
        assert(dispatch_effects(command, settings) =~= empty.push(trace).push(spawn));
        lemma_spawn_count_push(empty.push(clear).push(show).push(trace), spawn);
        assert(seq![clear, show] + dispatch_effects(command, settings) =~= empty.push(clear).push(
            show,
        ).push(trace).push(spawn));
    }
}

proof fn lemma_no_spawn(effects: Seq<EffectModel>)
    requires
        forall|i: int| 0 <= i < effects.len() ==> !(#[trigger] effects[i] is Spawn),
    ensures
        spawn_count(effects) == 0,
    decreases effects.len(),
{
    if effects.len() > 0 {
        assert forall|i: int| 0 <= i < effects.drop_last().len() implies !(
        #[trigger] effects.drop_last()[i] is Spawn) by {
            assert(effects.drop_last()[i] == effects[i]);
        }
        lemma_no_spawn(effects.drop_last());
    }
}

/// A plan that is turned away changes nothing and starts nothing: the
/// executor stands where it stood, the guard is as it was, and no command is
/// started.
pub proof fn lemma_refusal_changes_nothing(
    state: ExecutorModel,
    plan: Seq<CommandModel>,
    probe: PreflightModel,
    settings: Settings,
)
    requires
        state.refusal(plan, probe) is Some,
    ensures
        state.started(plan, probe, settings).0 == state,
        spawn_count(state.started(plan, probe, settings).1) == 0,
{
    lemma_no_spawn(state.started(plan, probe, settings).1);
}

/// While a plan is in progress every other plan is turned away, and the
/// plan in progress keeps its commands and its count of finished steps.
pub proof fn lemma_mutual_exclusion(
    state: ExecutorModel,
    plan: Seq<CommandModel>,
    probe: PreflightModel,
    settings: Settings,
)
    requires
        state.in_progress(),
    ensures
        state.refusal(plan, probe) is Some,
        plan.len() > 0 ==> state.refusal(plan, probe) == Some(Refusal::InProgress),
        state.started(plan, probe, settings).0 == state,
        state.started(plan, probe, settings).0.step == state.step,
        spawn_count(state.started(plan, probe, settings).1) == 0,
{
    lemma_refusal_changes_nothing(state, plan, probe, settings);
}

/// A plan is accepted exactly when it holds a command, no plan is in
/// progress, the process table was read and shows none of the watched
/// processes, and there is no lock file. An accepted plan takes the guard,
/// has its first command started and no other.
pub proof fn lemma_acceptance(
    state: ExecutorModel,
    plan: Seq<CommandModel>,
    probe: PreflightModel,
    settings: Settings,
)
    ensures
        state.refusal(plan, probe) is None <==> {
            &&& plan.len() > 0
            &&& !state.in_progress()
            &&& probe.active matches Ok(names) && names.len() == 0
            &&& !probe.lock_file_present
        },
        state.refusal(plan, probe) is None ==> {
            let after = state.started(plan, probe, settings);
            &&& after.0.in_progress()
            &&& after.0.wf()
            &&& after.0.commands == plan
            &&& after.0.step == 0
            &&& after.0.dispatch_attempts() == 1
            &&& spawn_count(after.1) == 1
            &&& after.1.last() == (EffectModel::Spawn {
                command: plan[0],
                mode: settings.terminal_mode,
                emulator: settings.terminal_emulator,
            })
        },
{
    if state.refusal(plan, probe) is None {
        lemma_dispatch_spawns_once(plan[0], settings);
    }
}

/// Commands run strictly one after the other: an event starts at most one
/// command, and only the end of the command in flight with exit code 0
/// starts one, namely the next of the plan.
pub proof fn lemma_one_at_a_time(
    state: ExecutorModel,
    event: crate::runner::EventModel,
    settings: Settings,
)
    ensures
        ({
            let after = state.after_event(event, settings);
            let advances = state.in_progress() && event == crate::runner::EventModel::Finished(0)
                && state.step + 1 < state.commands.len();
            &&& spawn_count(after.1) == if advances {
                1nat
            } else {
                0nat
            }
            &&& advances ==> after.0.step == state.step + 1 && after.0.commands == state.commands
                && after.1.last() == (EffectModel::Spawn {
                command: state.commands[state.step as int + 1],
                mode: settings.terminal_mode,
                emulator: settings.terminal_emulator,
            })
            &&& !advances ==> after.0.step == state.step || after.0.phase == Phase::Completed
        }),
{
    let after = state.after_event(event, settings);
    let advances = state.in_progress() && event == crate::runner::EventModel::Finished(0)
        && state.step + 1 < state.commands.len();
    if advances {
        lemma_dispatch_spawns_once(state.commands[state.step as int + 1], settings);
    } else {
        lemma_no_spawn(after.1);
    }
}

/// The guard is held exactly while a plan runs. Whatever happens to a
/// command leaves the state well formed; the guard is still held afterwards
/// only if it was held before and the event was a line or the success of a
/// command that is not the plan's last. Every other outcome releases it: an
/// exit code other than 0, a command that cannot be started, events that end
/// early, and the success of the last command.
pub proof fn lemma_guard_released(
    state: ExecutorModel,
    event: crate::runner::EventModel,
    error: Seq<char>,
    settings: Settings,
)
    requires
        state.wf(),
    ensures
        state.after_event(event, settings).0.wf(),
        state.after_spawn_failure(error).0.wf(),
        state.after_disconnect().0.wf(),
        !state.after_spawn_failure(error).0.in_progress(),
        !state.after_disconnect().0.in_progress(),
        state.after_event(event, settings).0.in_progress() <==> state.in_progress() && (match event {
            crate::runner::EventModel::Line(_) => true,
            crate::runner::EventModel::Finished(code) => code == 0 && state.step + 1
                < state.commands.len(),
        }),
        state.in_progress() ==> match event {
            crate::runner::EventModel::Line(_) => true,
            crate::runner::EventModel::Finished(code) => if code != 0 {
                let after = state.after_event(event, settings).0;
                after.phase == Phase::Failed(Failure::ExitCode(code)) && after.commands
                    == state.commands && after.step == state.step && after.dispatch_attempts()
                    == state.dispatch_attempts()
            } else if state.step + 1 == state.commands.len() {
                let after = state.after_event(event, settings).0;
                after.phase == Phase::Completed && after.commands.len() == 0
                    && after.dispatch_attempts() == state.dispatch_attempts()
            } else {
                state.after_event(event, settings).0.dispatch_attempts() == state.dispatch_attempts()
                    + 1
            },
        },
{
}

/// One question, one prompt. While a prompt is open no line opens another;
/// a line that opens one leaves it open, so that the next line opens none;
/// and a line opens one only for a command that takes input.
pub proof fn lemma_single_prompt(state: ExecutorModel, first: Seq<char>, second: Seq<char>)
    ensures
        state.prompt_open ==> !opens_prompt(state.after_line(first).1),
        !state.streaming ==> !opens_prompt(state.after_line(first).1),
        opens_prompt(state.after_line(first).1) <==> state.in_progress() && state.asks(first),
        opens_prompt(state.after_line(first).1) ==> state.after_line(first).0.prompt_open
            && !opens_prompt(state.after_line(first).0.after_line(second).1),
        state.after_line(first).0.prompt_open ==> state.after_line(first).0.after_answer()
            == (ExecutorModel { prompt_open: false, ..state.after_line(first).0 }),
{
    let after = state.after_line(first);
    if state.in_progress() && state.asks(first) {
        assert(after.1[0] is OpenPrompt);
    }
}

} // verus!
