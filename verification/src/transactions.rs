//! From queued actions to the commands that carry them out.

use vstd::prelude::*;
use vstd::string::*;

use crate::helper::FileProbeModel;
use crate::helper::HelperErrorModel;
use crate::helper::is_flag;
use crate::helper::Operation;
use crate::helper::operation_of;
use crate::helper::request;
use crate::helper::RequestModel;
use crate::helper::safe_package_name;
use crate::helper::scan;
use crate::helper::ScanMode;
use crate::helper::validation;
use crate::helper::ValidationError;
use crate::models::ActionKind;
use crate::models::ActionModel;
use crate::models::PackageSource;
use crate::models::Settings;
use crate::models::TransactionAction;
use crate::models::TransactionQueue;
use crate::runner::CommandModel;
use crate::runner::CommandSpec;
use crate::runner::forced_env;
use crate::text::same_text;
use crate::text::texts;

verus! {

/// The commands that carry out a queue, in the queue's order.
#[derive(Debug, PartialEq, Eq)]
pub struct TransactionPlan {
    pub commands: Vec<CommandSpec>,
}

/// The models of a sequence of commands.
pub open spec fn command_models(v: Seq<CommandSpec>) -> Seq<CommandModel> {
    Seq::new(v.len(), |i: int| v[i]@)
}

impl View for TransactionPlan {
    type V = Seq<CommandModel>;

    open spec fn view(&self) -> Seq<CommandModel> {
        command_models(self.commands@)
    }
}

impl Clone for TransactionPlan {
    fn clone(&self) -> (r: Self)
        ensures
            r@ == self@,
    {
        let mut commands: Vec<CommandSpec> = Vec::new();
        let mut i: usize = 0;
        while i < self.commands.len()
            invariant
                i <= self.commands.len(),
                commands@.len() == i,
                forall|k: int| 0 <= k < i ==> commands@[k]@ == self.commands@[k]@,
            decreases self.commands.len() - i,
        {
            commands.push(self.commands[i].clone());
            i += 1;
        }
        let r = TransactionPlan { commands };
        assert(r@ =~= self@);
        r
    }
}

/// Where the validating helper is installed when none lies beside the
/// running program.
pub open spec fn installed_helper() -> Seq<char> {
    "/usr/bin/aurora-helper"@
}

/// The name of the validating helper's program file.
pub fn helper_file_name() -> (r: &'static str)
    ensures
        r@ == "aurora-helper"@,
{
    "aurora-helper"
}

/// The path of the validating helper: the one beside the running program,
/// handed in as `sibling` when it exists, else the installed one.
pub fn helper_path(sibling: Option<String>) -> (r: String)
    ensures
        r@ == match sibling {
            Some(path) => path@,
            None => installed_helper(),
        },
{
    match sibling {
        Some(path) => path,
        None => String::from_str("/usr/bin/aurora-helper"),
    }
}

/// The flag that makes the repository manager and the community helper skip
/// their confirmation, when the user has opted in.
pub open spec fn noconfirm_words(settings: Settings) -> Seq<Seq<char>> {
    if settings.allow_noconfirm {
        seq!["--noconfirm"@]
    } else {
        Seq::empty()
    }
}

/// The flag that makes the sandboxed-app manager skip its confirmation, when
/// the user has opted in.
pub open spec fn yes_words(settings: Settings) -> Seq<Seq<char>> {
    if settings.allow_noconfirm {
        seq!["-y"@]
    } else {
        Seq::empty()
    }
}

/// The operation flag of the repository manager and the community helper
/// for a kind of action.
pub open spec fn operation_word(kind: ActionKind) -> Seq<char> {
    match kind {
        ActionKind::Install => "-S"@,
        ActionKind::Remove => "-Rns"@,
        ActionKind::Upgrade => "-Syu"@,
    }
}

/// The package argument: none for a full upgrade.
pub open spec fn target_words(kind: ActionKind, name: Seq<char>) -> Seq<Seq<char>> {
    match kind {
        ActionKind::Upgrade => Seq::empty(),
        _ => seq![name],
    }
}

/// What tells the community helper to gain root through the
/// privilege-escalation prompt and the validating helper.
pub open spec fn escalation_words(helper: Seq<char>) -> Seq<Seq<char>> {
    seq!["--sudo"@, "pkexec"@, "--sudoflags"@, helper + " pacman"@]
}

/// The arguments of the community helper for one action.
pub open spec fn aur_words(
    kind: ActionKind,
    name: Seq<char>,
    settings: Settings,
    helper: Seq<char>,
) -> Seq<Seq<char>> {
    seq![operation_word(kind)] + noconfirm_words(settings) + target_words(kind, name)
        + escalation_words(helper)
}

/// The arguments of the privilege-escalation prompt for one action on the
/// system repository: the validating helper, its target, and what the
/// repository manager is to do.
pub open spec fn repo_words(
    kind: ActionKind,
    name: Seq<char>,
    settings: Settings,
    helper: Seq<char>,
) -> Seq<Seq<char>> {
    seq![helper, "pacman"@, operation_word(kind)] + noconfirm_words(settings) + target_words(
        kind,
        name,
    )
}

/// Whether `name` stands for every sandboxed app rather than for one.
pub open spec fn names_everything(name: Seq<char>) -> bool {
    name == "flatpak"@ || name == "all"@ || name.len() == 0
}

/// The arguments of the sandboxed-app manager for one action.
pub open spec fn flatpak_words(action: ActionModel, settings: Settings) -> Seq<Seq<char>> {
    match action.kind {
        ActionKind::Install => seq!["install"@] + yes_words(settings) + (match action.origin {
            Some(origin) => if origin.len() > 0 {
                seq![origin]
            } else {
                Seq::empty()
            },
            None => Seq::empty(),
        }) + seq![action.name],
        ActionKind::Remove => seq!["uninstall"@] + yes_words(settings) + seq![action.name],
        ActionKind::Upgrade => seq!["update"@] + yes_words(settings) + (if names_everything(
            action.name,
        ) {
            Seq::empty()
        } else {
            seq![action.name]
        }),
    }
}

/// The command that carries out `action` under `settings`, with `helper` as
/// the path of the validating helper.
pub open spec fn planned_command(action: ActionModel, settings: Settings, helper: Seq<char>) -> Option<
    CommandModel,
> {
    match action.source {
        PackageSource::Repo => Some(
            CommandModel {
                program: "pkexec"@,
                args: repo_words(action.kind, action.name, settings, helper),
                env: forced_env(),
            },
        ),
        PackageSource::Aur => Some(
            CommandModel {
                program: settings.aur_helper.program(),
                args: aur_words(action.kind, action.name, settings, helper),
                env: forced_env(),
            },
        ),
        PackageSource::Flatpak => Some(
            CommandModel {
                program: "flatpak"@,
                args: flatpak_words(action, settings),
                env: forced_env(),
            },
        ),
    }
}

/// The commands for the actions of `queue` that have one, in the queue's
/// order.
pub open spec fn planned(queue: Seq<ActionModel>, settings: Settings, helper: Seq<char>) -> Seq<
    CommandModel,
>
    decreases queue.len(),
{
    if queue.len() == 0 {
        Seq::empty()
    } else {
        let before = planned(queue.drop_last(), settings, helper);
        match planned_command(queue.last(), settings, helper) {
            Some(command) => before.push(command),
            None => before,
        }
    }
}

fn operation_flag(kind: ActionKind) -> (r: &'static str)
    ensures
        r@ == operation_word(kind),
{
    match kind {
        ActionKind::Install => "-S",
        ActionKind::Remove => "-Rns",
        ActionKind::Upgrade => "-Syu",
    }
}

fn aur_command(kind: ActionKind, pkg: &str, settings: &Settings, helper_path: &str) -> (r:
    CommandSpec)
    ensures
        r@ == (CommandModel {
            program: settings.aur_helper.program(),
            args: aur_words(kind, pkg@, *settings, helper_path@),
            env: forced_env(),
        }),
{
    let mut args: Vec<String> = Vec::new();
    args.push(String::from_str(operation_flag(kind)));
    if settings.allow_noconfirm {
        args.push(String::from_str("--noconfirm"));
    }
    match kind {
        ActionKind::Upgrade => {},
        _ => {
            args.push(String::from_str(pkg));
        },
    }
    args.push(String::from_str("--sudo"));
    args.push(String::from_str("pkexec"));
    args.push(String::from_str("--sudoflags"));
    let mut flags = String::from_str(helper_path);
    flags.append(" pacman");
    args.push(flags);
    assert(texts(args@) =~= aur_words(kind, pkg@, *settings, helper_path@));
    CommandSpec::new(settings.aur_helper.as_str(), args)
}

/// The command that carries out one queued action. An action on the system
/// repository goes through the privilege-escalation prompt to the validating
/// helper; the community helper and the sandboxed-app manager are started
/// directly.
pub fn command_for_action(action: &TransactionAction, settings: &Settings, helper: &str) -> (r:
    Option<CommandSpec>)
    ensures
        r is Some,
        planned_command(action@, *settings, helper@) == Some(r->0@),
{
    match action.source {
        PackageSource::Repo => {
            let mut args: Vec<String> = Vec::new();
            args.push(String::from_str(helper));
            args.push(String::from_str("pacman"));
            args.push(String::from_str(operation_flag(action.kind)));
            if settings.allow_noconfirm {
                args.push(String::from_str("--noconfirm"));
            }
            match action.kind {
                ActionKind::Upgrade => {},
                _ => {
                    args.push(action.name.clone());
                },
            }
            assert(texts(args@) =~= repo_words(action.kind, action.name@, *settings, helper@));
            Some(CommandSpec::new("pkexec", args))
        },
        PackageSource::Aur => Some(
            aur_command(action.kind, action.name.as_str(), settings, helper),
        ),
        PackageSource::Flatpak => {
            let mut args: Vec<String> = Vec::new();
            match action.kind {
                ActionKind::Install => {
                    args.push(String::from_str("install"));
                    if settings.allow_noconfirm {
                        args.push(String::from_str("-y"));
                    }
                    match &action.origin {
                        Some(origin) => {
                            if !origin.as_str().is_empty() {
                                args.push(origin.clone());
                            }
                        },
                        None => {},
                    }
                    args.push(action.name.clone());
                },
                ActionKind::Remove => {
                    args.push(String::from_str("uninstall"));
                    if settings.allow_noconfirm {
                        args.push(String::from_str("-y"));
                    }
                    args.push(action.name.clone());
                },
                ActionKind::Upgrade => {
                    args.push(String::from_str("update"));
                    if settings.allow_noconfirm {
                        args.push(String::from_str("-y"));
                    }
                    let name = action.name.as_str();
                    if !same_text(name, "flatpak") && !same_text(name, "all") && !name.is_empty() {
                        args.push(action.name.clone());
                    }
                },
            }
            assert(texts(args@) =~= flatpak_words(action@, *settings));
            Some(CommandSpec::new("flatpak", args))
        },
    }
}

/// The plan for a queue: one command for each action that has one, in the
/// queue's order.
pub fn plan_transactions(queue: &TransactionQueue, settings: &Settings, helper: &str) -> (r:
    TransactionPlan)
    ensures
        r@ == planned(queue@, *settings, helper@),
{
    let mut commands: Vec<CommandSpec> = Vec::new();
    let mut i: usize = 0;
    assert(queue@.take(0) =~= Seq::<ActionModel>::empty());
    assert(command_models(commands@) =~= Seq::<CommandModel>::empty());
    while i < queue.actions.len()
        invariant
            i <= queue.actions.len(),
            command_models(commands@) == planned(queue@.take(i as int), *settings, helper@),
        decreases queue.actions.len() - i,
    {
        proof {
            assert(queue@.take(i + 1).drop_last() =~= queue@.take(i as int));
            assert(queue@.take(i + 1).last() == queue.actions@[i as int]@);
        }
        let ghost before = command_models(commands@);
        match command_for_action(&queue.actions[i], settings, helper) {
            Some(command) => {
                let ghost model = command@;
                commands.push(command);
                assert(command_models(commands@) =~= before.push(model));
            },
            None => {},
        }
        i += 1;
    }
    assert(queue@.take(i as int) =~= queue@);
    TransactionPlan { commands }
}

/// A plan holds exactly one command for each queued action, at the action's
/// own place: none is dropped, none added, none moved.
pub proof fn lemma_plan_keeps_order(queue: Seq<ActionModel>, settings: Settings, helper: Seq<char>)
    ensures
        planned(queue, settings, helper).len() == queue.len(),
        forall|i: int|
            0 <= i < queue.len() ==> planned_command(queue[i], settings, helper) == Some(
                #[trigger] planned(queue, settings, helper)[i],
            ),
    decreases queue.len(),
{
    if queue.len() > 0 {
        lemma_plan_keeps_order(queue.drop_last(), settings, helper);
        assert forall|i: int| 0 <= i < queue.len() implies planned_command(
            queue[i],
            settings,
            helper,
        ) == Some(#[trigger] planned(queue, settings, helper)[i]) by {
            if i < queue.len() - 1 {
                assert(queue.drop_last()[i] == queue[i]);
            }
        }
    }
}

/// The plan of the first actions of a queue is the beginning of the plan of
/// the whole queue: what is queued later changes nothing before it.
pub proof fn lemma_plan_of_prefix(
    queue: Seq<ActionModel>,
    n: int,
    settings: Settings,
    helper: Seq<char>,
)
    requires
        0 <= n <= queue.len(),
    ensures
        planned(queue.take(n), settings, helper).is_prefix_of(planned(queue, settings, helper)),
    decreases queue.len() - n,
{
    if n == queue.len() {
        assert(queue.take(n) =~= queue);
    } else {
        lemma_plan_of_prefix(queue, n + 1, settings, helper);
        assert(queue.take(n + 1).drop_last() =~= queue.take(n));
    }
}


/// What is planned for the system repository passes the one gate to root.
/// The privilege-escalation prompt starts the validating helper with the
/// repository manager as its target; the helper takes from its command line
/// the very vector that was planned; and it accepts that vector exactly when
/// the action is the upgrade of the system or names a package by a safe
/// name that is no flag.
pub proof fn lemma_planned_for_repository(
    action: ActionModel,
    settings: Settings,
    helper: Seq<char>,
    files: Seq<FileProbeModel>,
)
    requires
        action.source == PackageSource::Repo,
    ensures
        ({
            let command = planned_command(action, settings, helper)->0;
            let vector = command.args.skip(2);
            &&& planned_command(action, settings, helper) is Some
            &&& command.program == "pkexec"@
            &&& command.args.len() >= 3
            &&& command.args[0] == helper
            &&& request(0, command.args.skip(1)) == Ok::<RequestModel, HelperErrorModel>(
                RequestModel::Pacman(vector),
            )
            &&& validation(vector, files) is Ok <==> action.kind == ActionKind::Upgrade || (
            safe_package_name(action.name) && !is_flag(action.name))
        }),
{
    reveal_strlit("pacman");
    reveal_strlit("clear-pacman-lock");
    reveal_strlit("-S");
    reveal_strlit("-Syu");
    reveal_strlit("-Rns");
    reveal_strlit("-U");
    reveal_strlit("--noconfirm");
    let command = planned_command(action, settings, helper)->0;
    let vector = command.args.skip(2);
    let behind = command.args.skip(1);
    let word = operation_word(action.kind);
    let flags = noconfirm_words(settings);
    let targets = target_words(action.kind, action.name);
    assert(command.args == seq![helper, "pacman"@, word] + flags + targets);
    assert(vector =~= seq![word] + flags + targets);
    assert(behind =~= seq!["pacman"@, word] + flags + targets);
    assert(behind.drop_first() =~= vector);
    assert(word.len() > 0 && word[0] == '-');
    assert("pacman"@[0] == 'p');
    assert(word != "pacman"@);
    assert("-Rns"@[1] != "-Syu"@[1]);
    let operation = match action.kind {
        ActionKind::Install => Operation::Sync,
        ActionKind::Remove => Operation::Remove,
        ActionKind::Upgrade => Operation::Upgrade,
    };
    assert(operation_of(vector[0]) == Some(operation));
    assert(is_flag("--noconfirm"@)) by {
        assert("--noconfirm"@[0] == '-');
    }
    reveal_with_fuel(scan, 4);
    let last = vector.len() - 1;
    if action.kind == ActionKind::Upgrade {
        assert(targets =~= Seq::<Seq<char>>::empty());
        if settings.allow_noconfirm {
            assert(vector =~= seq![word, "--noconfirm"@]);
            assert(scan(operation, vector, files, 2, ScanMode::Flags, 0) == Ok::<nat, ValidationError>(0));
            assert(scan(operation, vector, files, 1, ScanMode::Flags, 0) == Ok::<nat, ValidationError>(0));
        } else {
            assert(vector =~= seq![word]);
            assert(scan(operation, vector, files, 1, ScanMode::Flags, 0) == Ok::<nat, ValidationError>(0));
        }
    } else {
        assert(targets =~= seq![action.name]);
        if settings.allow_noconfirm {
            assert(vector =~= seq![word, "--noconfirm"@, action.name]);
            assert(scan(operation, vector, files, 1, ScanMode::Flags, 0) == scan(
                operation,
                vector,
                files,
                2,
                ScanMode::Flags,
                0,
            ));
        } else {
            assert(vector =~= seq![word, action.name]);
        }
        assert(vector[last] == action.name);
        let found = scan(operation, vector, files, last, ScanMode::Flags, 0);
        assert(scan(operation, vector, files, 1, ScanMode::Flags, 0) == found);
        assert(scan(operation, vector, files, last + 1, ScanMode::Flags, 0) == Ok::<nat, ValidationError>(0));
        assert(scan(operation, vector, files, last + 1, ScanMode::Packages, 1) == Ok::<nat, ValidationError>(1));
        if is_flag(action.name) {
            assert(found is Err || found == Ok::<nat, ValidationError>(0));
        } else if safe_package_name(action.name) {
            assert(crate::helper::safe_package(operation, vector, files, last));
            assert(found == Ok::<nat, ValidationError>(1));
        } else {
            assert(!crate::helper::safe_package(operation, vector, files, last));
            assert(found is Err);
        }
    }
}

} // verus!
