//! The queue as the user works with it: adding actions, reviewing them, and
//! handing them over for execution.

use vstd::prelude::*;
use vstd::string::*;

use crate::executor::Effect;
use crate::executor::effect_models;
use crate::executor::Preflight;
use crate::executor::Refusal;
use crate::executor::TransactionExecutor;
use crate::models::action_models;
use crate::models::ActionKind;
use crate::models::ActionModel;
use crate::models::PackageSource;
use crate::models::pushed;
use crate::models::Settings;
use crate::models::TransactionAction;
use crate::models::TransactionQueue;
use crate::text::decimal;
use crate::text::push_decimal;
use crate::text::texts;
use crate::transactions::plan_transactions;
use crate::transactions::planned;

verus! {

/// The name of a kind of action.
pub open spec fn kind_text(kind: ActionKind) -> Seq<char> {
    match kind {
        ActionKind::Install => "Install"@,
        ActionKind::Remove => "Remove"@,
        ActionKind::Upgrade => "Upgrade"@,
    }
}

/// The name of a package source.
pub open spec fn source_text(source: PackageSource) -> Seq<char> {
    match source {
        PackageSource::Repo => "Repo"@,
        PackageSource::Aur => "Aur"@,
        PackageSource::Flatpak => "Flatpak"@,
    }
}

/// The name of a package source as a badge shows it.
pub open spec fn badge_text(source: PackageSource) -> Seq<char> {
    match source {
        PackageSource::Repo => "Pacman"@,
        PackageSource::Aur => "AUR"@,
        PackageSource::Flatpak => "Flatpak"@,
    }
}

/// The name of a kind of action.
pub fn kind_name(kind: ActionKind) -> (r: &'static str)
    ensures
        r@ == kind_text(kind),
{
    match kind {
        ActionKind::Install => "Install",
        ActionKind::Remove => "Remove",
        ActionKind::Upgrade => "Upgrade",
    }
}

/// The name of a package source.
pub fn source_name(source: PackageSource) -> (r: &'static str)
    ensures
        r@ == source_text(source),
{
    match source {
        PackageSource::Repo => "Repo",
        PackageSource::Aur => "Aur",
        PackageSource::Flatpak => "Flatpak",
    }
}

/// The name of a package source as a badge shows it.
pub fn source_badge(source: PackageSource) -> (r: &'static str)
    ensures
        r@ == badge_text(source),
{
    match source {
        PackageSource::Repo => "Pacman",
        PackageSource::Aur => "AUR",
        PackageSource::Flatpak => "Flatpak",
    }
}

/// The line that shows an action for review.
pub open spec fn review_text(action: ActionModel) -> Seq<char> {
    kind_text(action.kind) + " "@ + action.name + " ("@ + source_text(action.source) + ")"@
}

/// `queue` after each of `actions` was pushed, in order.
pub open spec fn pushed_all(queue: Seq<ActionModel>, actions: Seq<ActionModel>) -> Seq<ActionModel>
    decreases actions.len(),
{
    if actions.len() == 0 {
        queue
    } else {
        pushed(pushed_all(queue, actions.drop_last()), actions.last())
    }
}

/// What is said after `total` selected updates were offered and `added` of
/// them were new to the queue.
pub open spec fn selection_notice(total: nat, added: nat) -> Seq<char> {
    if total == 0 {
        "No packages selected"@
    } else if added == 0 {
        "Selected updates already queued"@
    } else if added == total {
        "Selected updates queued"@
    } else {
        "Queued "@ + decimal(added) + " update(s), skipped "@ + decimal((total - added) as nat)
            + " duplicates"@
    }
}

/// The action that upgrades everything of one source.
pub open spec fn upgrade_of(name: Seq<char>, source: PackageSource) -> ActionModel {
    ActionModel { name, source, kind: ActionKind::Upgrade, origin: None }
}

/// The three actions that upgrade everything: the system, the community
/// packages and the sandboxed apps.
pub open spec fn upgrade_everything() -> Seq<ActionModel> {
    seq![
        upgrade_of("system"@, PackageSource::Repo),
        upgrade_of("aur"@, PackageSource::Aur),
        upgrade_of("flatpak"@, PackageSource::Flatpak),
    ]
}

/// Holds the queue and answers each request of the user with the notice to
/// show.
#[derive(Debug)]
pub struct QueueController {
    queue: TransactionQueue,
}

impl View for QueueController {
    type V = Seq<ActionModel>;

    closed spec fn view(&self) -> Seq<ActionModel> {
        self.queue@
    }
}

impl QueueController {
    /// A controller with an empty queue.
    pub fn new() -> (r: Self)
        ensures
            r@ == Seq::<ActionModel>::empty(),
    {
        QueueController { queue: TransactionQueue::default() }
    }

    /// The queue.
    pub fn queue(&self) -> (r: &TransactionQueue)
        ensures
            r@ == self@,
    {
        &self.queue
    }

    /// The text of the button that opens the review: it counts what is
    /// queued.
    pub fn label(&self) -> (r: String)
        ensures
            r@ == "Queue ("@ + decimal(self@.len()) + ")"@,
    {
        let mut out = String::from_str("Queue (");
        push_decimal(&mut out, self.queue.len() as u128);
        out.append(")");
        out
    }

    /// Queues the installation of `name` from `source`, from the remote
    /// `origin` where one is given.
    pub fn add_install(&mut self, name: String, source: PackageSource, origin: Option<String>) -> (notice:
        String)
        ensures
            final(self)@ == pushed(
                old(self)@,
                ActionModel {
                    name: name@,
                    source,
                    kind: ActionKind::Install,
                    origin: crate::models::option_text(origin),
                },
            ),
            notice@ == "Added to queue"@,
    {
        self.queue.push(TransactionAction { name, source, kind: ActionKind::Install, origin });
        String::from_str("Added to queue")
    }

    /// Queues the removal of `name`, a package of `source`.
    pub fn add_remove(&mut self, name: String, source: PackageSource) -> (notice: String)
        ensures
            final(self)@ == pushed(
                old(self)@,
                ActionModel { name: name@, source, kind: ActionKind::Remove, origin: None },
            ),
            notice@ == "Added to queue"@,
    {
        self.queue.push(TransactionAction { name, source, kind: ActionKind::Remove, origin: None });
        String::from_str("Added to queue")
    }

    /// Queues the upgrade of the whole system.
    pub fn add_upgrade_repo(&mut self) -> (notice: String)
        ensures
            final(self)@ == pushed(old(self)@, upgrade_of("system"@, PackageSource::Repo)),
            notice@ == "System upgrade queued"@,
    {
        self.queue.push(
            TransactionAction {
                name: String::from_str("system"),
                source: PackageSource::Repo,
                kind: ActionKind::Upgrade,
                origin: None,
            },
        );
        String::from_str("System upgrade queued")
    }

    /// Queues each of `actions` that is not queued yet, and says how many
    /// were new.
    pub fn add_upgrade_packages(&mut self, actions: Vec<TransactionAction>) -> (notice: String)
        ensures
            final(self)@ == pushed_all(old(self)@, action_models(actions@)),
            final(self)@.len() >= old(self)@.len(),
            notice@ == selection_notice(
                actions@.len(),
                (final(self)@.len() - old(self)@.len()) as nat,
            ),
    {
        let total: usize = actions.len();
        if total == 0 {
            assert(action_models(actions@) =~= Seq::<ActionModel>::empty());
            return String::from_str("No packages selected");
        }
        let ghost models = action_models(actions@);
        let ghost start = self@;
        let mut added: usize = 0;
        let mut i: usize = 0;
        assert(models.take(0) =~= Seq::<ActionModel>::empty());
        while i < total
            invariant
                i <= total,
                total == actions@.len(),
                models == action_models(actions@),
                added <= i,
                self@ == pushed_all(start, models.take(i as int)),
                self@.len() == start.len() + added,
            decreases total - i,
        {
            proof {
                assert(models.take(i + 1).drop_last() =~= models.take(i as int));
                assert(models.take(i + 1).last() == actions@[i as int]@);
            }
            if self.queue.push(actions[i].clone()) {
                added += 1;
            }
            i += 1;
        }
        assert(models.take(i as int) =~= models);
        if added == 0 {
            String::from_str("Selected updates already queued")
        } else if added == total {
            String::from_str("Selected updates queued")
        } else {
            let mut out = String::from_str("Queued ");
            push_decimal(&mut out, added as u128);
            out.append(" update(s), skipped ");
            push_decimal(&mut out, (total - added) as u128);
            out.append(" duplicates");
            out
        }
    }

    /// Queues the upgrade of everything: the system, the community packages
    /// and the sandboxed apps.
    pub fn add_upgrade_all(&mut self) -> (notice: String)
        ensures
            final(self)@ == pushed_all(old(self)@, upgrade_everything()),
            notice@ == "All updates queued"@,
    {
        let ghost all = upgrade_everything();
        proof {
            assert(all.drop_last() =~= seq![all[0], all[1]]);
            assert(all.drop_last().drop_last() =~= seq![all[0]]);
            assert(all.drop_last().drop_last().drop_last() =~= Seq::<ActionModel>::empty());
            reveal_with_fuel(pushed_all, 4);
        }
        self.queue.push(
            TransactionAction {
                name: String::from_str("system"),
                source: PackageSource::Repo,
                kind: ActionKind::Upgrade,
                origin: None,
            },
        );
        self.queue.push(
            TransactionAction {
                name: String::from_str("aur"),
                source: PackageSource::Aur,
                kind: ActionKind::Upgrade,
                origin: None,
            },
        );
        self.queue.push(
            TransactionAction {
                name: String::from_str("flatpak"),
                source: PackageSource::Flatpak,
                kind: ActionKind::Upgrade,
                origin: None,
            },
        );
        String::from_str("All updates queued")
    }

    /// The queued actions as the review lists them, one line each.
    pub fn review_lines(&self) -> (r: Vec<String>)
        ensures
            texts(r@) == Seq::new(self@.len(), |i: int| review_text(self@[i])),
    {
        let mut lines: Vec<String> = Vec::new();
        let mut i: usize = 0;
        while i < self.queue.actions.len()
            invariant
                i <= self.queue.actions.len(),
                lines@.len() == i,
                forall|k: int| 0 <= k < i ==> lines@[k]@ == review_text(self@[k]),
            decreases self.queue.actions.len() - i,
        {
            let action = &self.queue.actions[i];
            assert(self@[i as int] == action@);
            let mut line = String::from_str(kind_name(action.kind));
            line.append(" ");
            line.append(action.name.as_str());
            line.append(" (");
            line.append(source_name(action.source));
            line.append(")");
            lines.push(line);
            i += 1;
        }
        assert(texts(lines@) =~= Seq::new(self@.len(), |i: int| review_text(self@[i])));
        lines
    }

    /// Hands the queue over for execution: plans it, with `helper` as the
    /// path of the validating helper, and offers the plan to `executor`.
    /// When the plan is accepted the queue is emptied at once, so that new
    /// work can be queued while the plan runs. When it is turned away the
    /// queue stays as it is.
    pub fn execute(
        &mut self,
        executor: &mut TransactionExecutor,
        settings: &Settings,
        helper: &str,
        probe: &Preflight,
    ) -> (r: (Result<(), Refusal>, Vec<Effect>))
        ensures
            ({
                let plan = planned(old(self)@, *settings, helper@);
                let verdict = old(executor)@.refusal(plan, probe@);
                &&& (final(executor)@, effect_models(r.1@)) == old(executor)@.started(
                    plan,
                    probe@,
                    *settings,
                )
                &&& r.0 == match verdict {
                    Some(reason) => Err::<(), Refusal>(reason),
                    None => Ok::<(), Refusal>(()),
                }
                &&& final(self)@ == if verdict is None {
                    Seq::<ActionModel>::empty()
                } else {
                    old(self)@
                }
            }),
    {
        let plan = plan_transactions(&self.queue, settings, helper);
        let outcome = executor.start(plan, probe, settings);
        match outcome.0 {
            Ok(()) => {
                self.queue.clear();
            },
            Err(_) => {},
        }
        outcome
    }
}

} // verus!
