//! The data the queue-and-review workflow passes around: package records,
//! queued actions, the queue itself and the user's settings.

use vstd::prelude::*;

verus! {

/// Where a package comes from.
#[derive(Debug, Clone, Copy, PartialEq, Eq, Hash, Structural)]
pub enum PackageSource {
    Repo,
    Aur,
    Flatpak,
}

/// One line of a search result or of the list of installed packages.
#[derive(Debug, PartialEq, Eq)]
pub struct PackageSummary {
    pub name: String,
    pub summary: String,
    pub version: String,
    pub source: PackageSource,
    pub installed: bool,
    pub origin: Option<String>,
}

/// What a [`PackageSummary`] holds, as plain values.
pub struct SummaryModel {
    pub name: Seq<char>,
    pub summary: Seq<char>,
    pub version: Seq<char>,
    pub source: PackageSource,
    pub installed: bool,
    pub origin: Option<Seq<char>>,
}

/// The text of an optional string.
pub open spec fn option_text(o: Option<String>) -> Option<Seq<char>> {
    match o {
        Some(s) => Some(s@),
        None => None,
    }
}

/// A copy of an optional string.
pub fn clone_option(o: &Option<String>) -> (r: Option<String>)
    ensures
        option_text(r) == option_text(*o),
{
    match o {
        Some(s) => Some(s.clone()),
        None => None,
    }
}

/// A copy of a list of strings.
pub fn clone_strings(v: &Vec<String>) -> (r: Vec<String>)
    ensures
        crate::text::texts(r@) == crate::text::texts(v@),
{
    let mut out: Vec<String> = Vec::new();
    let mut i: usize = 0;
    while i < v.len()
        invariant
            i <= v.len(),
            out@.len() == i,
            forall|k: int| 0 <= k < i ==> out@[k]@ == v@[k]@,
        decreases v.len() - i,
    {
        out.push(v[i].clone());
        i += 1;
    }
    assert(crate::text::texts(out@) =~= crate::text::texts(v@));
    out
}

impl View for PackageSummary {
    type V = SummaryModel;

    open spec fn view(&self) -> SummaryModel {
        SummaryModel {
            name: self.name@,
            summary: self.summary@,
            version: self.version@,
            source: self.source,
            installed: self.installed,
            origin: option_text(self.origin),
        }
    }
}

impl Clone for PackageSummary {
    fn clone(&self) -> (r: Self)
        ensures
            r@ == self@,
    {
        PackageSummary {
            name: self.name.clone(),
            summary: self.summary.clone(),
            version: self.version.clone(),
            source: self.source,
            installed: self.installed,
            origin: clone_option(&self.origin),
        }
    }
}

/// Everything known about one package.
#[derive(Debug, PartialEq, Eq)]
pub struct PackageDetails {
    pub name: String,
    pub summary: String,
    pub description: String,
    pub version: String,
    pub source: PackageSource,
    pub installed: bool,
    pub size: Option<String>,
    pub home: Option<String>,
    pub screenshots: Vec<String>,
    pub icon_name: Option<String>,
}

/// What a [`PackageDetails`] holds, as plain values.
pub struct DetailsModel {
    pub name: Seq<char>,
    pub summary: Seq<char>,
    pub description: Seq<char>,
    pub version: Seq<char>,
    pub source: PackageSource,
    pub installed: bool,
    pub size: Option<Seq<char>>,
    pub home: Option<Seq<char>>,
    pub screenshots: Seq<Seq<char>>,
    pub icon_name: Option<Seq<char>>,
}

impl View for PackageDetails {
    type V = DetailsModel;

    open spec fn view(&self) -> DetailsModel {
        DetailsModel {
            name: self.name@,
            summary: self.summary@,
            description: self.description@,
            version: self.version@,
            source: self.source,
            installed: self.installed,
            size: option_text(self.size),
            home: option_text(self.home),
            screenshots: crate::text::texts(self.screenshots@),
            icon_name: option_text(self.icon_name),
        }
    }
}

impl Clone for PackageDetails {
    fn clone(&self) -> (r: Self)
        ensures
            r@ == self@,
    {
        PackageDetails {
            name: self.name.clone(),
            summary: self.summary.clone(),
            description: self.description.clone(),
            version: self.version.clone(),
            source: self.source,
            installed: self.installed,
            size: clone_option(&self.size),
            home: clone_option(&self.home),
            screenshots: clone_strings(&self.screenshots),
            icon_name: clone_option(&self.icon_name),
        }
    }
}

/// What a queued action does to its package.
#[derive(Debug, Clone, Copy, PartialEq, Eq, Structural)]
pub enum ActionKind {
    Install,
    Remove,
    Upgrade,
}

/// One queued action.
#[derive(Debug, PartialEq, Eq)]
pub struct TransactionAction {
    pub name: String,
    pub source: PackageSource,
    pub kind: ActionKind,
    /// The remote to install from, for a sandboxed app of a non-default remote.
    pub origin: Option<String>,
}

/// What a [`TransactionAction`] holds, as plain values. Two actions are the
/// same action exactly when their models are equal.
pub struct ActionModel {
    pub name: Seq<char>,
    pub source: PackageSource,
    pub kind: ActionKind,
    pub origin: Option<Seq<char>>,
}

impl View for TransactionAction {
    type V = ActionModel;

    open spec fn view(&self) -> ActionModel {
        ActionModel {
            name: self.name@,
            source: self.source,
            kind: self.kind,
            origin: option_text(self.origin),
        }
    }
}

impl Clone for TransactionAction {
    fn clone(&self) -> (r: Self)
        ensures
            r@ == self@,
    {
        TransactionAction {
            name: self.name.clone(),
            source: self.source,
            kind: self.kind,
            origin: clone_option(&self.origin),
        }
    }
}

impl TransactionAction {
    /// Whether `self` and `other` are the same action: same name, source,
    /// kind and origin.
    pub fn same_as(&self, other: &TransactionAction) -> (r: bool)
        ensures
            r == (self@ == other@),
    {
        let same_origin = match (&self.origin, &other.origin) {
            (Some(a), Some(b)) => *a == *b,
            (None, None) => true,
            _ => false,
        };
        self.name == other.name && self.source == other.source && self.kind == other.kind
            && same_origin
    }
}

/// The models of a sequence of actions.
pub open spec fn action_models(v: Seq<TransactionAction>) -> Seq<ActionModel> {
    Seq::new(v.len(), |i: int| v[i]@)
}

/// No action occurs twice in `q`.
pub open spec fn distinct(q: Seq<ActionModel>) -> bool {
    forall|i: int, j: int| 0 <= i < j < q.len() ==> q[i] != q[j]
}

/// `q` after a push of `a`: unchanged when `a` is queued already, else with
/// `a` at the end.
pub open spec fn pushed(q: Seq<ActionModel>, a: ActionModel) -> Seq<ActionModel> {
    if q.contains(a) {
        q
    } else {
        q.push(a)
    }
}

/// The actions the user has queued, in the order they were first added.
#[derive(Debug, PartialEq, Eq)]
pub struct TransactionQueue {
    pub actions: Vec<TransactionAction>,
}

impl View for TransactionQueue {
    type V = Seq<ActionModel>;

    open spec fn view(&self) -> Seq<ActionModel> {
        action_models(self.actions@)
    }
}

impl Default for TransactionQueue {
    fn default() -> (r: Self)
        ensures
            r@ == Seq::<ActionModel>::empty(),
    {
        let r = TransactionQueue { actions: Vec::new() };
        assert(r@ =~= Seq::<ActionModel>::empty());
        r
    }
}

impl Clone for TransactionQueue {
    fn clone(&self) -> (r: Self)
        ensures
            r@ == self@,
    {
        let mut actions: Vec<TransactionAction> = Vec::new();
        let mut i: usize = 0;
        while i < self.actions.len()
            invariant
                i <= self.actions.len(),
                actions@.len() == i,
                forall|k: int| 0 <= k < i ==> actions@[k]@ == self.actions@[k]@,
            decreases self.actions.len() - i,
        {
            actions.push(self.actions[i].clone());
            i += 1;
        }
        let r = TransactionQueue { actions };
        assert(r@ =~= self@);
        r
    }
}

impl TransactionQueue {
    /// Whether the queue is well formed: no action is queued twice.
    pub open spec fn wf(&self) -> bool {
        distinct(self@)
    }

    /// Queues `action` unless the same action is queued already, and says
    /// whether it was added.
    pub fn push(&mut self, action: TransactionAction) -> (added: bool)
        ensures
            added == !old(self)@.contains(action@),
            final(self)@ == pushed(old(self)@, action@),
            old(self).wf() ==> final(self).wf(),
    {
        let mut i: usize = 0;
        while i < self.actions.len()
            invariant
                i <= self.actions.len(),
                *self == *old(self),
                forall|k: int| 0 <= k < i ==> self@[k] != action@,
            decreases self.actions.len() - i,
        {
            if self.actions[i].same_as(&action) {
                assert(self@[i as int] == action@);
                return false;
            }
            i += 1;
        }
        let ghost before = self@;
        let ghost model = action@;
        self.actions.push(action);
        assert(self@ =~= before.push(model));
        true
    }

    /// Empties the queue.
    pub fn clear(&mut self)
        ensures
            final(self)@ == Seq::<ActionModel>::empty(),
    {
        self.actions.clear();
        assert(self@ =~= Seq::<ActionModel>::empty());
    }

    /// The number of queued actions.
    pub fn len(&self) -> (n: usize)
        ensures
            n == self@.len(),
    {
        self.actions.len()
    }

    /// Whether nothing is queued.
    pub fn is_empty(&self) -> (r: bool)
        ensures
            r == (self@.len() == 0),
    {
        self.actions.len() == 0
    }
}

/// Pushing an action a second time changes nothing.
pub proof fn lemma_push_idempotent(q: Seq<ActionModel>, a: ActionModel)
    ensures
        pushed(pushed(q, a), a) == pushed(q, a),
{
    if !q.contains(a) {
        assert(q.push(a)[q.len() as int] == a);
        assert(q.push(a).contains(a));
    }
}

/// An empty queue into which the same action is pushed twice holds it once.
pub proof fn lemma_push_twice_into_empty(a: ActionModel)
    ensures
        pushed(pushed(Seq::<ActionModel>::empty(), a), a) == seq![a],
        pushed(pushed(Seq::<ActionModel>::empty(), a), a).len() == 1,
{
    let empty = Seq::<ActionModel>::empty();
    assert(!empty.contains(a));
    lemma_push_idempotent(empty, a);
    assert(empty.push(a) =~= seq![a]);
}

/// A push keeps what was queued, in place and in order, and never lets an
/// action occur twice.
pub proof fn lemma_push_keeps_order(q: Seq<ActionModel>, a: ActionModel)
    ensures
        q.is_prefix_of(pushed(q, a)),
        pushed(q, a).contains(a),
        distinct(q) ==> distinct(pushed(q, a)),
{
    if q.contains(a) {
        assert(q.is_prefix_of(q));
    } else {
        assert(q.push(a)[q.len() as int] == a);
        assert(q.is_prefix_of(q.push(a)));
        if distinct(q) {
            assert forall|i: int, j: int| 0 <= i < j < q.push(a).len() implies q.push(a)[i]
                != q.push(a)[j] by {
                if j == q.len() {
                    assert(q[i] != a);
                }
            }
        }
    }
}


/// The community helper that builds and installs community packages.
#[derive(Debug, Clone, Copy, PartialEq, Eq, Structural)]
pub enum AurHelperKind {
    Yay,
    Paru,
}

impl AurHelperKind {
    /// The name of the helper's program, as text.
    pub open spec fn program(self) -> Seq<char> {
        match self {
            AurHelperKind::Yay => "yay"@,
            AurHelperKind::Paru => "paru"@,
        }
    }

    /// The name of the helper's program.
    pub fn as_str(&self) -> (r: &'static str)
        ensures
            r@ == self.program(),
    {
        match self {
            AurHelperKind::Yay => "yay",
            AurHelperKind::Paru => "paru",
        }
    }
}

/// The colour theme of the interface.
#[derive(Debug, Clone, Copy, PartialEq, Eq, Structural)]
pub enum ThemeMode {
    System,
    Light,
    Dark,
    Ocean,
    Emerald,
    Sunset,
    Graphite,
}

impl ThemeMode {
    /// Every theme, in the order the settings page lists them.
    pub open spec fn every() -> Seq<ThemeMode> {
        seq![
            ThemeMode::System,
            ThemeMode::Light,
            ThemeMode::Dark,
            ThemeMode::Ocean,
            ThemeMode::Emerald,
            ThemeMode::Sunset,
            ThemeMode::Graphite,
        ]
    }

    /// The place of a theme in [`Self::every`].
    pub open spec fn position(self) -> nat {
        match self {
            ThemeMode::System => 0,
            ThemeMode::Light => 1,
            ThemeMode::Dark => 2,
            ThemeMode::Ocean => 3,
            ThemeMode::Emerald => 4,
            ThemeMode::Sunset => 5,
            ThemeMode::Graphite => 6,
        }
    }

    /// The theme at `index`, the system theme when there is none.
    pub open spec fn at(index: nat) -> ThemeMode {
        if index < Self::every().len() {
            Self::every()[index as int]
        } else {
            ThemeMode::System
        }
    }

    /// The name shown for a theme, as text.
    pub open spec fn label_text(self) -> Seq<char> {
        match self {
            ThemeMode::System => "System"@,
            ThemeMode::Light => "Light"@,
            ThemeMode::Dark => "Dark"@,
            ThemeMode::Ocean => "Ocean"@,
            ThemeMode::Emerald => "Emerald"@,
            ThemeMode::Sunset => "Sunset"@,
            ThemeMode::Graphite => "Graphite"@,
        }
    }

    /// Every theme, in the order the settings page lists them.
    pub fn all() -> (r: Vec<ThemeMode>)
        ensures
            r@ == Self::every(),
    {
        let r = vec![
            ThemeMode::System,
            ThemeMode::Light,
            ThemeMode::Dark,
            ThemeMode::Ocean,
            ThemeMode::Emerald,
            ThemeMode::Sunset,
            ThemeMode::Graphite,
        ];
        assert(r@ =~= Self::every());
        r
    }

    /// The name shown for a theme.
    pub fn label(self) -> (r: &'static str)
        ensures
            r@ == self.label_text(),
    {
        match self {
            ThemeMode::System => "System",
            ThemeMode::Light => "Light",
            ThemeMode::Dark => "Dark",
            ThemeMode::Ocean => "Ocean",
            ThemeMode::Emerald => "Emerald",
            ThemeMode::Sunset => "Sunset",
            ThemeMode::Graphite => "Graphite",
        }
    }

    /// The place of a theme in the list of all themes.
    pub fn to_index(self) -> (r: u32)
        ensures
            r == self.position(),
            r < Self::every().len(),
            Self::every()[r as int] == self,
    {
        match self {
            ThemeMode::System => 0,
            ThemeMode::Light => 1,
            ThemeMode::Dark => 2,
            ThemeMode::Ocean => 3,
            ThemeMode::Emerald => 4,
            ThemeMode::Sunset => 5,
            ThemeMode::Graphite => 6,
        }
    }

    /// The theme at `index` of the list of all themes, the system theme when
    /// the index is past its end.
    pub fn from_index(index: u32) -> (r: ThemeMode)
        ensures
            r == Self::at(index as nat),
    {
        match index {
            1 => ThemeMode::Light,
            2 => ThemeMode::Dark,
            3 => ThemeMode::Ocean,
            4 => ThemeMode::Emerald,
            5 => ThemeMode::Sunset,
            6 => ThemeMode::Graphite,
            _ => ThemeMode::System,
        }
    }

    /// A theme's index leads back to the theme.
    pub proof fn lemma_index_round_trip(self)
        ensures
            Self::at(self.position()) == self,
    {
    }
}

/// Where the output of a running command is shown.
#[derive(Debug, Clone, Copy, PartialEq, Eq, Structural)]
pub enum TerminalMode {
    Integrated,
    External,
}

impl TerminalMode {
    /// Both modes, in the order the settings page lists them.
    pub open spec fn every() -> Seq<TerminalMode> {
        seq![TerminalMode::Integrated, TerminalMode::External]
    }

    /// The place of a mode in [`Self::every`].
    pub open spec fn position(self) -> nat {
        match self {
            TerminalMode::Integrated => 0,
            TerminalMode::External => 1,
        }
    }

    /// The mode at `index`, the integrated one when there is none.
    pub open spec fn at(index: nat) -> TerminalMode {
        if index < Self::every().len() {
            Self::every()[index as int]
        } else {
            TerminalMode::Integrated
        }
    }

    /// The name shown for a mode, as text.
    pub open spec fn label_text(self) -> Seq<char> {
        match self {
            TerminalMode::Integrated => "Integrated Logs"@,
            TerminalMode::External => "External Terminal"@,
        }
    }

    /// Both modes, in the order the settings page lists them.
    pub fn all() -> (r: Vec<TerminalMode>)
        ensures
            r@ == Self::every(),
    {
        let r = vec![TerminalMode::Integrated, TerminalMode::External];
        assert(r@ =~= Self::every());
        r
    }

    /// The name shown for a mode.
    pub fn label(self) -> (r: &'static str)
        ensures
            r@ == self.label_text(),
    {
        match self {
            TerminalMode::Integrated => "Integrated Logs",
            TerminalMode::External => "External Terminal",
        }
    }

    /// The place of a mode in the list of both.
    pub fn to_index(self) -> (r: u32)
        ensures
            r == self.position(),
            r < Self::every().len(),
            Self::every()[r as int] == self,
    {
        match self {
            TerminalMode::Integrated => 0,
            TerminalMode::External => 1,
        }
    }

    /// The mode at `index` of the list of both, the integrated one when the
    /// index is past its end.
    pub fn from_index(index: u32) -> (r: TerminalMode)
        ensures
            r == Self::at(index as nat),
    {
        match index {
            1 => TerminalMode::External,
            _ => TerminalMode::Integrated,
        }
    }

    /// A mode's index leads back to the mode.
    pub proof fn lemma_index_round_trip(self)
        ensures
            Self::at(self.position()) == self,
    {
    }
}

/// The terminal program an external run opens.
#[derive(Debug, Clone, Copy, PartialEq, Eq, Structural)]
pub enum TerminalEmulator {
    Auto,
    Kitty,
    Konsole,
    Alacritty,
}

impl TerminalEmulator {
    /// Every choice, in the order the settings page lists them.
    pub open spec fn every() -> Seq<TerminalEmulator> {
        seq![
            TerminalEmulator::Auto,
            TerminalEmulator::Kitty,
            TerminalEmulator::Konsole,
            TerminalEmulator::Alacritty,
        ]
    }

    /// The place of a choice in [`Self::every`].
    pub open spec fn position(self) -> nat {
        match self {
            TerminalEmulator::Auto => 0,
            TerminalEmulator::Kitty => 1,
            TerminalEmulator::Konsole => 2,
            TerminalEmulator::Alacritty => 3,
        }
    }

    /// The choice at `index`, the automatic one when there is none.
    pub open spec fn at(index: nat) -> TerminalEmulator {
        if index < Self::every().len() {
            Self::every()[index as int]
        } else {
            TerminalEmulator::Auto
        }
    }

    /// The name shown for a choice, as text.
    pub open spec fn label_text(self) -> Seq<char> {
        match self {
            TerminalEmulator::Auto => "Auto"@,
            TerminalEmulator::Kitty => "Kitty"@,
            TerminalEmulator::Konsole => "Konsole"@,
            TerminalEmulator::Alacritty => "Alacritty"@,
        }
    }

    /// Every choice, in the order the settings page lists them.
    pub fn all() -> (r: Vec<TerminalEmulator>)
        ensures
            r@ == Self::every(),
    {
        let r = vec![
            TerminalEmulator::Auto,
            TerminalEmulator::Kitty,
            TerminalEmulator::Konsole,
            TerminalEmulator::Alacritty,
        ];
        assert(r@ =~= Self::every());
        r
    }

    /// The name shown for a choice.
    pub fn label(self) -> (r: &'static str)
        ensures
            r@ == self.label_text(),
    {
        match self {
            TerminalEmulator::Auto => "Auto",
            TerminalEmulator::Kitty => "Kitty",
            TerminalEmulator::Konsole => "Konsole",
            TerminalEmulator::Alacritty => "Alacritty",
        }
    }

    /// The place of a choice in the list of all choices.
    pub fn to_index(self) -> (r: u32)
        ensures
            r == self.position(),
            r < Self::every().len(),
            Self::every()[r as int] == self,
    {
        match self {
            TerminalEmulator::Auto => 0,
            TerminalEmulator::Kitty => 1,
            TerminalEmulator::Konsole => 2,
            TerminalEmulator::Alacritty => 3,
        }
    }

    /// The choice at `index` of the list of all choices, the automatic one
    /// when the index is past its end.
    pub fn from_index(index: u32) -> (r: TerminalEmulator)
        ensures
            r == Self::at(index as nat),
    {
        match index {
            1 => TerminalEmulator::Kitty,
            2 => TerminalEmulator::Konsole,
            3 => TerminalEmulator::Alacritty,
            _ => TerminalEmulator::Auto,
        }
    }

    /// A choice's index leads back to the choice.
    pub proof fn lemma_index_round_trip(self)
        ensures
            Self::at(self.position()) == self,
    {
    }
}

/// What the user has chosen on the settings page.
#[derive(Debug, Clone, Copy, PartialEq, Eq, Structural)]
pub struct Settings {
    pub aur_helper: AurHelperKind,
    /// Whether commands may skip their own confirmation prompts.
    pub allow_noconfirm: bool,
    pub theme: ThemeMode,
    pub terminal_mode: TerminalMode,
    pub terminal_emulator: TerminalEmulator,
}

impl Default for Settings {
    fn default() -> (r: Self)
        ensures
            r == (Settings {
                aur_helper: AurHelperKind::Yay,
                allow_noconfirm: false,
                theme: ThemeMode::System,
                terminal_mode: TerminalMode::Integrated,
                terminal_emulator: TerminalEmulator::Auto,
            }),
    {
        Settings {
            aur_helper: AurHelperKind::Yay,
            allow_noconfirm: false,
            theme: ThemeMode::System,
            terminal_mode: TerminalMode::Integrated,
            terminal_emulator: TerminalEmulator::Auto,
        }
    }
}

} // verus!
