//! Which package managers and front-ends are running, from what a probe of
//! the process table found for each name.
//!
//! A process may start right after it was probed for. Nothing here excludes
//! that; the probes narrow the window, they do not close it.

use vstd::prelude::*;
use vstd::string::*;

use crate::text::texts;

verus! {

/// What a probe of the process table found for one name.
#[derive(Debug, PartialEq, Eq)]
pub enum ProcessProbe {
    /// A process of that name is running.
    Running,
    /// No process of that name is running.
    NotRunning,
    /// The probe itself failed, for the reason given.
    Failed(String),
}

/// What a [`ProcessProbe`] holds, as plain values.
pub enum ProbeModel {
    Running,
    NotRunning,
    Failed(Seq<char>),
}

impl View for ProcessProbe {
    type V = ProbeModel;

    open spec fn view(&self) -> ProbeModel {
        match self {
            ProcessProbe::Running => ProbeModel::Running,
            ProcessProbe::NotRunning => ProbeModel::NotRunning,
            ProcessProbe::Failed(error) => ProbeModel::Failed(error@),
        }
    }
}

/// The models of a sequence of probes.
pub open spec fn probe_models(v: Seq<ProcessProbe>) -> Seq<ProbeModel> {
    Seq::new(v.len(), |i: int| v[i]@)
}

/// The package managers whose activity forbids touching the lock file.
pub open spec fn package_manager_names() -> Seq<Seq<char>> {
    seq!["pacman"@, "yay"@, "paru"@, "pamac"@, "pkcon"@, "packagekitd"@]
}

/// The processes whose activity forbids starting a plan: the package
/// managers, and the validating helper.
pub open spec fn watched_names() -> Seq<Seq<char>> {
    package_manager_names().push("aurora-helper"@)
}

/// The package managers whose activity forbids touching the lock file.
pub fn package_managers() -> (r: Vec<String>)
    ensures
        texts(r@) == package_manager_names(),
{
    let mut names: Vec<String> = Vec::new();
    names.push(String::from_str("pacman"));
    names.push(String::from_str("yay"));
    names.push(String::from_str("paru"));
    names.push(String::from_str("pamac"));
    names.push(String::from_str("pkcon"));
    names.push(String::from_str("packagekitd"));
    assert(texts(names@) =~= package_manager_names());
    names
}

/// The processes whose activity forbids starting a plan.
pub fn watched_processes() -> (r: Vec<String>)
    ensures
        texts(r@) == watched_names(),
{
    let mut names = package_managers();
    let ghost before = texts(names@);
    names.push(String::from_str("aurora-helper"));
    assert(texts(names@) =~= before.push("aurora-helper"@));
    names
}

/// The probe for the name at `index`. A name without a probe counts as one
/// whose probe failed.
pub open spec fn probe_for(probes: Seq<ProbeModel>, index: int) -> ProbeModel {
    if 0 <= index < probes.len() {
        probes[index]
    } else {
        ProbeModel::Failed("not probed"@)
    }
}

/// A probe that failed: for which name, and why.
#[derive(Debug, PartialEq, Eq)]
pub struct ProbeFailure {
    pub name: String,
    pub error: String,
}

/// What a [`ProbeFailure`] holds, as plain values.
pub struct FailureModel {
    pub name: Seq<char>,
    pub error: Seq<char>,
}

impl View for ProbeFailure {
    type V = FailureModel;

    open spec fn view(&self) -> FailureModel {
        FailureModel { name: self.name@, error: self.error@ }
    }
}

/// The first `upto` of `names` that are running, in their order, or the
/// first of them whose probe failed.
pub open spec fn running_among(names: Seq<Seq<char>>, probes: Seq<ProbeModel>, upto: int) -> Result<
    Seq<Seq<char>>,
    FailureModel,
>
    decreases upto,
{
    if upto <= 0 {
        Ok(Seq::empty())
    } else {
        match running_among(names, probes, upto - 1) {
            Err(failure) => Err(failure),
            Ok(running) => match probe_for(probes, upto - 1) {
                ProbeModel::Running => Ok(running.push(names[upto - 1])),
                ProbeModel::NotRunning => Ok(running),
                ProbeModel::Failed(error) => Err(FailureModel { name: names[upto - 1], error }),
            },
        }
    }
}

/// Those of `names` that are running, in their order, where `probes` holds
/// for each name, at the same index, what the process table showed. The
/// first probe that failed is returned as the error.
pub fn running_processes(names: &Vec<String>, probes: &[ProcessProbe]) -> (r: Result<
    Vec<String>,
    ProbeFailure,
>)
    ensures
        match r {
            Ok(running) => running_among(texts(names@), probe_models(probes@), names@.len() as int)
                == Ok::<Seq<Seq<char>>, FailureModel>(texts(running@)),
            Err(failure) => running_among(
                texts(names@),
                probe_models(probes@),
                names@.len() as int,
            ) == Err::<Seq<Seq<char>>, FailureModel>(failure@),
        },
{
    let mut running: Vec<String> = Vec::new();
    assert(texts(running@) =~= Seq::<Seq<char>>::empty());
    let mut i: usize = 0;
    while i < names.len()
        invariant
            i <= names.len(),
            running_among(texts(names@), probe_models(probes@), i as int) == Ok::<
                Seq<Seq<char>>,
                FailureModel,
            >(texts(running@)),
        decreases names.len() - i,
    {
        if i < probes.len() {
            match &probes[i] {
                ProcessProbe::Running => {
                    let ghost before = texts(running@);
                    running.push(names[i].clone());
                    assert(texts(running@) =~= before.push(names@[i as int]@));
                },
                ProcessProbe::NotRunning => {},
                ProcessProbe::Failed(error) => {
                    proof {
                        lemma_failure_decides(
                            texts(names@),
                            probe_models(probes@),
                            i + 1,
                            names@.len() as int,
                        );
                    }
                    return Err(ProbeFailure { name: names[i].clone(), error: error.clone() });
                },
            }
        } else {
            proof {
                lemma_failure_decides(
                    texts(names@),
                    probe_models(probes@),
                    i + 1,
                    names@.len() as int,
                );
            }
            return Err(
                ProbeFailure { name: names[i].clone(), error: String::from_str("not probed") },
            );
        }
        i += 1;
    }
    Ok(running)
}

/// A failed probe decides the outcome whatever is probed after it.
pub proof fn lemma_failure_decides(
    names: Seq<Seq<char>>,
    probes: Seq<ProbeModel>,
    at: int,
    upto: int,
)
    requires
        0 <= at <= upto,
        running_among(names, probes, at) is Err,
    ensures
        running_among(names, probes, upto) == running_among(names, probes, at),
    decreases upto - at,
{
    if at < upto {
        lemma_failure_decides(names, probes, at, upto - 1);
    }
}

/// The outcome answers for every name. It is the list of the running ones
/// only if no probe failed, and that list is empty exactly if every probe
/// found nothing. Else it is the first probe that failed.
pub proof fn lemma_running_among(names: Seq<Seq<char>>, probes: Seq<ProbeModel>, upto: int)
    requires
        0 <= upto <= names.len(),
    ensures
        match running_among(names, probes, upto) {
            Ok(running) => {
                &&& forall|i: int| 0 <= i < upto ==> !(#[trigger] probe_for(probes, i) is Failed)
                &&& running.len() <= upto
                &&& running.len() == 0 <==> forall|i: int|
                    0 <= i < upto ==> #[trigger] probe_for(probes, i) is NotRunning
            },
            Err(failure) => exists|i: int|
                0 <= i < upto && #[trigger] probe_for(probes, i) is Failed && failure.name
                    == names[i] && failure.error == probe_for(probes, i)->Failed_0 && forall|j: int|
                    0 <= j < i ==> !(#[trigger] probe_for(probes, j) is Failed),
        },
    decreases upto,
{
    if upto > 0 {
        lemma_running_among(names, probes, upto - 1);
        match running_among(names, probes, upto - 1) {
            Err(failure) => {
                let i = choose|i: int|
                    0 <= i < upto - 1 && #[trigger] probe_for(probes, i) is Failed && failure.name
                        == names[i] && failure.error == probe_for(probes, i)->Failed_0
                        && forall|j: int|
                        0 <= j < i ==> !(#[trigger] probe_for(probes, j) is Failed);
                assert(0 <= i < upto && probe_for(probes, i) is Failed);
            },
            Ok(before) => {
                match probe_for(probes, upto - 1) {
                    ProbeModel::Running => {
                        assert(!(probe_for(probes, upto - 1) is NotRunning));
                    },
                    ProbeModel::NotRunning => {},
                    ProbeModel::Failed(error) => {
                        assert(probe_for(probes, upto - 1) is Failed);
                    },
                }
            },
        }
    }
}


/// What is known of the processes that forbid starting a plan: those that
/// are running, or the report of the first probe that failed.
pub open spec fn active_among(probes: Seq<ProbeModel>) -> Result<Seq<Seq<char>>, Seq<char>> {
    match running_among(watched_names(), probes, watched_names().len() as int) {
        Ok(running) => Ok(running),
        Err(failure) => Err("pgrep failed for "@ + failure.name + ": "@ + failure.error),
    }
}

/// Which of the processes that forbid starting a plan are running, by what
/// the process table showed for each of [`watched_processes`], in their
/// order.
pub fn active_package_managers(probes: &[ProcessProbe]) -> (r: Result<Vec<String>, String>)
    ensures
        match r {
            Ok(running) => active_among(probe_models(probes@)) == Ok::<
                Seq<Seq<char>>,
                Seq<char>,
            >(texts(running@)),
            Err(report) => active_among(probe_models(probes@)) == Err::<
                Seq<Seq<char>>,
                Seq<char>,
            >(report@),
        },
{
    let names = watched_processes();
    match running_processes(&names, probes) {
        Ok(running) => Ok(running),
        Err(failure) => {
            let mut report = String::from_str("pgrep failed for ");
            report.append(failure.name.as_str());
            report.append(": ");
            report.append(failure.error.as_str());
            Err(report)
        },
    }
}

/// What is known of the package managers: those that are running, or the
/// report of the first probe that failed.
pub open spec fn managers_among(probes: Seq<ProbeModel>) -> Result<Seq<Seq<char>>, Seq<char>> {
    match running_among(package_manager_names(), probes, package_manager_names().len() as int) {
        Ok(running) => Ok(running),
        Err(failure) => Err("failed to run pgrep: "@ + failure.error),
    }
}

/// Which package managers are running, by what the process table showed for
/// each of [`package_managers`], in their order.
pub fn running_package_managers(probes: &[ProcessProbe]) -> (r: Result<Vec<String>, String>)
    ensures
        match r {
            Ok(running) => managers_among(probe_models(probes@)) == Ok::<
                Seq<Seq<char>>,
                Seq<char>,
            >(texts(running@)),
            Err(report) => managers_among(probe_models(probes@)) == Err::<
                Seq<Seq<char>>,
                Seq<char>,
            >(report@),
        },
{
    let names = package_managers();
    match running_processes(&names, probes) {
        Ok(running) => Ok(running),
        Err(failure) => Err(crate::text::append("failed to run pgrep: ", failure.error.as_str())),
    }
}

} // verus!
