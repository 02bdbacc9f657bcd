use aurora::helper::clear_pacman_lock;
use aurora::helper::ensure_no_package_manager_running;
use aurora::helper::ensure_root;
use aurora::helper::FileProbe;
use aurora::helper::HelperError;
use aurora::helper::HelperRequest;
use aurora::helper::lock_file_path;
use aurora::helper::lock_report;
use aurora::helper::LockAction;
use aurora::helper::run;
use aurora::helper::run_pacman;
use aurora::helper::ValidationError;
use aurora::processes::active_package_managers;
use aurora::processes::package_managers;
use aurora::processes::ProbeFailure;
use aurora::processes::ProcessProbe;
use aurora::processes::running_package_managers;
use aurora::processes::running_processes;
use aurora::processes::watched_processes;
use aurora::runner::CommandSpec;

fn strings(items: &[&str]) -> Vec<String> {
    items.iter().map(|s| s.to_string()).collect()
}

fn quiet(n: usize) -> Vec<ProcessProbe> {
    (0..n).map(|_| ProcessProbe::NotRunning).collect()
}

#[test]
fn runs_the_tool_on_exactly_the_accepted_vector() {
    let args = strings(&["-S", "--noconfirm", "curl"]);
    let command = run_pacman(args.clone(), &[]).unwrap();
    assert_eq!(
        command,
        CommandSpec {
            program: "pacman".to_string(),
            args,
            env: vec![("LC_ALL".to_string(), "C".to_string())],
        }
    );
}

#[test]
fn a_rejected_vector_yields_no_command() {
    let args = strings(&["-S", "curl", "--noconfirm"]);
    assert_eq!(
        run_pacman(args, &[]),
        Err(HelperError::Rejected(ValidationError::FlagAfterPackage(2)))
    );
    assert_eq!(
        run_pacman(strings(&["-Syu", "curl"]), &[]),
        Err(HelperError::Rejected(ValidationError::UpgradeTakesPackages))
    );
    let no_files: Vec<FileProbe> = Vec::new();
    assert_eq!(
        run_pacman(Vec::new(), &no_files),
        Err(HelperError::Rejected(ValidationError::MissingArgs))
    );
}

#[test]
fn serves_only_root() {
    assert_eq!(ensure_root(0), Ok(()));
    assert_eq!(ensure_root(1000), Err(HelperError::NotRoot));
    assert_eq!(run(1000, strings(&["pacman", "-Syu"])), Err(HelperError::NotRoot));
    assert_eq!(run(1, Vec::new()), Err(HelperError::NotRoot));
}

#[test]
fn reads_the_target() {
    assert_eq!(run(0, Vec::new()), Err(HelperError::NoCommand));
    assert_eq!(
        run(0, strings(&["pacman", "-S", "curl"])),
        Ok(HelperRequest::Pacman(strings(&["-S", "curl"])))
    );
    assert_eq!(run(0, strings(&["pacman"])), Ok(HelperRequest::Pacman(Vec::new())));
    assert_eq!(run(0, strings(&["clear-pacman-lock"])), Ok(HelperRequest::ClearLock));
    assert_eq!(
        run(0, strings(&["rm", "-rf", "/"])),
        Err(HelperError::UnsupportedTarget("rm".to_string()))
    );
}

#[test]
fn leaves_out_a_doubled_target() {
    assert_eq!(
        run(0, strings(&["pacman", "pacman", "-S", "curl"])),
        Ok(HelperRequest::Pacman(strings(&["-S", "curl"])))
    );
    assert_eq!(
        run(0, strings(&["pacman", "pacman", "pacman", "-S"])),
        Ok(HelperRequest::Pacman(strings(&["pacman", "-S"])))
    );
}

#[test]
fn words_its_errors() {
    let none: Vec<String> = Vec::new();
    assert_eq!(HelperError::NotRoot.message(&none), "must be run as root via pkexec");
    assert_eq!(HelperError::NoCommand.message(&none), "no command supplied");
    assert_eq!(
        HelperError::UnsupportedTarget("x".to_string()).message(&none),
        "unsupported target: x"
    );
    assert_eq!(
        HelperError::ProbeFailed("no pgrep".to_string()).message(&none),
        "failed to run pgrep safety check: no pgrep"
    );
    assert_eq!(
        HelperError::PackageManagerActive(strings(&["pacman", "yay"])).message(&none),
        "package manager appears active: pacman, yay"
    );
    assert_eq!(
        HelperError::Rejected(ValidationError::FlagNotAllowed(1)).message(&strings(&["-S", "-x"])),
        "flag not allowed: -x"
    );
}

#[test]
fn lists_the_processes_to_watch() {
    assert_eq!(
        package_managers(),
        strings(&["pacman", "yay", "paru", "pamac", "pkcon", "packagekitd"])
    );
    assert_eq!(
        watched_processes(),
        strings(&["pacman", "yay", "paru", "pamac", "pkcon", "packagekitd", "aurora-helper"])
    );
}

#[test]
fn names_the_running_processes_in_order() {
    let names = strings(&["a", "b", "c", "d"]);
    let probes = vec![
        ProcessProbe::Running,
        ProcessProbe::NotRunning,
        ProcessProbe::Running,
        ProcessProbe::NotRunning,
    ];
    assert_eq!(running_processes(&names, &probes), Ok(strings(&["a", "c"])));
    assert_eq!(running_processes(&names, &quiet(4)), Ok(Vec::new()));
    assert_eq!(running_processes(&Vec::new(), &probes), Ok(Vec::new()));
}

#[test]
fn the_first_failed_probe_decides() {
    let names = strings(&["a", "b", "c"]);
    let probes = vec![
        ProcessProbe::Running,
        ProcessProbe::Failed("first".to_string()),
        ProcessProbe::Failed("second".to_string()),
    ];
    assert_eq!(
        running_processes(&names, &probes),
        Err(ProbeFailure { name: "b".to_string(), error: "first".to_string() })
    );
}

#[test]
fn a_name_without_a_probe_counts_as_failed() {
    let names = strings(&["a", "b"]);
    assert_eq!(
        running_processes(&names, &[ProcessProbe::NotRunning]),
        Err(ProbeFailure { name: "b".to_string(), error: "not probed".to_string() })
    );
}

#[test]
fn reports_active_package_managers() {
    assert_eq!(active_package_managers(&quiet(7)), Ok(Vec::new()));
    let mut probes = quiet(7);
    probes[6] = ProcessProbe::Running;
    probes[1] = ProcessProbe::Running;
    assert_eq!(active_package_managers(&probes), Ok(strings(&["yay", "aurora-helper"])));
    probes[2] = ProcessProbe::Failed("boom".to_string());
    assert_eq!(active_package_managers(&probes), Err("pgrep failed for paru: boom".to_string()));
    assert_eq!(
        active_package_managers(&quiet(6)),
        Err("pgrep failed for aurora-helper: not probed".to_string())
    );
    assert_eq!(running_package_managers(&quiet(6)), Ok(Vec::new()));
    let failed = vec![ProcessProbe::Failed("boom".to_string())];
    assert_eq!(running_package_managers(&failed), Err("failed to run pgrep: boom".to_string()));
}

#[test]
fn clears_the_lock_only_when_nothing_runs() {
    assert_eq!(clear_pacman_lock(&quiet(6), true), Ok(LockAction::Remove));
    assert_eq!(clear_pacman_lock(&quiet(6), false), Ok(LockAction::NothingToRemove));
    let mut probes = quiet(6);
    probes[0] = ProcessProbe::Running;
    probes[5] = ProcessProbe::Running;
    assert_eq!(
        clear_pacman_lock(&probes, true),
        Err(HelperError::PackageManagerActive(strings(&["pacman", "packagekitd"])))
    );
    assert_eq!(
        ensure_no_package_manager_running(&probes),
        Err(HelperError::PackageManagerActive(strings(&["pacman", "packagekitd"])))
    );
    probes[3] = ProcessProbe::Failed("no pgrep".to_string());
    assert_eq!(
        clear_pacman_lock(&probes, true),
        Err(HelperError::ProbeFailed("no pgrep".to_string()))
    );
    assert_eq!(
        clear_pacman_lock(&[], false),
        Err(HelperError::ProbeFailed("not probed".to_string()))
    );
    assert_eq!(ensure_no_package_manager_running(&quiet(6)), Ok(()));
}

#[test]
fn reports_what_became_of_the_lock() {
    assert_eq!(lock_file_path(), "/var/lib/pacman/db.lck");
    assert_eq!(lock_report(LockAction::NothingToRemove), "No pacman lock file present.");
    assert_eq!(
        lock_report(LockAction::Remove),
        "Removed stale pacman lock: /var/lib/pacman/db.lck"
    );
}
