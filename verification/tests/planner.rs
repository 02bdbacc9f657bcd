use aurora::helper::HelperRequest;
use aurora::helper::run;
use aurora::helper::validate_pacman;
use aurora::helper::ValidationError;
use aurora::models::ActionKind;
use aurora::models::AurHelperKind;
use aurora::models::PackageSource;
use aurora::models::Settings;
use aurora::models::TransactionAction;
use aurora::models::TransactionQueue;
use aurora::runner::CommandSpec;
use aurora::transactions::command_for_action;
use aurora::transactions::helper_file_name;
use aurora::transactions::helper_path;
use aurora::transactions::plan_transactions;

const HELPER: &str = "/usr/bin/aurora-helper";

fn strings(items: &[&str]) -> Vec<String> {
    items.iter().map(|s| s.to_string()).collect()
}

fn action(name: &str, source: PackageSource, kind: ActionKind) -> TransactionAction {
    TransactionAction { name: name.to_string(), source, kind, origin: None }
}

fn opted_in() -> Settings {
    Settings { allow_noconfirm: true, ..Settings::default() }
}

fn planned(action: &TransactionAction, settings: &Settings) -> (String, Vec<String>) {
    let command = command_for_action(action, settings, HELPER).unwrap();
    assert_eq!(command.env, vec![("LC_ALL".to_string(), "C".to_string())]);
    (command.program, command.args)
}

#[test]
fn repository_actions_go_through_the_helper() {
    let s = Settings::default();
    assert_eq!(
        planned(&action("curl", PackageSource::Repo, ActionKind::Install), &s),
        ("pkexec".to_string(), strings(&[HELPER, "pacman", "-S", "curl"]))
    );
    assert_eq!(
        planned(&action("curl", PackageSource::Repo, ActionKind::Remove), &s),
        ("pkexec".to_string(), strings(&[HELPER, "pacman", "-Rns", "curl"]))
    );
    assert_eq!(
        planned(&action("system", PackageSource::Repo, ActionKind::Upgrade), &s),
        ("pkexec".to_string(), strings(&[HELPER, "pacman", "-Syu"]))
    );
}

#[test]
fn confirmation_is_skipped_only_on_request() {
    let s = opted_in();
    assert_eq!(
        planned(&action("curl", PackageSource::Repo, ActionKind::Install), &s).1,
        strings(&[HELPER, "pacman", "-S", "--noconfirm", "curl"])
    );
    assert_eq!(
        planned(&action("system", PackageSource::Repo, ActionKind::Upgrade), &s).1,
        strings(&[HELPER, "pacman", "-Syu", "--noconfirm"])
    );
    assert_eq!(
        planned(&action("x", PackageSource::Flatpak, ActionKind::Remove), &s).1,
        strings(&["uninstall", "-y", "x"])
    );
}

#[test]
fn community_actions_run_the_chosen_helper() {
    let yay = Settings::default();
    let paru = Settings { aur_helper: AurHelperKind::Paru, allow_noconfirm: true, ..yay };
    assert_eq!(
        planned(&action("foo", PackageSource::Aur, ActionKind::Install), &yay),
        (
            "yay".to_string(),
            strings(&["-S", "foo", "--sudo", "pkexec", "--sudoflags", "/usr/bin/aurora-helper pacman"])
        )
    );
    assert_eq!(
        planned(&action("foo", PackageSource::Aur, ActionKind::Remove), &paru),
        (
            "paru".to_string(),
            strings(&[
                "-Rns",
                "--noconfirm",
                "foo",
                "--sudo",
                "pkexec",
                "--sudoflags",
                "/usr/bin/aurora-helper pacman"
            ])
        )
    );
    assert_eq!(
        planned(&action("aur", PackageSource::Aur, ActionKind::Upgrade), &yay).1,
        strings(&["-Syu", "--sudo", "pkexec", "--sudoflags", "/usr/bin/aurora-helper pacman"])
    );
}

#[test]
fn sandboxed_apps_are_handled_directly() {
    let s = Settings::default();
    assert_eq!(
        planned(&action("org.x.App", PackageSource::Flatpak, ActionKind::Install), &s),
        ("flatpak".to_string(), strings(&["install", "org.x.App"]))
    );
    assert_eq!(
        planned(&action("org.x.App", PackageSource::Flatpak, ActionKind::Remove), &s),
        ("flatpak".to_string(), strings(&["uninstall", "org.x.App"]))
    );
    assert_eq!(
        planned(&action("org.x.App", PackageSource::Flatpak, ActionKind::Upgrade), &s),
        ("flatpak".to_string(), strings(&["update", "org.x.App"]))
    );
}

#[test]
fn an_install_names_its_remote() {
    let mut a = action("org.x.App", PackageSource::Flatpak, ActionKind::Install);
    a.origin = Some("flathub".to_string());
    assert_eq!(planned(&a, &opted_in()).1, strings(&["install", "-y", "flathub", "org.x.App"]));
    a.origin = Some(String::new());
    assert_eq!(planned(&a, &opted_in()).1, strings(&["install", "-y", "org.x.App"]));
    a.kind = ActionKind::Remove;
    a.origin = Some("flathub".to_string());
    assert_eq!(planned(&a, &Settings::default()).1, strings(&["uninstall", "org.x.App"]));
}

#[test]
fn an_update_of_everything_names_no_app() {
    let s = Settings::default();
    for name in ["flatpak", "all", ""] {
        assert_eq!(
            planned(&action(name, PackageSource::Flatpak, ActionKind::Upgrade), &s).1,
            strings(&["update"]),
            "{name:?}"
        );
    }
    assert_eq!(
        planned(&action("All", PackageSource::Flatpak, ActionKind::Upgrade), &opted_in()).1,
        strings(&["update", "-y", "All"])
    );
}

#[test]
fn plans_one_command_for_each_action_in_order() {
    let mut queue = TransactionQueue::default();
    let actions = vec![
        action("b", PackageSource::Flatpak, ActionKind::Install),
        action("a", PackageSource::Repo, ActionKind::Remove),
        action("c", PackageSource::Aur, ActionKind::Install),
        action("system", PackageSource::Repo, ActionKind::Upgrade),
    ];
    for a in &actions {
        assert!(queue.push(a.clone()));
    }
    let settings = Settings::default();
    let plan = plan_transactions(&queue, &settings, HELPER);
    assert_eq!(plan.commands.len(), 4);
    for (i, a) in actions.iter().enumerate() {
        assert_eq!(Some(plan.commands[i].clone()), command_for_action(a, &settings, HELPER));
    }
    assert_eq!(plan.clone(), plan);
}

#[test]
fn an_empty_queue_has_an_empty_plan() {
    let plan = plan_transactions(&TransactionQueue::default(), &Settings::default(), HELPER);
    assert_eq!(plan.commands, Vec::<CommandSpec>::new());
}

#[test]
fn prefers_the_helper_beside_the_program() {
    assert_eq!(helper_path(None), "/usr/bin/aurora-helper");
    assert_eq!(helper_path(Some("/opt/aurora/aurora-helper".to_string())), "/opt/aurora/aurora-helper");
    assert_eq!(helper_file_name(), "aurora-helper");
}

#[test]
fn the_helper_path_is_passed_on_as_it_is() {
    let a = action("curl", PackageSource::Repo, ActionKind::Install);
    let command = command_for_action(&a, &Settings::default(), "/odd path/helper").unwrap();
    assert_eq!(command.args[0], "/odd path/helper");
    let b = action("foo", PackageSource::Aur, ActionKind::Install);
    let command = command_for_action(&b, &Settings::default(), "/odd path/helper").unwrap();
    assert_eq!(command.args.last().unwrap(), "/odd path/helper pacman");
}

#[test]
fn what_is_planned_for_the_repository_passes_the_helper() {
    for settings in [Settings::default(), opted_in()] {
        for (name, kind, expected) in [
            ("curl", ActionKind::Install, Ok(())),
            ("gtk+-3.0", ActionKind::Remove, Ok(())),
            ("anything at all", ActionKind::Upgrade, Ok(())),
            ("rm -rf /", ActionKind::Install, Err(ValidationError::InvalidPackageName(0))),
            ("--noconfirm", ActionKind::Install, Err(ValidationError::NoPackages)),
            ("--overwrite", ActionKind::Remove, Err(ValidationError::FlagRequiresValue(0))),
            ("-x", ActionKind::Install, Err(ValidationError::FlagNotAllowed(0))),
        ] {
            let command = command_for_action(&action(name, PackageSource::Repo, kind), &settings, HELPER).unwrap();
            assert_eq!(command.program, "pkexec");
            let request = run(0, command.args[1..].to_vec());
            let Ok(HelperRequest::Pacman(vector)) = request else {
                panic!("the helper was not asked for the repository manager");
            };
            assert_eq!(vector, command.args[2..].to_vec());
            let last = vector.len() - 1;
            let expected = match expected {
                Err(ValidationError::InvalidPackageName(_)) => Err(ValidationError::InvalidPackageName(last)),
                Err(ValidationError::FlagRequiresValue(_)) => Err(ValidationError::FlagRequiresValue(last)),
                Err(ValidationError::FlagNotAllowed(_)) => Err(ValidationError::FlagNotAllowed(last)),
                other => other,
            };
            assert_eq!(validate_pacman(&vector, &[]), expected, "{name:?}");
        }
    }
}
