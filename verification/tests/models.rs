use aurora::models::ActionKind;
use aurora::models::AurHelperKind;
use aurora::models::clone_option;
use aurora::models::clone_strings;
use aurora::models::PackageDetails;
use aurora::models::PackageSource;
use aurora::models::PackageSummary;
use aurora::models::Settings;
use aurora::models::TerminalEmulator;
use aurora::models::TerminalMode;
use aurora::models::ThemeMode;
use aurora::models::TransactionAction;
use aurora::models::TransactionQueue;

fn action(name: &str, source: PackageSource, kind: ActionKind, origin: Option<&str>) -> TransactionAction {
    TransactionAction { name: name.to_string(), source, kind, origin: origin.map(|o| o.to_string()) }
}

#[test]
fn pushing_an_action_twice_queues_it_once() {
    let mut queue = TransactionQueue::default();
    assert!(queue.is_empty());
    assert!(queue.push(action("curl", PackageSource::Repo, ActionKind::Install, None)));
    assert_eq!(queue.len(), 1);
    assert!(!queue.push(action("curl", PackageSource::Repo, ActionKind::Install, None)));
    assert_eq!(queue.len(), 1);
    assert!(!queue.is_empty());
}

#[test]
fn actions_differ_by_any_of_their_parts() {
    let mut queue = TransactionQueue::default();
    assert!(queue.push(action("curl", PackageSource::Repo, ActionKind::Install, None)));
    assert!(queue.push(action("curl", PackageSource::Repo, ActionKind::Remove, None)));
    assert!(queue.push(action("curl", PackageSource::Aur, ActionKind::Install, None)));
    assert!(queue.push(action("curl", PackageSource::Repo, ActionKind::Install, Some("x"))));
    assert!(queue.push(action("curl", PackageSource::Repo, ActionKind::Install, Some(""))));
    assert!(queue.push(action("Curl", PackageSource::Repo, ActionKind::Install, None)));
    assert!(!queue.push(action("curl", PackageSource::Repo, ActionKind::Install, Some("x"))));
    assert!(!queue.push(action("curl", PackageSource::Aur, ActionKind::Install, None)));
    assert_eq!(queue.len(), 6);
}

#[test]
fn the_queue_keeps_the_order_of_first_pushes() {
    let mut queue = TransactionQueue::default();
    for name in ["c", "a", "b", "a", "c", "d"] {
        queue.push(action(name, PackageSource::Repo, ActionKind::Install, None));
    }
    let names: Vec<&str> = queue.actions.iter().map(|a| a.name.as_str()).collect();
    assert_eq!(names, vec!["c", "a", "b", "d"]);
    assert_eq!(queue.clone(), queue);
}

#[test]
fn clearing_empties_the_queue() {
    let mut queue = TransactionQueue::default();
    queue.push(action("a", PackageSource::Repo, ActionKind::Install, None));
    queue.push(action("b", PackageSource::Repo, ActionKind::Install, None));
    queue.clear();
    assert_eq!(queue.len(), 0);
    assert!(queue.is_empty());
    assert!(queue.push(action("a", PackageSource::Repo, ActionKind::Install, None)));
}

#[test]
fn same_as_compares_every_part() {
    let a = action("x", PackageSource::Flatpak, ActionKind::Upgrade, Some("flathub"));
    assert!(a.same_as(&a.clone()));
    assert!(!a.same_as(&action("x", PackageSource::Flatpak, ActionKind::Upgrade, None)));
    assert!(!a.same_as(&action("x", PackageSource::Flatpak, ActionKind::Upgrade, Some("other"))));
    assert!(!a.same_as(&action("y", PackageSource::Flatpak, ActionKind::Upgrade, Some("flathub"))));
}

#[test]
fn names_the_community_helpers() {
    assert_eq!(AurHelperKind::Yay.as_str(), "yay");
    assert_eq!(AurHelperKind::Paru.as_str(), "paru");
}

#[test]
fn themes_have_their_places_and_names() {
    let all = ThemeMode::all();
    assert_eq!(
        all,
        vec![
            ThemeMode::System,
            ThemeMode::Light,
            ThemeMode::Dark,
            ThemeMode::Ocean,
            ThemeMode::Emerald,
            ThemeMode::Sunset,
            ThemeMode::Graphite,
        ]
    );
    let labels: Vec<&str> = all.iter().map(|t| t.label()).collect();
    assert_eq!(labels, vec!["System", "Light", "Dark", "Ocean", "Emerald", "Sunset", "Graphite"]);
    for (i, theme) in all.iter().enumerate() {
        assert_eq!(theme.to_index(), i as u32);
        assert_eq!(ThemeMode::from_index(i as u32), *theme);
    }
    assert_eq!(ThemeMode::from_index(7), ThemeMode::System);
    assert_eq!(ThemeMode::from_index(u32::MAX), ThemeMode::System);
}

#[test]
fn terminal_modes_have_their_places_and_names() {
    let all = TerminalMode::all();
    assert_eq!(all, vec![TerminalMode::Integrated, TerminalMode::External]);
    assert_eq!(TerminalMode::Integrated.label(), "Integrated Logs");
    assert_eq!(TerminalMode::External.label(), "External Terminal");
    for (i, mode) in all.iter().enumerate() {
        assert_eq!(mode.to_index(), i as u32);
        assert_eq!(TerminalMode::from_index(i as u32), *mode);
    }
    assert_eq!(TerminalMode::from_index(2), TerminalMode::Integrated);
}

#[test]
fn terminals_have_their_places_and_names() {
    let all = TerminalEmulator::all();
    assert_eq!(
        all,
        vec![
            TerminalEmulator::Auto,
            TerminalEmulator::Kitty,
            TerminalEmulator::Konsole,
            TerminalEmulator::Alacritty,
        ]
    );
    let labels: Vec<&str> = all.iter().map(|t| t.label()).collect();
    assert_eq!(labels, vec!["Auto", "Kitty", "Konsole", "Alacritty"]);
    for (i, terminal) in all.iter().enumerate() {
        assert_eq!(terminal.to_index(), i as u32);
        assert_eq!(TerminalEmulator::from_index(i as u32), *terminal);
    }
    assert_eq!(TerminalEmulator::from_index(4), TerminalEmulator::Auto);
}

#[test]
fn settings_start_cautious() {
    let s = Settings::default();
    assert_eq!(s.aur_helper, AurHelperKind::Yay);
    assert!(!s.allow_noconfirm);
    assert_eq!(s.theme, ThemeMode::System);
    assert_eq!(s.terminal_mode, TerminalMode::Integrated);
    assert_eq!(s.terminal_emulator, TerminalEmulator::Auto);
}

#[test]
fn copies_are_equal_to_their_originals() {
    let summary = PackageSummary {
        name: "n".to_string(),
        summary: "s".to_string(),
        version: "1".to_string(),
        source: PackageSource::Flatpak,
        installed: true,
        origin: Some("flathub".to_string()),
    };
    assert_eq!(summary.clone(), summary);
    let details = PackageDetails {
        name: "n".to_string(),
        summary: "s".to_string(),
        description: "d".to_string(),
        version: "1".to_string(),
        source: PackageSource::Aur,
        installed: false,
        size: Some("1 MiB".to_string()),
        home: None,
        screenshots: vec!["a".to_string(), "b".to_string()],
        icon_name: Some("i".to_string()),
    };
    assert_eq!(details.clone(), details);
    assert_eq!(clone_option(&Some("x".to_string())), Some("x".to_string()));
    assert_eq!(clone_option(&None), None);
    assert_eq!(clone_strings(&vec!["a".to_string(), String::new()]), vec!["a".to_string(), String::new()]);
}
