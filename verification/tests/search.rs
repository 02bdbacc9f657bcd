use aurora::cache::find_logo_path;
use aurora::cache::logo_candidates;
use aurora::cache::screenshots_dir;
use aurora::cache::settings_file;
use aurora::drawer::DEFAULT_LOG_HEIGHT;
use aurora::drawer::DEFAULT_LOG_LIMIT;
use aurora::drawer::DrawerLayout;
use aurora::drawer::LOG_HEADER_HEIGHT;
use aurora::drawer::MAX_LOG_HEIGHT;
use aurora::drawer::MIN_LOG_HEIGHT;
use aurora::models::PackageSource;
use aurora::models::PackageSummary;
use aurora::search::filter_installed;
use aurora::search::filter_results;
use aurora::search::mark_installed;
use aurora::search::merge_results;
use aurora::search::name_le;
use aurora::search::results_status;

fn entry(name: &str, source: PackageSource, installed: bool, version: &str) -> PackageSummary {
    PackageSummary {
        name: name.to_string(),
        summary: String::new(),
        version: version.to_string(),
        source,
        installed,
        origin: None,
    }
}

fn chars(s: &str) -> Vec<char> {
    s.chars().collect()
}

fn sample() -> Vec<PackageSummary> {
    vec![
        entry("curl", PackageSource::Repo, true, "8"),
        entry("Zed", PackageSource::Aur, false, "1"),
        entry("org.x.App", PackageSource::Flatpak, true, "2"),
        entry("yay", PackageSource::Aur, true, "12"),
        entry("wget", PackageSource::Repo, false, "1"),
    ]
}

#[test]
fn orders_names_as_the_standard_library_orders_strings() {
    let names = ["", "a", "A", "ab", "abc", "b", "aé", "az", "é", "z", "ａ", "a b", "a-b", "😀", "\u{ffff}"];
    for a in names {
        for b in names {
            assert_eq!(name_le(&chars(a), &chars(b)), a <= b, "{a:?} {b:?}");
        }
    }
}

#[test]
fn merges_what_a_search_found() {
    let found = vec![
        entry("wget", PackageSource::Repo, false, "1"),
        entry("curl", PackageSource::Repo, false, "old"),
        entry("curl", PackageSource::Repo, true, "new"),
        entry("Zed", PackageSource::Aur, false, "1"),
        entry("apple", PackageSource::Flatpak, false, "3"),
    ];
    assert_eq!(
        merge_results(found),
        vec![
            entry("Zed", PackageSource::Aur, false, "1"),
            entry("apple", PackageSource::Flatpak, false, "3"),
            entry("curl", PackageSource::Repo, true, "new"),
            entry("wget", PackageSource::Repo, false, "1"),
        ]
    );
    assert_eq!(merge_results(Vec::new()), Vec::new());
}

#[test]
fn keeps_one_entry_for_each_source_of_a_name() {
    let found = vec![
        entry("curl", PackageSource::Repo, false, "1"),
        entry("curl", PackageSource::Aur, false, "2"),
        entry("curl", PackageSource::Flatpak, false, "3"),
        entry("curl", PackageSource::Aur, false, "4"),
    ];
    let merged = merge_results(found);
    assert_eq!(merged.len(), 3);
    assert!(merged.iter().all(|p| p.name == "curl"));
    assert!(merged.contains(&entry("curl", PackageSource::Repo, false, "1")));
    assert!(merged.contains(&entry("curl", PackageSource::Aur, false, "4")));
    assert!(merged.contains(&entry("curl", PackageSource::Flatpak, false, "3")));
}

#[test]
fn a_merge_is_sorted_whatever_comes_in() {
    let mut found = Vec::new();
    let mut seed: u64 = 7;
    for _ in 0..200 {
        seed = seed.wrapping_mul(6364136223846793005).wrapping_add(1442695040888963407);
        let name = format!("p{}", (seed >> 33) % 50);
        let source = match (seed >> 20) % 3 {
            0 => PackageSource::Repo,
            1 => PackageSource::Aur,
            _ => PackageSource::Flatpak,
        };
        found.push(entry(&name, source, false, &format!("{}", found.len())));
    }
    let merged = merge_results(found.clone());
    for pair in merged.windows(2) {
        assert!(pair[0].name <= pair[1].name);
        assert!(pair[0].name != pair[1].name || pair[0].source != pair[1].source);
    }
    for p in &merged {
        let last = found.iter().rev().find(|f| f.name == p.name && f.source == p.source);
        assert_eq!(last, Some(p));
    }
    for f in &found {
        assert!(merged.iter().any(|p| p.name == f.name && p.source == f.source));
    }
}

#[test]
fn marks_what_is_installed() {
    let mut results = sample();
    mark_installed(&mut results, &vec!["wget".to_string(), "Zed".to_string(), "other".to_string()]);
    let marks: Vec<bool> = results.iter().map(|p| p.installed).collect();
    assert_eq!(marks, vec![false, true, false, false, true]);
    let names: Vec<String> = results.iter().map(|p| p.name.clone()).collect();
    let before: Vec<String> = sample().iter().map(|p| p.name.clone()).collect();
    assert_eq!(names, before);
    mark_installed(&mut results, &Vec::new());
    assert!(results.iter().all(|p| !p.installed));
}

#[test]
fn filters_search_results_by_source_and_state() {
    let all = sample();
    assert_eq!(filter_results(&all, 0, 0), all);
    assert_eq!(filter_results(&all, 1, 0), vec![all[0].clone(), all[4].clone()]);
    assert_eq!(filter_results(&all, 2, 1), vec![all[3].clone()]);
    assert_eq!(filter_results(&all, 2, 2), vec![all[1].clone()]);
    assert_eq!(filter_results(&all, 3, 2), Vec::new());
    assert_eq!(filter_results(&all, 9, 1), vec![all[0].clone(), all[2].clone(), all[3].clone()]);
    assert_eq!(results_status(0), "No results found for selected filters.");
    assert_eq!(results_status(17), "17 results");
}

#[test]
fn filters_installed_packages_by_name_and_source() {
    let all = sample();
    assert_eq!(filter_installed(&all, 0, ""), all);
    assert_eq!(filter_installed(&all, 0, "e"), vec![all[1].clone(), all[4].clone()]);
    assert_eq!(filter_installed(&all, 2, "z"), vec![all[1].clone()]);
    assert_eq!(filter_installed(&all, 1, "z"), Vec::new());
    assert_eq!(filter_installed(&all, 0, "Z"), Vec::new());
    assert_eq!(filter_installed(&all, 3, "app"), vec![all[2].clone()]);
}

#[test]
fn the_log_view_keeps_its_height_in_bounds() {
    assert_eq!(DEFAULT_LOG_LIMIT, 1000);
    let mut layout = DrawerLayout::new();
    assert_eq!(layout.height, DEFAULT_LOG_HEIGHT);
    assert_eq!(layout.height_request(), (220 + LOG_HEADER_HEIGHT) as i64);
    layout.shorter();
    assert_eq!((layout.height, layout.expanded_height), (180, 180));
    for _ in 0..10 {
        layout.shorter();
    }
    assert_eq!(layout.height, MIN_LOG_HEIGHT);
    layout.taller();
    assert_eq!(layout.height, 112);
    for _ in 0..30 {
        layout.taller();
    }
    assert_eq!((layout.height, layout.expanded_height), (MAX_LOG_HEIGHT, MAX_LOG_HEIGHT));
}

#[test]
fn the_log_view_folds_and_unfolds() {
    let mut layout = DrawerLayout::new();
    layout.taller();
    layout.toggle_minimized();
    assert_eq!(layout, DrawerLayout { height: 72, expanded_height: 260, minimized: true });
    layout.toggle_minimized();
    assert_eq!(layout, DrawerLayout { height: 260, expanded_height: 260, minimized: false });
}

#[test]
fn the_log_view_follows_a_drag() {
    let mut layout = DrawerLayout::new();
    layout.drag(220, -100);
    assert_eq!(layout, DrawerLayout { height: 320, expanded_height: 320, minimized: false });
    layout.drag(320, 1000);
    assert_eq!(layout, DrawerLayout { height: 72, expanded_height: 320, minimized: false });
    layout.toggle_minimized();
    layout.toggle_minimized();
    layout.toggle_minimized();
    assert!(layout.minimized);
    layout.drag(72, -1);
    assert_eq!(layout, DrawerLayout { height: 73, expanded_height: 73, minimized: false });
    layout.drag(i32::MIN, i32::MAX);
    assert_eq!(layout.height, 72);
    layout.drag(i32::MAX, i32::MIN);
    assert_eq!(layout.height, 900);
}

#[test]
fn looks_for_the_logo_in_order() {
    let places = logo_candidates();
    assert_eq!(places.len(), 7);
    assert_eq!(places[0], "assets/logo.svg");
    assert_eq!(places[6], "/usr/share/icons/hicolor/256x256/apps/io.github.ahmoodio.aurora.png");
    assert_eq!(find_logo_path(&[false; 7]), None);
    assert_eq!(find_logo_path(&[]), None);
    assert_eq!(find_logo_path(&[false, true, false, true, false, false, false]), Some(places[1].clone()));
    assert_eq!(find_logo_path(&[true; 7]), Some(places[0].clone()));
    assert_eq!(find_logo_path(&[false, false, false, false, false, false, true]), Some(places[6].clone()));
    assert_eq!(find_logo_path(&[false, false, false, false, false, false, false, true]), None);
}

#[test]
fn keeps_its_files_below_the_assigned_directories() {
    assert_eq!(screenshots_dir("/home/u/.cache/aurora"), "/home/u/.cache/aurora/screenshots");
    assert_eq!(settings_file("/home/u/.config/aurora"), "/home/u/.config/aurora/settings.json");
    assert_eq!(settings_file("/home/u/.config/aurora/"), "/home/u/.config/aurora/settings.json");
}
