use aurora::models::AurHelperKind;
use aurora::models::PackageDetails;
use aurora::models::PackageSource;
use aurora::models::PackageSummary;
use aurora::providers::aur::Aur;
use aurora::providers::flatpak::Flatpak;
use aurora::providers::pacman::Pacman;
use aurora::providers::pacman::search_args;
use aurora::providers::parse_table;
use aurora::providers::TableFormat;
use aurora::runner::CommandSpec;

fn strings(items: &[&str]) -> Vec<String> {
    items.iter().map(|s| s.to_string()).collect()
}

fn summary(name: &str, text: &str, version: &str, source: PackageSource) -> PackageSummary {
    PackageSummary {
        name: name.to_string(),
        summary: text.to_string(),
        version: version.to_string(),
        source,
        installed: false,
        origin: None,
    }
}

fn blank(source: PackageSource, installed: bool) -> PackageDetails {
    PackageDetails {
        name: String::new(),
        summary: String::new(),
        description: String::new(),
        version: String::new(),
        source,
        installed,
        size: None,
        home: None,
        screenshots: Vec::new(),
        icon_name: None,
    }
}

#[test]
fn reads_search_results_of_the_repository() {
    let output = "core/curl 8.5.0-1 [installed]\n    command line tool for URLs\nextra/wget 1.21-2\n    network downloader\n";
    assert_eq!(
        Pacman::parse_search_output(output),
        vec![
            summary("curl", "command line tool for URLs", "8.5.0-1", PackageSource::Repo),
            summary("wget", "network downloader", "1.21-2", PackageSource::Repo),
        ]
    );
}

#[test]
fn reads_search_results_of_the_community_repository() {
    let output = "aur/yay 12.0-1 (+100 1.0)\n    Yet another yogurt\n";
    assert_eq!(
        Aur::parse_search_output(output),
        vec![summary("yay", "Yet another yogurt", "12.0-1", PackageSource::Aur)]
    );
}

#[test]
fn search_results_pass_over_blank_lines_between_entries() {
    let output = "\n  \ncore/a 1\n  first\n\n\ncore/b 2\n  second";
    assert_eq!(
        Pacman::parse_search_output(output),
        vec![
            summary("a", "first", "1", PackageSource::Repo),
            summary("b", "second", "2", PackageSource::Repo),
        ]
    );
}

#[test]
fn a_header_takes_the_line_below_whatever_it_holds() {
    assert_eq!(
        Pacman::parse_search_output("core/a 1\n\ncore/b 2\n"),
        vec![
            summary("a", "", "1", PackageSource::Repo),
            summary("b", "", "2", PackageSource::Repo),
        ]
    );
    assert_eq!(
        Pacman::parse_search_output("core/a 1\ncore/b 2\nrest"),
        vec![
            summary("a", "core/b 2", "1", PackageSource::Repo),
            summary("rest", "", "", PackageSource::Repo),
        ]
    );
    assert_eq!(Pacman::parse_search_output(""), Vec::new());
    assert_eq!(Pacman::parse_search_output("\n\n"), Vec::new());
}

#[test]
fn a_package_name_is_what_follows_the_repository() {
    assert_eq!(Pacman::parse_search_output("curl 1\nx")[0].name, "curl");
    assert_eq!(Pacman::parse_search_output("a/b/c 1\nx")[0].name, "b");
    assert_eq!(Pacman::parse_search_output("a/ 1\nx")[0].name, "");
    assert_eq!(Pacman::parse_search_output("/b\nx")[0].name, "b");
    assert_eq!(Pacman::parse_search_output("/b\nx")[0].version, "");
}

#[test]
fn reads_the_description_of_a_package() {
    let output = "Repository      : core\nName            : curl\nVersion         : 8.5.0-1\nDescription     : command line tool: for URLs\nURL             : https://curl.se\nInstalled Size  : 1.2 MiB\nno colon here\n";
    let expected = PackageDetails {
        name: "curl".to_string(),
        summary: "command line tool: for URLs".to_string(),
        description: "command line tool: for URLs".to_string(),
        version: "8.5.0-1".to_string(),
        size: Some("1.2 MiB".to_string()),
        home: Some("https://curl.se".to_string()),
        ..blank(PackageSource::Repo, false)
    };
    assert_eq!(Pacman::parse_info(output, PackageSource::Repo), expected);
    assert_eq!(
        Aur::parse_info(output),
        PackageDetails { source: PackageSource::Aur, ..expected.clone() }
    );
    assert_eq!(
        Pacman::parse_installed_info(output),
        PackageDetails { installed: true, ..expected }
    );
}

#[test]
fn a_field_given_twice_has_its_last_value() {
    let output = "Name: a\nDownload Size: 1\nInstalled Size: 2\nName: b\nname: c\n Name : d \n";
    let details = Pacman::parse_info(output, PackageSource::Repo);
    assert_eq!(details.name, "d");
    assert_eq!(details.size, Some("2".to_string()));
    assert_eq!(Pacman::parse_info("", PackageSource::Aur), blank(PackageSource::Aur, false));
    assert_eq!(Pacman::parse_info("URL:", PackageSource::Repo).home, Some(String::new()));
}

#[test]
fn reads_the_description_of_an_app() {
    let output = "\n        Firefox - Web browser\n\n          ID: org.mozilla.firefox\n     Version: 120.0\n Application: org.mozilla.firefox\n Description: A browser\n     Website: https://mozilla.org\nInstalled Size: 300 MB\n";
    assert_eq!(
        Flatpak::parse_info(output),
        PackageDetails {
            name: "org.mozilla.firefox".to_string(),
            summary: "A browser".to_string(),
            description: "A browser".to_string(),
            version: "120.0".to_string(),
            size: Some("300 MB".to_string()),
            home: Some("https://mozilla.org".to_string()),
            ..blank(PackageSource::Flatpak, true)
        }
    );
    let with_summary = Flatpak::parse_info("Summary: short\nDescription: long\nURL: u\nDownload Size: 9");
    assert_eq!(with_summary.summary, "short");
    assert_eq!(with_summary.description, "long");
    assert_eq!(with_summary.home, Some("u".to_string()));
    assert_eq!(with_summary.size, None);
}

#[test]
fn reads_the_list_of_installed_packages() {
    let output = "curl 8.5.0-1\nwget 1.21-2\n\n  \nlonely\n";
    let installed = |name: &str, version: &str| PackageSummary {
        installed: true,
        ..summary(name, "", version, PackageSource::Repo)
    };
    assert_eq!(
        Pacman::parse_installed(output),
        vec![installed("curl", "8.5.0-1"), installed("wget", "1.21-2"), installed("lonely", "")]
    );
    assert_eq!(parse_table(output, TableFormat::PacmanInstalled), Pacman::parse_installed(output));
}

#[test]
fn reads_search_results_of_the_app_manager() {
    let output = "org.x.App\tAn app\t1.0\tstable\tflathub\norg.y.App\t\t\tbeta\t\n\t\t\t\t\n\norg.z.App\n";
    assert_eq!(
        Flatpak::parse_search(output),
        vec![
            PackageSummary {
                origin: Some("flathub".to_string()),
                ..summary("org.x.App", "An app", "1.0", PackageSource::Flatpak)
            },
            summary("org.y.App", "", "beta", PackageSource::Flatpak),
            summary("org.z.App", "", "", PackageSource::Flatpak),
        ]
    );
}

#[test]
fn reads_the_list_of_installed_apps() {
    let output = "org.x.App\tAn app\t1.0\tstable\tflathub\n org.y.App \t d \t\t beta \n";
    let installed = |name: &str, text: &str, version: &str| PackageSummary {
        installed: true,
        ..summary(name, text, version, PackageSource::Flatpak)
    };
    assert_eq!(
        Flatpak::parse_list(output),
        vec![installed("org.x.App", "An app", "1.0"), installed("org.y.App", "d", "beta")]
    );
}

#[test]
fn a_search_needs_a_word() {
    assert_eq!(search_args(""), None);
    assert_eq!(search_args(" \t\n"), None);
    assert_eq!(search_args("curl"), Some(strings(&["-Ss", "curl"])));
    assert_eq!(search_args("  web   browser "), Some(strings(&["-Ss", "web", "browser"])));
    assert_eq!(Pacman::search_command(" "), None);
    assert_eq!(
        Pacman::search_command("a b"),
        Some(CommandSpec::new("pacman", strings(&["-Ss", "a", "b"])))
    );
}

#[test]
fn builds_the_queries_of_each_source() {
    assert_eq!(Pacman::info_repo_command("curl"), CommandSpec::new("pacman", strings(&["-Si", "curl"])));
    assert_eq!(
        Pacman::info_installed_command("curl"),
        CommandSpec::new("pacman", strings(&["-Qi", "curl"]))
    );
    assert_eq!(Pacman::list_installed_command(), CommandSpec::new("pacman", strings(&["-Q"])));
    let paru = Aur::new(AurHelperKind::Paru);
    assert_eq!(paru.helper_bin(), "paru");
    assert_eq!(Aur::new(AurHelperKind::Yay).helper_bin(), "yay");
    assert_eq!(paru.search_command("x y"), Some(CommandSpec::new("paru", strings(&["-Ss", "x", "y"]))));
    assert_eq!(paru.search_command(""), None);
    assert_eq!(paru.info_command("x"), CommandSpec::new("paru", strings(&["-Si", "x"])));
    assert_eq!(
        Flatpak::search_command("fire fox"),
        CommandSpec::new(
            "flatpak",
            strings(&["search", "--columns=application,description,version,branch,remote", "fire fox"])
        )
    );
    assert_eq!(Flatpak::info_command("org.x"), CommandSpec::new("flatpak", strings(&["info", "org.x"])));
    assert_eq!(
        Flatpak::list_installed_command(),
        CommandSpec::new(
            "flatpak",
            strings(&["list", "--app", "--columns=application,description,version,branch"])
        )
    );
}
