use aurora::appstream::AppStreamClient;
use aurora::appstream::AppStreamComponent;
use aurora::appstream::Json;
use aurora::details::as_installed_aur;
use aurora::details::details_or_fallback;
use aurora::details::enrich;
use aurora::details::fallback_details;
use aurora::details::installed_summary;
use aurora::models::PackageDetails;
use aurora::models::PackageSource;
use aurora::models::PackageSummary;
use aurora::paths::join_path;

fn text(s: &str) -> Json {
    Json::Text(s.to_string())
}

fn object(members: Vec<(&str, Json)>) -> Json {
    Json::Object(members.into_iter().map(|(k, v)| (k.to_string(), v)).collect())
}

fn component(id: &str) -> AppStreamComponent {
    AppStreamComponent { id: id.to_string(), summary: None, icon_name: None, screenshots: Vec::new() }
}

fn document(component: Json) -> Json {
    object(vec![("components", Json::Array(vec![component]))])
}

#[test]
fn reads_a_component_from_a_document() {
    let doc = document(object(vec![
        ("id", text("org.x.App")),
        ("summary", text("An app")),
        (
            "icons",
            Json::Array(vec![
                object(vec![("kind", text("cached"))]),
                object(vec![("name", Json::Number)]),
                object(vec![("name", text("org.x.App.png"))]),
                object(vec![("name", text("other.png"))]),
            ]),
        ),
        (
            "screenshots",
            Json::Array(vec![
                object(vec![(
                    "images",
                    Json::Array(vec![
                        object(vec![("width", Json::Number)]),
                        object(vec![("url", text("https://x/1.png"))]),
                        object(vec![("url", text("https://x/1-small.png"))]),
                    ]),
                )]),
                object(vec![("images", Json::Array(Vec::new()))]),
                object(vec![("caption", text("none"))]),
                Json::Null,
                object(vec![("images", Json::Array(vec![object(vec![("url", text("https://x/2.png"))])]))]),
            ]),
        ),
    ]));
    assert_eq!(
        AppStreamClient::component_from_json(&doc),
        Some(AppStreamComponent {
            id: "org.x.App".to_string(),
            summary: Some("An app".to_string()),
            icon_name: Some("org.x.App.png".to_string()),
            screenshots: vec!["https://x/1.png".to_string(), "https://x/2.png".to_string()],
        })
    );
}

#[test]
fn a_component_needs_an_id() {
    assert_eq!(AppStreamClient::component_from_json(&Json::Null), None);
    assert_eq!(AppStreamClient::component_from_json(&object(Vec::new())), None);
    assert_eq!(AppStreamClient::component_from_json(&object(vec![("components", text("x"))])), None);
    assert_eq!(
        AppStreamClient::component_from_json(&object(vec![("components", Json::Array(Vec::new()))])),
        None
    );
    assert_eq!(AppStreamClient::component_from_json(&document(object(vec![("id", Json::Bool(true))]))), None);
    assert_eq!(AppStreamClient::component_from_json(&document(text("org.x"))), None);
    assert_eq!(
        AppStreamClient::component_from_json(&document(object(vec![("id", text("org.x"))]))),
        Some(component("org.x"))
    );
}

#[test]
fn only_the_first_component_counts() {
    let doc = object(vec![(
        "components",
        Json::Array(vec![object(vec![("summary", text("no id"))]), object(vec![("id", text("second"))])]),
    )]);
    assert_eq!(AppStreamClient::component_from_json(&doc), None);
}

#[test]
fn looks_members_up_by_name() {
    let doc = object(vec![("a", text("1")), ("b", Json::Array(vec![Json::Null])), ("a", text("2"))]);
    assert_eq!(doc.get("a"), Some(&text("1")));
    assert_eq!(doc.get("c"), None);
    assert_eq!(text("x").get("a"), None);
    assert_eq!(doc.text_member("a"), Some("1".to_string()));
    assert_eq!(doc.text_member("b"), None);
    assert_eq!(doc.array_member("b"), Some(&vec![Json::Null]));
    assert_eq!(doc.array_member("a"), None);
    assert_eq!(text("x").as_str(), Some(&"x".to_string()));
    assert_eq!(Json::Number.as_str(), None);
    assert_eq!(Json::Bool(false).as_array(), None);
}

#[test]
fn reads_a_component_from_plain_text() {
    let answer = "Searching...\n  Identifier: x\n   org.mozilla.firefox.desktop  \nother.metainfo.xml\n";
    assert_eq!(
        AppStreamClient::component_from_text(answer),
        Some(component("org.mozilla.firefox.desktop"))
    );
    assert_eq!(
        AppStreamClient::component_from_text("a.metainfo.xml"),
        Some(component("a.metainfo.xml"))
    );
    assert_eq!(AppStreamClient::component_from_text("desktop\nmetainfo\nfoo.bar\n"), None);
    assert_eq!(AppStreamClient::component_from_text(""), None);
}

#[test]
fn a_search_falls_back_to_plain_text() {
    let doc = document(object(vec![("id", text("from.json"))]));
    assert_eq!(
        AppStreamClient::search_component(Some(&doc), "from.text.desktop"),
        Some(component("from.json"))
    );
    assert_eq!(
        AppStreamClient::search_component(None, "from.text.desktop"),
        Some(component("from.text.desktop"))
    );
    assert_eq!(AppStreamClient::search_component(Some(&Json::Null), "from.text.desktop"), None);
    assert_eq!(AppStreamClient::get_component(Some(&doc)), Some(component("from.json")));
    assert_eq!(AppStreamClient::get_component(None), None);
}

#[test]
fn builds_the_queries_of_the_catalogue() {
    assert_eq!(AppStreamClient::search_args("fire fox"), vec!["search", "fire fox", "--format=json"]);
    assert_eq!(AppStreamClient::get_args("org.x"), vec!["get", "org.x", "--format=json"]);
}

#[test]
fn keeps_a_file_under_the_last_segment_of_its_address() {
    let at = |address: &str| AppStreamClient::cached_path_for_url(address, "/home/u/.cache/aurora/screenshots");
    assert_eq!(
        at("https://example.com/shots/one.png"),
        Some("/home/u/.cache/aurora/screenshots/one.png".to_string())
    );
    assert_eq!(
        at("https://example.com/a/b/c%20d.png?size=big#top"),
        Some("/home/u/.cache/aurora/screenshots/c%20d.png".to_string())
    );
    assert_eq!(at("https://example.com"), Some("/home/u/.cache/aurora/screenshots/".to_string()));
    assert_eq!(at("https://example.com/dir/"), Some("/home/u/.cache/aurora/screenshots/".to_string()));
    assert_eq!(
        at("https://example.com/a/../b/./one.png"),
        Some("/home/u/.cache/aurora/screenshots/one.png".to_string())
    );
}

#[test]
fn an_address_that_names_no_file_has_no_place() {
    for address in ["", "one.png", "/shots/one.png", "not a url", "data:text/plain,Hello", "mailto:a@b"] {
        assert_eq!(AppStreamClient::cached_path_for_url(address, "/cache"), None, "{address:?}");
    }
}

#[test]
fn joins_a_directory_and_a_name() {
    assert_eq!(join_path("/a", "b"), "/a/b");
    assert_eq!(join_path("/a/", "b"), "/a/b");
    assert_eq!(join_path("/a", ""), "/a/");
    assert_eq!(join_path("", "b"), "b");
    assert_eq!(join_path("/", "b"), "/b");
    assert_eq!(join_path("/a", "/b"), "/b");
    assert_eq!(join_path("a", "b/c"), "a/b/c");
    for (directory, name) in [("/a", "b"), ("/a/", "b"), ("/a", ""), ("", "b"), ("/a", "/b"), ("", "")] {
        let expected = std::path::Path::new(directory).join(name).to_string_lossy().to_string();
        assert_eq!(join_path(directory, name), expected, "{directory:?} {name:?}");
    }
}

fn summary() -> PackageSummary {
    PackageSummary {
        name: "curl".to_string(),
        summary: "URL tool".to_string(),
        version: "8".to_string(),
        source: PackageSource::Repo,
        installed: true,
        origin: Some("core".to_string()),
    }
}

fn fallback() -> PackageDetails {
    PackageDetails {
        name: "curl".to_string(),
        summary: "URL tool".to_string(),
        description: "URL tool".to_string(),
        version: "8".to_string(),
        source: PackageSource::Repo,
        installed: true,
        size: None,
        home: None,
        screenshots: Vec::new(),
        icon_name: None,
    }
}

#[test]
fn a_summary_alone_gives_sparse_details() {
    assert_eq!(fallback_details(&summary()), fallback());
    assert_eq!(details_or_fallback(None, &summary()), fallback());
    let answer = PackageDetails { description: "long".to_string(), ..fallback() };
    assert_eq!(details_or_fallback(Some(answer.clone()), &summary()), answer);
    assert_eq!(
        as_installed_aur(PackageDetails { installed: false, ..fallback() }),
        PackageDetails { source: PackageSource::Aur, ..fallback() }
    );
}

#[test]
fn the_catalogue_completes_the_details() {
    let mut details = PackageDetails {
        icon_name: Some("old".to_string()),
        screenshots: vec!["old.png".to_string()],
        ..fallback()
    };
    let before = details.clone();
    enrich(&mut details, component("org.x"));
    assert_eq!(details, before);
    enrich(
        &mut details,
        AppStreamComponent {
            id: "org.x".to_string(),
            summary: Some("Better".to_string()),
            icon_name: Some("new".to_string()),
            screenshots: vec!["1.png".to_string(), "2.png".to_string()],
        },
    );
    assert_eq!(
        details,
        PackageDetails {
            summary: "Better".to_string(),
            icon_name: Some("new".to_string()),
            screenshots: vec!["1.png".to_string(), "2.png".to_string()],
            ..fallback()
        }
    );
}

#[test]
fn counts_what_is_installed() {
    assert_eq!(installed_summary(0, 0), "Installed packages: 0 (Pacman/AUR), 0 Flatpak apps");
    assert_eq!(installed_summary(1234, 56), "Installed packages: 1234 (Pacman/AUR), 56 Flatpak apps");
}
