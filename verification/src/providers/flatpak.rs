//! The sandboxed-app manager.

use vstd::prelude::*;
use vstd::string::*;

use crate::models::PackageDetails;
use crate::models::PackageSummary;
use crate::providers::flatpak_details;
use crate::providers::pacman::query_of;
use crate::providers::parse_flatpak_info;
use crate::providers::parse_table;
use crate::providers::summary_models;
use crate::providers::table_entries;
use crate::providers::TableFormat;
use crate::runner::CommandSpec;
use crate::text::lines_of;
use crate::text::texts;

verus! {

/// The sandboxed-app manager.
#[derive(Debug)]
pub struct Flatpak;

impl Default for Flatpak {
    fn default() -> (r: Self)
        ensures
            r == Flatpak,
    {
        Flatpak
    }
}

impl Flatpak {
    /// The query that searches the remotes for `query`.
    pub fn search_command(query: &str) -> (r: CommandSpec)
        ensures
            r@ == query_of(
                "flatpak"@,
                seq![
                    "search"@,
                    "--columns=application,description,version,branch,remote"@,
                    query@,
                ],
            ),
    {
        let mut args: Vec<String> = Vec::new();
        args.push(String::from_str("search"));
        args.push(String::from_str("--columns=application,description,version,branch,remote"));
        args.push(String::from_str(query));
        assert(texts(args@) =~= seq![
            "search"@,
            "--columns=application,description,version,branch,remote"@,
            query@,
        ]);
        CommandSpec::new("flatpak", args)
    }

    /// The query that describes the app `name`.
    pub fn info_command(name: &str) -> (r: CommandSpec)
        ensures
            r@ == query_of("flatpak"@, seq!["info"@, name@]),
    {
        let mut args: Vec<String> = Vec::new();
        args.push(String::from_str("info"));
        args.push(String::from_str(name));
        assert(texts(args@) =~= seq!["info"@, name@]);
        CommandSpec::new("flatpak", args)
    }

    /// The query that lists the installed apps.
    pub fn list_installed_command() -> (r: CommandSpec)
        ensures
            r@ == query_of(
                "flatpak"@,
                seq!["list"@, "--app"@, "--columns=application,description,version,branch"@],
            ),
    {
        let mut args: Vec<String> = Vec::new();
        args.push(String::from_str("list"));
        args.push(String::from_str("--app"));
        args.push(String::from_str("--columns=application,description,version,branch"));
        assert(texts(args@) =~= seq![
            "list"@,
            "--app"@,
            "--columns=application,description,version,branch"@,
        ]);
        CommandSpec::new("flatpak", args)
    }

    /// Reads the answer to a search.
    pub fn parse_search(output: &str) -> (r: Vec<PackageSummary>)
        ensures
            summary_models(r@) == table_entries(lines_of(output@), TableFormat::FlatpakSearch),
    {
        parse_table(output, TableFormat::FlatpakSearch)
    }

    /// Reads the list of installed apps.
    pub fn parse_list(output: &str) -> (r: Vec<PackageSummary>)
        ensures
            summary_models(r@) == table_entries(lines_of(output@), TableFormat::FlatpakInstalled),
    {
        parse_table(output, TableFormat::FlatpakInstalled)
    }

    /// Reads the description of an app.
    pub fn parse_info(output: &str) -> (r: PackageDetails)
        ensures
            r@ == flatpak_details(output@),
    {
        parse_flatpak_info(output)
    }
}

} // verus!
