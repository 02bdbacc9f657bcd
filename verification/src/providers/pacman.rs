//! The system repository and its manager.

use vstd::prelude::*;
use vstd::string::*;

use crate::models::DetailsModel;
use crate::models::PackageDetails;
use crate::models::PackageSource;
use crate::models::PackageSummary;
use crate::providers::pacman_details;
use crate::providers::parse_pacman_info;
use crate::providers::parse_search_lines;
use crate::providers::parse_table;
use crate::providers::search_entries;
use crate::providers::summary_models;
use crate::providers::table_entries;
use crate::providers::TableFormat;
use crate::runner::CommandModel;
use crate::runner::CommandSpec;
use crate::runner::forced_env;
use crate::text::chars_of;
use crate::text::lines_of;
use crate::text::split_words;
use crate::text::texts;
use crate::text::words_of;

verus! {

/// The system repository.
#[derive(Debug)]
pub struct Pacman;

impl Default for Pacman {
    fn default() -> (r: Self)
        ensures
            r == Pacman,
    {
        Pacman
    }
}

/// A query of a tool: the tool, run on `args` in the neutral locale.
pub open spec fn query_of(program: Seq<char>, args: Seq<Seq<char>>) -> CommandModel {
    CommandModel { program, args, env: forced_env() }
}

/// The arguments of a search for `query`: the search flag and the words of
/// the query; `None` when the query has no word.
pub open spec fn search_words(query: Seq<char>) -> Option<Seq<Seq<char>>> {
    if words_of(query).len() == 0 {
        None
    } else {
        Some(seq!["-Ss"@] + words_of(query))
    }
}

/// The arguments of a search for `query`, if it has a word to search for.
pub fn search_args(query: &str) -> (r: Option<Vec<String>>)
    ensures
        crate::providers::option_texts(r) == search_words(query@),
{
    let chars = chars_of(query);
    let terms = split_words(chars.as_slice());
    if terms.len() == 0 {
        return None;
    }
    let mut args: Vec<String> = Vec::new();
    args.push(String::from_str("-Ss"));
    let mut i: usize = 0;
    while i < terms.len()
        invariant
            i <= terms.len(),
            texts(args@) == seq!["-Ss"@] + texts(terms@).take(i as int),
        decreases terms.len() - i,
    {
        let ghost before = texts(args@);
        args.push(terms[i].clone());
        assert(texts(args@) =~= before.push(terms@[i as int]@));
        assert(texts(terms@).take(i + 1) =~= texts(terms@).take(i as int).push(terms@[i as int]@));
        i += 1;
    }
    assert(texts(terms@).take(i as int) =~= texts(terms@));
    Some(args)
}

impl Pacman {
    /// The query that searches the repositories for `query`; none when the
    /// query has no word, for which the answer is that nothing was found.
    pub fn search_command(query: &str) -> (r: Option<CommandSpec>)
        ensures
            match r {
                Some(command) => search_words(query@) is Some && command@ == query_of(
                    "pacman"@,
                    search_words(query@)->0,
                ),
                None => search_words(query@) is None,
            },
    {
        match search_args(query) {
            Some(args) => Some(CommandSpec::new("pacman", args)),
            None => None,
        }
    }

    /// The query that describes the package `name` of the repositories.
    pub fn info_repo_command(name: &str) -> (r: CommandSpec)
        ensures
            r@ == query_of("pacman"@, seq!["-Si"@, name@]),
    {
        let mut args: Vec<String> = Vec::new();
        args.push(String::from_str("-Si"));
        args.push(String::from_str(name));
        assert(texts(args@) =~= seq!["-Si"@, name@]);
        CommandSpec::new("pacman", args)
    }

    /// The query that describes the installed package `name`.
    pub fn info_installed_command(name: &str) -> (r: CommandSpec)
        ensures
            r@ == query_of("pacman"@, seq!["-Qi"@, name@]),
    {
        let mut args: Vec<String> = Vec::new();
        args.push(String::from_str("-Qi"));
        args.push(String::from_str(name));
        assert(texts(args@) =~= seq!["-Qi"@, name@]);
        CommandSpec::new("pacman", args)
    }

    /// The query that lists the installed packages.
    pub fn list_installed_command() -> (r: CommandSpec)
        ensures
            r@ == query_of("pacman"@, seq!["-Q"@]),
    {
        let mut args: Vec<String> = Vec::new();
        args.push(String::from_str("-Q"));
        assert(texts(args@) =~= seq!["-Q"@]);
        CommandSpec::new("pacman", args)
    }

    /// Reads the answer to a search.
    pub fn parse_search_output(output: &str) -> (r: Vec<PackageSummary>)
        ensures
            summary_models(r@) == search_entries(lines_of(output@), PackageSource::Repo),
    {
        parse_search_lines(output, PackageSource::Repo)
    }

    /// Reads the description of a package of `source`.
    pub fn parse_info(output: &str, source: PackageSource) -> (r: PackageDetails)
        ensures
            r@ == pacman_details(output@, source),
    {
        parse_pacman_info(output, source)
    }

    /// Reads the description of an installed package.
    pub fn parse_installed_info(output: &str) -> (r: PackageDetails)
        ensures
            r@ == (DetailsModel {
                installed: true,
                ..pacman_details(output@, PackageSource::Repo)
            }),
    {
        let mut details = parse_pacman_info(output, PackageSource::Repo);
        details.installed = true;
        details
    }

    /// Reads the list of installed packages.
    pub fn parse_installed(output: &str) -> (r: Vec<PackageSummary>)
        ensures
            summary_models(r@) == table_entries(lines_of(output@), TableFormat::PacmanInstalled),
    {
        parse_table(output, TableFormat::PacmanInstalled)
    }
}

} // verus!
