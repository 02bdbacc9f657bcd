//! The community repository and the helpers that build from it.

use vstd::prelude::*;
use vstd::string::*;

use crate::models::AurHelperKind;
use crate::models::PackageDetails;
use crate::models::PackageSource;
use crate::models::PackageSummary;
use crate::providers::pacman::query_of;
use crate::providers::pacman::search_args;
use crate::providers::pacman::search_words;
use crate::providers::pacman_details;
use crate::providers::parse_pacman_info;
use crate::providers::parse_search_lines;
use crate::providers::search_entries;
use crate::providers::summary_models;
use crate::runner::CommandSpec;
use crate::text::lines_of;
use crate::text::texts;

verus! {

/// The community repository, reached through the helper the user has chosen.
#[derive(Debug, Clone, Copy)]
pub struct Aur {
    helper: AurHelperKind,
}

impl Aur {
    /// The community repository as `helper` reaches it.
    pub fn new(helper: AurHelperKind) -> (r: Self)
        ensures
            r.helper() == helper,
    {
        Aur { helper }
    }

    /// The helper that is used.
    pub closed spec fn helper(&self) -> AurHelperKind {
        self.helper
    }

    /// The name of the helper's program.
    pub fn helper_bin(&self) -> (r: String)
        ensures
            r@ == self.helper().program(),
    {
        String::from_str(self.helper.as_str())
    }

    /// The query that searches the community repository for `query`; none
    /// when the query has no word.
    pub fn search_command(&self, query: &str) -> (r: Option<CommandSpec>)
        ensures
            match r {
                Some(command) => search_words(query@) is Some && command@ == query_of(
                    self.helper().program(),
                    search_words(query@)->0,
                ),
                None => search_words(query@) is None,
            },
    {
        match search_args(query) {
            Some(args) => Some(CommandSpec::new(self.helper.as_str(), args)),
            None => None,
        }
    }

    /// The query that describes the package `name`.
    pub fn info_command(&self, name: &str) -> (r: CommandSpec)
        ensures
            r@ == query_of(self.helper().program(), seq!["-Si"@, name@]),
    {
        let mut args: Vec<String> = Vec::new();
        args.push(String::from_str("-Si"));
        args.push(String::from_str(name));
        assert(texts(args@) =~= seq!["-Si"@, name@]);
        CommandSpec::new(self.helper.as_str(), args)
    }

    /// Reads the answer to a search.
    pub fn parse_search_output(output: &str) -> (r: Vec<PackageSummary>)
        ensures
            summary_models(r@) == search_entries(lines_of(output@), PackageSource::Aur),
    {
        parse_search_lines(output, PackageSource::Aur)
    }

    /// Reads the description of a package.
    pub fn parse_info(output: &str) -> (r: PackageDetails)
        ensures
            r@ == pacman_details(output@, PackageSource::Aur),
    {
        parse_pacman_info(output, PackageSource::Aur)
    }
}

} // verus!
