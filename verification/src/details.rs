//! Putting together what is shown of one package.

use vstd::prelude::*;
use vstd::string::*;

use crate::appstream::AppStreamComponent;
use crate::appstream::ComponentModel;
use crate::models::DetailsModel;
use crate::models::PackageDetails;
use crate::models::PackageSource;
use crate::models::PackageSummary;
use crate::models::SummaryModel;
use crate::text::decimal;
use crate::text::push_decimal;
use crate::text::texts;

verus! {

/// The details that a summary alone gives: its summary stands for the
/// description too, and nothing more is known.
pub open spec fn fallback_of(summary: SummaryModel) -> DetailsModel {
    DetailsModel {
        name: summary.name,
        summary: summary.summary,
        description: summary.summary,
        version: summary.version,
        source: summary.source,
        installed: summary.installed,
        size: None,
        home: None,
        screenshots: Seq::empty(),
        icon_name: None,
    }
}

/// The details to show when a package source gave none.
pub fn fallback_details(summary: &PackageSummary) -> (r: PackageDetails)
    ensures
        r@ == fallback_of(summary@),
{
    let r = PackageDetails {
        name: summary.name.clone(),
        summary: summary.summary.clone(),
        description: summary.summary.clone(),
        version: summary.version.clone(),
        source: summary.source,
        installed: summary.installed,
        size: None,
        home: None,
        screenshots: Vec::new(),
        icon_name: None,
    };
    assert(texts(r.screenshots@) =~= Seq::<Seq<char>>::empty());
    r
}

/// What a package source answered, or else what the summary alone gives.
pub fn details_or_fallback(answer: Option<PackageDetails>, summary: &PackageSummary) -> (r:
    PackageDetails)
    ensures
        r@ == match answer {
            Some(details) => details@,
            None => fallback_of(summary@),
        },
{
    match answer {
        Some(details) => details,
        None => fallback_details(summary),
    }
}

/// The description that the repository manager gave of an installed package
/// that came from the community repository.
pub fn as_installed_aur(details: PackageDetails) -> (r: PackageDetails)
    ensures
        r@ == (DetailsModel { source: PackageSource::Aur, installed: true, ..details@ }),
{
    let mut details = details;
    details.source = PackageSource::Aur;
    details.installed = true;
    details
}

/// `details` with what the catalogue knows better: its summary and its icon
/// where it has them, its screenshots where it has any.
pub open spec fn enriched(details: DetailsModel, component: ComponentModel) -> DetailsModel {
    DetailsModel {
        summary: match component.summary {
            Some(summary) => summary,
            None => details.summary,
        },
        icon_name: if component.icon_name is Some {
            component.icon_name
        } else {
            details.icon_name
        },
        screenshots: if component.screenshots.len() > 0 {
            component.screenshots
        } else {
            details.screenshots
        },
        ..details
    }
}

/// Completes `details` with what the catalogue says of the package.
pub fn enrich(details: &mut PackageDetails, component: AppStreamComponent)
    ensures
        final(details)@ == enriched(old(details)@, component@),
{
    match component.summary {
        Some(summary) => {
            details.summary = summary;
        },
        None => {},
    }
    if component.icon_name.is_some() {
        details.icon_name = component.icon_name;
    }
    if component.screenshots.len() > 0 {
        details.screenshots = component.screenshots;
    }
}

/// What the home page says of what is installed.
pub fn installed_summary(packages: usize, apps: usize) -> (r: String)
    ensures
        r@ == "Installed packages: "@ + decimal(packages as nat) + " (Pacman/AUR), "@ + decimal(
            apps as nat,
        ) + " Flatpak apps"@,
{
    let mut out = String::from_str("Installed packages: ");
    push_decimal(&mut out, packages as u128);
    out.append(" (Pacman/AUR), ");
    push_decimal(&mut out, apps as u128);
    out.append(" Flatpak apps");
    out
}

} // verus!
