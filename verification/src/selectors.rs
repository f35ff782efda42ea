//! The selectors that find the releases in the page.

use scraper::Selector;
use vstd::prelude::*;
use crate::markup::{parse_selector, parsed_selector};

verus! {

/// The table of the releases of 2024. The site numbers its elements anew
/// when the page is built again: this is the one place where the number
/// of the table stands.
pub const RELEASES_2024: &'static str = "table#slaxfo_21.table__content";

/// The rows of the body of a releases table.
pub const ROWS: &'static str = "table.table__content tbody tr";

/// The paragraph of the first cell of a row, which holds codename and
/// version title.
pub const RELEASE_NAME: &'static str = "table.table__content tbody tr td:nth-child(1) p";

/// The paragraph of the third cell, which holds the date.
pub const DATE: &'static str = "table.table__content tbody tr td:nth-child(3) p";

/// The version number in the fourth cell.
pub const SEMVER: &'static str = "table.table__content tbody tr td:nth-child(4) p span.control";

/// The second paragraph of the fourth cell, which holds the build
/// identifier.
pub const BUILD_VERSION: &'static str =
    "table.table__content tbody tr td:nth-child(4) p:nth-child(2)";

/// The selectors, parsed once and used for every document.
pub struct Selectors {
    /// Finds the releases table of 2024.
    pub releases_2024: Selector,
    /// Finds the rows of the table.
    pub rows: Selector,
    /// Finds the name cell of a row.
    pub release_name: Selector,
    /// Finds the date cell of a row.
    pub date: Selector,
    /// Finds the version number of a row.
    pub semver: Selector,
    /// Finds the build identifier of a row.
    pub build_version: Selector,
}

/// The selectors that the six patterns stand for; `None` if one of the
/// patterns were no selector.
pub open spec fn pattern_table() -> Option<Selectors> {
    match (
        parsed_selector(RELEASES_2024@),
        parsed_selector(ROWS@),
        parsed_selector(RELEASE_NAME@),
        parsed_selector(DATE@),
        parsed_selector(SEMVER@),
        parsed_selector(BUILD_VERSION@),
    ) {
        (
            Some(releases_2024),
            Some(rows),
            Some(release_name),
            Some(date),
            Some(semver),
            Some(build_version),
        ) => Some(Selectors { releases_2024, rows, release_name, date, semver, build_version }),
        _ => None,
    }
}

impl Selectors {
    /// Parses the six patterns.
    pub fn new() -> (selectors: Option<Selectors>)
        ensures
            selectors == pattern_table(),
    {
        let releases_2024 = parse_selector(RELEASES_2024);
        let rows = parse_selector(ROWS);
        let release_name = parse_selector(RELEASE_NAME);
        let date = parse_selector(DATE);
        let semver = parse_selector(SEMVER);
        let build_version = parse_selector(BUILD_VERSION);
        match (releases_2024, rows, release_name, date, semver, build_version) {
            (
                Some(releases_2024),
                Some(rows),
                Some(release_name),
                Some(date),
                Some(semver),
                Some(build_version),
            ) => Some(
                Selectors { releases_2024, rows, release_name, date, semver, build_version },
            ),
            _ => None,
        }
    }
}

} // verus!
