//! From the page to the releases.
//!
//! The rows of the releases table are found with the selectors, the four
//! cells of each row are read as texts, and the texts are turned into a
//! release. A document without the table is an error, and so is a row that
//! gives no release: no release is left out in silence.

use scraper::{ElementRef, Html, Selector};
use vstd::prelude::*;
use crate::date::{date_of_cell, parse_date_text, Date};
use crate::error::{Column, FieldError, FieldFailure, ParseError};
use crate::markup::{
    document_matches, element_markup, element_matches, inner_html, parse_document,
    parsed_document, select_in_document, select_in_element,
};
use crate::release::{
    outcome_view, release_of, release_of_cells, release_outcome_view, releases_of,
    releases_of_table, row_views, table_view, text_view, CellTexts, Release, RowCells,
};
use crate::selectors::Selectors;

pub use crate::name::{parse_codename, parse_version_title};
pub use crate::title::{parse_channel, parse_channel_version};

verus! {

/// The markup inside the first descendant of `element` that matches
/// `selector`, if one matches.
pub open spec fn first_markup(element: ElementRef<'_>, selector: Selector) -> Option<Seq<char>> {
    let found = element_matches(element, selector);
    if found.len() > 0 {
        Some(element_markup(found[0]))
    } else {
        None
    }
}

/// The text of a cell, or the error that names the column without one.
pub open spec fn cell_of(element: ElementRef<'_>, selector: Selector, column: Column) -> Result<
    Seq<char>,
    FieldFailure,
> {
    match first_markup(element, selector) {
        Some(text) => Ok(text),
        None => Err(FieldFailure::CellMissing(column)),
    }
}

/// The view of a text that was read, or of the error.
pub open spec fn text_outcome_view(outcome: Result<String, FieldError>) -> Result<
    Seq<char>,
    FieldFailure,
> {
    match outcome {
        Ok(text) => Ok(text@),
        Err(error) => Err(error@),
    }
}

/// Reads the markup inside the first descendant of `element` that matches
/// `selector`.
pub fn first_cell(element: &ElementRef, selector: &Selector) -> (text: Option<String>)
    ensures
        text_view(text) == first_markup(*element, *selector),
{
    let found = select_in_element(element, selector);
    if found.len() > 0 {
        Some(inner_html(&found[0]))
    } else {
        None
    }
}

/// Reads the text of the cell of `column`.
fn cell_text(element: &ElementRef, selector: &Selector, column: Column) -> (text: Result<
    String,
    FieldError,
>)
    ensures
        text_outcome_view(text) == cell_of(*element, *selector, column),
{
    match first_cell(element, selector) {
        Some(text) => Ok(text),
        None => Err(FieldError::CellMissing(column)),
    }
}

/// Reads the release name: the text of the name cell, which holds the
/// codename and the version title.
pub fn parse_release_name(element: &ElementRef, selector: &Selector) -> (name: Result<
    String,
    FieldError,
>)
    ensures
        text_outcome_view(name) == cell_of(*element, *selector, Column::Name),
{
    cell_text(element, selector, Column::Name)
}

/// The date of the date cell, or the error of the cell.
pub open spec fn date_of_element(element: ElementRef<'_>, selector: Selector) -> Result<
    Date,
    FieldFailure,
> {
    match first_markup(element, selector) {
        Some(text) => date_of_cell(text),
        None => Err(FieldFailure::CellMissing(Column::Date)),
    }
}

/// Reads the date of the release from the date cell.
pub fn parse_date(element: &ElementRef, selector: &Selector) -> (date: Result<Date, FieldError>)
    ensures
        match date {
            Ok(d) => date_of_element(*element, *selector) == Ok::<Date, FieldFailure>(d),
            Err(error) => date_of_element(*element, *selector) == Err::<Date, FieldFailure>(
                error@,
            ),
        },
        date matches Ok(d) ==> d.wf(),
{
    match first_cell(element, selector) {
        Some(text) => parse_date_text(&text),
        None => Err(FieldError::CellMissing(Column::Date)),
    }
}

/// Reads the version number, as the cell has it.
pub fn parse_semver(element: &ElementRef, selector: &Selector) -> (version: Result<
    String,
    FieldError,
>)
    ensures
        text_outcome_view(version) == cell_of(*element, *selector, Column::Version),
{
    cell_text(element, selector, Column::Version)
}

/// Reads the build identifier, as the cell has it.
pub fn parse_build_version(element: &ElementRef, selector: &Selector) -> (build: Result<
    String,
    FieldError,
>)
    ensures
        text_outcome_view(build) == cell_of(*element, *selector, Column::Build),
{
    cell_text(element, selector, Column::Build)
}

/// The rows of the releases table: those of the first table that the
/// selector of the table finds. `None` where it finds no table.
pub open spec fn located_rows(document: &Html, selectors: Selectors) -> Option<
    Seq<ElementRef<'_>>,
> {
    let tables = document_matches(document, selectors.releases_2024);
    if tables.len() > 0 {
        Some(element_matches(tables[0], selectors.rows))
    } else {
        None
    }
}

/// The texts of the four cells of a row.
pub open spec fn cells_of(row: ElementRef<'_>, selectors: Selectors) -> CellTexts {
    CellTexts {
        name: first_markup(row, selectors.release_name),
        date: first_markup(row, selectors.date),
        version: first_markup(row, selectors.semver),
        build: first_markup(row, selectors.build_version),
    }
}

/// The cells of the rows of the releases table, row by row. `None` where
/// the document has no releases table.
pub open spec fn table_of(document: &Html, selectors: Selectors) -> Option<Seq<CellTexts>> {
    match located_rows(document, selectors) {
        Some(rows) => Some(Seq::new(rows.len(), |i: int| cells_of(rows[i], selectors))),
        None => None,
    }
}

/// Finds the rows of the releases table. A document without the table is an
/// error; a table without rows is none.
pub fn locate_rows<'a>(document: &'a Html, selectors: &Selectors) -> (rows: Result<
    Vec<ElementRef<'a>>,
    ParseError,
>)
    ensures
        match rows {
            Ok(found) => located_rows(document, *selectors) == Some(found@),
            Err(error) => located_rows(document, *selectors) is None
                && error == ParseError::StructuralAnchorMissing,
        },
{
    let tables = select_in_document(document, &selectors.releases_2024);
    if tables.len() > 0 {
        Ok(select_in_element(&tables[0], &selectors.rows))
    } else {
        Err(ParseError::StructuralAnchorMissing)
    }
}

/// Reads the texts of the four cells of a row.
pub fn read_cells(row: &ElementRef, selectors: &Selectors) -> (cells: RowCells)
    ensures
        cells@ == cells_of(*row, *selectors),
{
    RowCells {
        name: first_cell(row, &selectors.release_name),
        date: first_cell(row, &selectors.date),
        version: first_cell(row, &selectors.semver),
        build: first_cell(row, &selectors.build_version),
    }
}

/// Reads the release of a row: the texts of its four cells first, then the
/// release that they stand for.
pub fn parse_row(row: &ElementRef, selectors: &Selectors) -> (release: Result<Release, FieldError>)
    ensures
        release_outcome_view(release) == release_of(cells_of(*row, *selectors)),
        release matches Ok(r) ==> r@.wf(),
{
    let cells = read_cells(row, selectors);
    release_of_cells(&cells)
}

/// Reads the cells of the rows of the releases table.
pub fn read_table(document: &Html, selectors: &Selectors) -> (table: Option<Vec<RowCells>>)
    ensures
        table_view(table) == table_of(document, *selectors),
{
    let rows = match locate_rows(document, selectors) {
        Ok(rows) => rows,
        Err(_) => { return None; },
    };
    let mut table: Vec<RowCells> = Vec::new();
    let mut index: usize = 0;
    while index < rows.len()
        invariant
            index <= rows.len(),
            table.len() == index,
            forall|k: int|
                0 <= k < index ==> (#[trigger] table[k])@ == cells_of(rows[k], *selectors),
        decreases rows.len() - index,
    {
        let cells = read_cells(&rows[index], selectors);
        table.push(cells);
        index = index + 1;
    }
    proof {
        assert(row_views(table@) =~= Seq::new(
            rows@.len(),
            |i: int| cells_of(rows@[i], *selectors),
        ));
    }
    Some(table)
}

/// Reads the releases from a parsed document.
pub fn extract_releases(document: &Html, selectors: &Selectors) -> (releases: Result<
    Vec<Release>,
    ParseError,
>)
    ensures
        outcome_view(releases) == releases_of(table_of(document, *selectors)),
        releases matches Ok(found) ==> forall|i: int|
            0 <= i < found.len() ==> (#[trigger] found[i])@.wf(),
{
    let table = read_table(document, selectors);
    releases_of_table(&table)
}

/// Reads the releases from the text of the page: one for each row of the
/// releases table, in the order of the rows.
pub fn parse_releases(content: String, selectors: &Selectors) -> (releases: Result<
    Vec<Release>,
    ParseError,
>)
    ensures
        outcome_view(releases) == releases_of(
            table_of(&parsed_document(content@), *selectors),
        ),
        releases matches Ok(found) ==> forall|i: int|
            0 <= i < found.len() ==> (#[trigger] found[i])@.wf(),
{
    let document = parse_document(content.as_str());
    extract_releases(&document, selectors)
}

} // verus!
