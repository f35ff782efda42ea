//! The release record, and how it is put together from the cells of a row.

use vstd::prelude::*;
use crate::channel::Channel;
use crate::date::{date_of, parse_date_text, Date};
use crate::error::{Column, FieldError, FieldFailure, ParseError, ParseFailure};
use crate::name::{parse_codename, parse_version_title, split_name};
use crate::text::is_trimmed;
use crate::title::{channel_of, channel_version_of, parse_channel, parse_channel_version};

verus! {

/// One release of the list.
#[derive(Debug, PartialEq, Eq)]
pub struct Release {
    /// The day of the release, such as the 15th of August 2024.
    pub date: Date,
    /// The codename of the major version, such as `Ladybug`.
    pub codename: String,
    /// The version as titles show it, such as `2024.2.1 Canary 7`.
    pub version_title: String,
    /// The channel of the release, such as `Canary`.
    pub channel: Channel,
    /// The count of the releases of a major version in its channel, such as
    /// 7 for `Canary 7`.
    pub channel_version: u8,
    /// The dotted version number, such as `2024.2.1.3`, as the list has it.
    pub version_number: String,
    /// The build identifier, such as `242.20224.300.2421.12232258`, as the
    /// list has it.
    pub build_version: String,
}

/// A release with its texts as sequences of characters.
pub ghost struct ReleaseView {
    pub date: Date,
    pub codename: Seq<char>,
    pub version_title: Seq<char>,
    pub channel: Channel,
    pub channel_version: u8,
    pub version_number: Seq<char>,
    pub build_version: Seq<char>,
}

impl View for Release {
    type V = ReleaseView;

    open spec fn view(&self) -> ReleaseView {
        ReleaseView {
            date: self.date,
            codename: self.codename@,
            version_title: self.version_title@,
            channel: self.channel,
            channel_version: self.channel_version,
            version_number: self.version_number@,
            build_version: self.build_version@,
        }
    }
}

impl ReleaseView {
    /// What holds of every release that was read from a row: codename and
    /// version title are trimmed and not empty, channel and counter are
    /// those of the version title, and the date is a day of the calendar.
    pub open spec fn wf(self) -> bool {
        &&& self.codename.len() > 0
        &&& is_trimmed(self.codename)
        &&& self.version_title.len() > 0
        &&& is_trimmed(self.version_title)
        &&& channel_of(self.version_title) == Ok::<Channel, FieldFailure>(self.channel)
        &&& channel_version_of(self.version_title) == Ok::<u8, FieldFailure>(self.channel_version)
        &&& self.channel_version <= 9
        &&& self.date.wf()
    }
}

/// The texts of the four cells of a row that a release is read from. A
/// cell that the row lacks is `None`.
#[derive(Debug, PartialEq, Eq)]
pub struct RowCells {
    /// Codename and version title, such as `Ladybug | 2024.2.1 Canary 7`.
    pub name: Option<String>,
    /// The date, such as `August 15, 2024`.
    pub date: Option<String>,
    /// The version number.
    pub version: Option<String>,
    /// The build identifier.
    pub build: Option<String>,
}

/// The cells of a row as sequences of characters.
pub ghost struct CellTexts {
    pub name: Option<Seq<char>>,
    pub date: Option<Seq<char>>,
    pub version: Option<Seq<char>>,
    pub build: Option<Seq<char>>,
}

/// The characters of a text that may be absent.
pub open spec fn text_view(text: Option<String>) -> Option<Seq<char>> {
    match text {
        Some(t) => Some(t@),
        None => None,
    }
}

impl View for RowCells {
    type V = CellTexts;

    open spec fn view(&self) -> CellTexts {
        CellTexts {
            name: text_view(self.name),
            date: text_view(self.date),
            version: text_view(self.version),
            build: text_view(self.build),
        }
    }
}

/// The first column that the row lacks, if it lacks one.
pub open spec fn missing_column(cells: CellTexts) -> Option<Column> {
    if cells.name is None {
        Some(Column::Name)
    } else if cells.date is None {
        Some(Column::Date)
    } else if cells.version is None {
        Some(Column::Version)
    } else if cells.build is None {
        Some(Column::Build)
    } else {
        None
    }
}

/// The release that four cell texts stand for. The name cell is divided
/// first, then the channel and the counter are read from the version
/// title, then the date; the first of these that fails decides the error.
/// Version number and build identifier are taken as they are.
pub open spec fn release_of_texts(
    name: Seq<char>,
    date: Seq<char>,
    version: Seq<char>,
    build: Seq<char>,
) -> Result<ReleaseView, FieldFailure> {
    match split_name(name) {
        None => Err(FieldFailure::NameFieldMalformed(name)),
        Some((codename, version_title)) => match channel_of(version_title) {
            Err(error) => Err(error),
            Ok(channel) => match channel_version_of(version_title) {
                Err(error) => Err(error),
                Ok(channel_version) => match date_of(date) {
                    None => Err(FieldFailure::DateMalformed(date)),
                    Some(day) => Ok(
                        ReleaseView {
                            date: day,
                            codename,
                            version_title,
                            channel,
                            channel_version,
                            version_number: version,
                            build_version: build,
                        },
                    ),
                },
            },
        },
    }
}

/// The release that the cells of a row stand for. A missing cell is
/// reported before anything is read from the others.
pub open spec fn release_of(cells: CellTexts) -> Result<ReleaseView, FieldFailure> {
    match missing_column(cells) {
        Some(column) => Err(FieldFailure::CellMissing(column)),
        None => release_of_texts(
            cells.name->0,
            cells.date->0,
            cells.version->0,
            cells.build->0,
        ),
    }
}

/// The releases of the rows of a table, in the order of the rows. The first
/// row that gives no release gives the error for the whole table.
pub open spec fn releases_of_rows(rows: Seq<CellTexts>) -> Result<Seq<ReleaseView>, ParseFailure>
    decreases rows.len(),
{
    if rows.len() == 0 {
        Ok(Seq::empty())
    } else {
        match releases_of_rows(rows.drop_last()) {
            Err(failure) => Err(failure),
            Ok(releases) => match release_of(rows.last()) {
                Err(error) => Err(ParseFailure::Row { index: rows.len() - 1, error }),
                Ok(release) => Ok(releases.push(release)),
            },
        }
    }
}

/// The releases of a document, of which `table` holds the rows of the
/// releases table, or `None` where the document has no such table.
pub open spec fn releases_of(table: Option<Seq<CellTexts>>) -> Result<
    Seq<ReleaseView>,
    ParseFailure,
> {
    match table {
        None => Err(ParseFailure::StructuralAnchorMissing),
        Some(rows) => releases_of_rows(rows),
    }
}

/// The views of the releases in a vector.
pub open spec fn release_views(releases: Seq<Release>) -> Seq<ReleaseView> {
    releases.map_values(|release: Release| release@)
}

/// The views of the rows in a vector.
pub open spec fn row_views(rows: Seq<RowCells>) -> Seq<CellTexts> {
    rows.map_values(|cells: RowCells| cells@)
}

/// The view of the result of reading a document.
pub open spec fn outcome_view(outcome: Result<Vec<Release>, ParseError>) -> Result<
    Seq<ReleaseView>,
    ParseFailure,
> {
    match outcome {
        Ok(releases) => Ok(release_views(releases@)),
        Err(error) => Err(error@),
    }
}

/// The view of the result of reading a row.
pub open spec fn release_outcome_view(outcome: Result<Release, FieldError>) -> Result<
    ReleaseView,
    FieldFailure,
> {
    match outcome {
        Ok(release) => Ok(release@),
        Err(error) => Err(error@),
    }
}

/// Puts a release together from the texts of the four cells of a row.
pub fn assemble_release(
    name: &String,
    date: &String,
    version_number: &String,
    build_version: &String,
) -> (release: Result<Release, FieldError>)
    ensures
        release_outcome_view(release) == release_of_texts(
            name@,
            date@,
            version_number@,
            build_version@,
        ),
        release matches Ok(r) ==> r@.wf(),
{
    let codename = match parse_codename(name) {
        Ok(text) => text,
        Err(error) => { return Err(error); },
    };
    let version_title = match parse_version_title(name) {
        Ok(text) => text,
        Err(error) => { return Err(error); },
    };
    let channel = match parse_channel(&version_title) {
        Ok(channel) => channel,
        Err(error) => { return Err(error); },
    };
    let channel_version = match parse_channel_version(&version_title) {
        Ok(n) => n,
        Err(error) => { return Err(error); },
    };
    let day = match parse_date_text(date) {
        Ok(day) => day,
        Err(error) => { return Err(error); },
    };
    Ok(
        Release {
            date: day,
            codename,
            version_title,
            channel,
            channel_version,
            version_number: version_number.clone(),
            build_version: build_version.clone(),
        },
    )
}

/// Reads the release of a row from its cells.
pub fn release_of_cells(cells: &RowCells) -> (release: Result<Release, FieldError>)
    ensures
        release_outcome_view(release) == release_of(cells@),
        release matches Ok(r) ==> r@.wf(),
{
    let name = match &cells.name {
        Some(text) => text,
        None => { return Err(FieldError::CellMissing(Column::Name)); },
    };
    let date = match &cells.date {
        Some(text) => text,
        None => { return Err(FieldError::CellMissing(Column::Date)); },
    };
    let version = match &cells.version {
        Some(text) => text,
        None => { return Err(FieldError::CellMissing(Column::Version)); },
    };
    let build = match &cells.build {
        Some(text) => text,
        None => { return Err(FieldError::CellMissing(Column::Build)); },
    };
    assemble_release(name, date, version, build)
}

/// The views of the rows of a table that may be absent.
pub open spec fn table_view(table: Option<Vec<RowCells>>) -> Option<Seq<CellTexts>> {
    match table {
        Some(rows) => Some(row_views(rows@)),
        None => None,
    }
}

/// Reads the releases of a table from the cells of its rows; `None` stands
/// for a document without the table. The releases come in the order of the
/// rows. One row that gives no release fails the whole table.
pub fn releases_of_table(table: &Option<Vec<RowCells>>) -> (releases: Result<
    Vec<Release>,
    ParseError,
>)
    ensures
        outcome_view(releases) == releases_of(table_view(*table)),
        releases matches Ok(found) ==> forall|i: int|
            0 <= i < found.len() ==> (#[trigger] found[i])@.wf(),
{
    let rows = match table {
        Some(rows) => rows,
        None => { return Err(ParseError::StructuralAnchorMissing); },
    };
    let ghost all = row_views(rows@);
    let mut releases: Vec<Release> = Vec::new();
    let mut index: usize = 0;
    proof {
        assert(all.take(0) =~= Seq::<CellTexts>::empty());
        assert(release_views(releases@) =~= Seq::<ReleaseView>::empty());
    }
    while index < rows.len()
        invariant
            index <= rows.len(),
            all == row_views(rows@),
            table_view(*table) == Some(all),
            releases_of_rows(all.take(index as int)) == Ok::<Seq<ReleaseView>, ParseFailure>(
                release_views(releases@),
            ),
            forall|i: int| 0 <= i < releases.len() ==> (#[trigger] releases[i])@.wf(),
        decreases rows.len() - index,
    {
        proof {
            assert(all.take(index + 1).drop_last() =~= all.take(index as int));
            assert(all.take(index + 1).last() == rows[index as int]@);
        }
        match release_of_cells(&rows[index]) {
            Ok(release) => {
                proof {
                    assert(release_views(releases@).push(release@) =~= release_views(
                        releases@.push(release),
                    ));
                }
                releases.push(release);
            },
            Err(error) => {
                proof {
                    assert(all.take(index + 1).len() == index + 1);
                    assert(releases_of_rows(all.take(index + 1)) == Err::<
                        Seq<ReleaseView>,
                        ParseFailure,
                    >(ParseFailure::Row { index: index as int, error: error@ }));
                    lemma_failure_stays(all, index + 1);
                }
                return Err(ParseError::Row { index, error });
            },
        }
        index = index + 1;
    }
    proof {
        assert(all.take(rows.len() as int) =~= all);
    }
    Ok(releases)
}

/// A table gives one release for each of its rows, in the order of the
/// rows, if every row gives one. Else it fails with the error of the first
/// row that gives none, and with the place of that row.
pub proof fn lemma_releases_of_rows(rows: Seq<CellTexts>)
    ensures
        match releases_of_rows(rows) {
            Ok(releases) => releases.len() == rows.len() && forall|i: int|
                0 <= i < rows.len() ==> release_of(#[trigger] rows[i]) == Ok::<
                    ReleaseView,
                    FieldFailure,
                >(releases[i]),
            Err(failure) => failure matches ParseFailure::Row { index, error } && 0 <= index
                < rows.len() && release_of(rows[index]) == Err::<ReleaseView, FieldFailure>(error)
                && forall|j: int| 0 <= j < index ==> release_of(#[trigger] rows[j]) is Ok,
        },
    decreases rows.len(),
{
    if rows.len() > 0 {
        let first = rows.drop_last();
        lemma_releases_of_rows(first);
        assert forall|i: int| 0 <= i < first.len() implies first[i] == rows[i] by {}
    }
}

/// Once the first rows of a table have failed, the table has.
pub proof fn lemma_failure_stays(rows: Seq<CellTexts>, n: int)
    requires
        0 <= n <= rows.len(),
        releases_of_rows(rows.take(n)) is Err,
    ensures
        releases_of_rows(rows) == releases_of_rows(rows.take(n)),
    decreases rows.len() - n,
{
    if n < rows.len() {
        assert(rows.drop_last().take(n) =~= rows.take(n));
        lemma_failure_stays(rows.drop_last(), n);
    } else {
        assert(rows.take(n) =~= rows);
    }
}

} // verus!
