//! The functions that read from a parsed page, on the markup of one table.

use android_studio_releases::address::{build_releases_url, ANDROID_STUDIO_RELEASES_LIST};
use android_studio_releases::channel::Channel;
use android_studio_releases::date::Date;
use android_studio_releases::error::{Column, FieldError, ParseError};
use android_studio_releases::parse::{
    extract_releases, first_cell, locate_rows, parse_build_version, parse_date, parse_release_name,
    parse_releases, parse_row, parse_semver, read_cells, read_table,
};
use android_studio_releases::selectors::Selectors;
use chrono::{Datelike, NaiveDate};
use scraper::{Html, Selector};
use url::Url;

const HTML: &str = r###"
<section class="chapter h1-related">
  <h2 id="2024" data-toc="2024" class="article__h2">
    <span class="title"
      ><span class="title__content">2024.*</span>ï»¿<a
        data-test="internal-link permalink"
        rel=""
        class="link-nude permalink"
        href="/docs/intellij/android-studio-releases-list.html#2024"
        ><span
          data-clipboard-text="https://plugins.jetbrains.com/docs/intellij/android-studio-releases-list.html#2024"
          ><svg
            viewBox="0 0 24 24"
            class="wt-icon wt-icon_size_s permalink__icon permalink__icon--size-s"
          >
            <path
              d="M21.207 4.793a4.536 4.536 0 0 0-6.414 0l-4.5 4.5 1.414 1.414 4.5-4.5a2.536 2.536 0 0 1 3.586 3.586l-4.5 4.5 1.414 1.414 4.5-4.5a4.536 4.536 0 0 0 0-6.414z"
            ></path>
            <path
              d="M8.328 16.258a2.536 2.536 0 1 1-3.586-3.586l4.5-4.5-1.414-1.414-4.5 4.5a4.535 4.535 0 0 0 6.414 6.414l4.5-4.5-1.414-1.414z"
            ></path></svg></span></a
    ></span>
  </h2>
  <div class="table h2-related">
    <div
      class="table__wrapper table__wrapper--wide table__wrapper--without-scroll"
    >
      <table class="table__content table__content--wide" id="slaxfo_21">
        <thead class="table__thead">
          <tr class="table__tr" id="slaxfo_22">
            <th class="table__th" id="slaxfo_54">
              <p class="article__p">Release Name</p>
            </th>
            <th class="table__th" id="slaxfo_55">
              <p class="article__p">Channel</p>
            </th>
            <th class="table__th" id="slaxfo_56">
              <p class="article__p">Release Date</p>
            </th>
            <th class="table__th" id="slaxfo_57">
              <p class="article__p">Version</p>
            </th>
            <th class="table__th" id="slaxfo_58">
              <p class="article__p">IntelliJ IDEA Version</p>
            </th>
          </tr>
        </thead>
        <tbody class="table__tbody">
          <tr class="table__tr" id="slaxfo_23">
            <td class="table__td" id="slaxfo_59">
              <p class="article__p child">Ladybug | 2024.2.1 Canary 7</p>
            </td>
            <td class="table__td" id="slaxfo_60">
              <figure id="slaxfo_64" class="article__figure child">
                <img
                  src="https://img.shields.io/badge/-Canary-lightgrey?style=flat-square"
                  class="article__img"
                  alt="Canary"
                  title="Canary"
                />
              </figure>
            </td>
            <td class="table__td" id="slaxfo_61">
              <p class="article__p child">August 15, 2024</p>
            </td>
            <td class="table__td" id="slaxfo_62">
              <p class="article__p child">
                <span class="control" id="slaxfo_65">2024.2.1.3</span>
              </p>
              <p id="slaxfo_66" class="article__p child">
                AI-242.20224.300.2421.12232258
              </p>
            </td>
            <td class="table__td" id="slaxfo_63">
              <p class="article__p child">
                <span class="control" id="slaxfo_67">2024.2</span>
              </p>
              <p id="slaxfo_68" class="article__p child">242.20224.300</p>
            </td>
          </tr>
        </tbody>
      </table>
    </div>
  </div>
</section>
    "###;

fn selectors() -> Selectors {
    Selectors::new().expect("the patterns are selectors")
}

/// A page with one releases table, whose body holds the rows given.
fn page_with_rows(rows: &str) -> String {
    format!(
        "<html><body><table class=\"table__content\" id=\"slaxfo_21\"><thead><tr><th><p>Release \
         Name</p></th></tr></thead><tbody>{}</tbody></table></body></html>",
        rows
    )
}

/// A row with the four texts in the cells where the releases list has them.
fn row(name: &str, date: &str, version: &str, build: &str) -> String {
    format!(
        "<tr><td><p>{}</p></td><td><figure></figure></td><td><p>{}</p></td>\
         <td><p><span class=\"control\">{}</span></p><p>{}</p></td><td><p>other</p></td></tr>",
        name, date, version, build
    )
}

#[test]
fn test_parse_release_name() {
    let fragment = Html::parse_fragment(HTML);

    // test parsing using local selector
    let selector = Selector::parse(r#"table.table__content tbody tr td p"#).unwrap();
    let element = fragment.select(&selector).next().unwrap();
    println!("{}", element.inner_html());

    let title = parse_release_name(&fragment.root_element(), &selectors().release_name).unwrap();

    assert_eq!(title, "Ladybug | 2024.2.1 Canary 7");
}

#[test]
fn test_parse_date() {
    let fragment = Html::parse_fragment(HTML);

    // test parsing using local selector
    let selector =
        Selector::parse(r#"table.table__content tbody tr td:nth-child(3) p"#).unwrap();
    let element = fragment.select(&selector).next().unwrap();
    println!("{}", element.inner_html());

    let date = parse_date(&fragment.root_element(), &selectors().date).unwrap();
    let expected_date = NaiveDate::parse_from_str("August 15, 2024", "%B %d, %Y").unwrap();

    assert_eq!(
        date,
        Date {
            year: expected_date.year(),
            month: expected_date.month(),
            day: expected_date.day()
        }
    );
}

#[test]
fn test_parse_releases() {
    let articles = parse_releases(HTML.to_string(), &selectors()).expect("Err collecting releases");

    assert_eq!(articles.len(), 1);
}

#[test]
fn test_build_notes_url() {
    let expected_url = Url::parse(ANDROID_STUDIO_RELEASES_LIST).unwrap();
    let url = build_releases_url();
    assert_eq!(url, Some(expected_url));
}

#[test]
fn releases_url_is_the_address_of_the_list() {
    let url = build_releases_url().unwrap();
    assert_eq!(
        url.as_str(),
        "https://plugins.jetbrains.com/docs/intellij/android-studio-releases-list.html"
    );
    assert_eq!(url.host_str(), Some("plugins.jetbrains.com"));
    assert_eq!(url.scheme(), "https");
}

#[test]
fn the_patterns_are_selectors() {
    assert!(Selectors::new().is_some());
}

#[test]
fn selectors_find_what_their_patterns_say() {
    let selectors = selectors();
    assert_eq!(selectors.releases_2024, Selector::parse("table#slaxfo_21.table__content").unwrap());
    assert_eq!(selectors.rows, Selector::parse("table.table__content tbody tr").unwrap());
    assert_eq!(
        selectors.date,
        Selector::parse("table.table__content tbody tr td:nth-child(3) p").unwrap()
    );
    assert_ne!(selectors.semver, selectors.build_version);
}

#[test]
fn release_of_the_sample_table() {
    let releases = parse_releases(HTML.to_string(), &selectors()).unwrap();
    let release = &releases[0];
    assert_eq!(release.codename, "Ladybug");
    assert_eq!(release.version_title, "2024.2.1 Canary 7");
    assert_eq!(release.channel, Channel::Canary);
    assert_eq!(release.channel_version, 7);
    assert_eq!(release.date, Date { year: 2024, month: 8, day: 15 });
    assert_eq!(release.version_number, "2024.2.1.3");
    assert_eq!(release.build_version.trim(), "AI-242.20224.300.2421.12232258");
}

#[test]
fn cells_of_the_sample_table() {
    let fragment = Html::parse_fragment(HTML);
    let root = fragment.root_element();
    let selectors = selectors();
    assert_eq!(parse_semver(&root, &selectors.semver), Ok("2024.2.1.3".to_string()));
    let build = parse_build_version(&root, &selectors.build_version).unwrap();
    assert_eq!(build.trim(), "AI-242.20224.300.2421.12232258");
    assert!(build.starts_with('\n'));
}

#[test]
fn one_row_gives_one_release() {
    let page = page_with_rows(&row(
        "Ladybug | 2024.2.1 Canary 7",
        "August 15, 2024",
        "2024.2.1.3",
        "242.20224.300.2421.12232258",
    ));
    let releases = parse_releases(page, &selectors()).unwrap();
    assert_eq!(releases.len(), 1);
    let release = &releases[0];
    assert_eq!(release.codename, "Ladybug");
    assert_eq!(release.version_title, "2024.2.1 Canary 7");
    assert_eq!(release.channel, Channel::Canary);
    assert_eq!(release.channel_version, 7);
    assert_eq!(release.date, Date { year: 2024, month: 8, day: 15 });
    assert_eq!(release.version_number, "2024.2.1.3");
    assert_eq!(release.build_version, "242.20224.300.2421.12232258");
}

#[test]
fn releases_come_in_the_order_of_the_rows() {
    let rows = [
        row("Ladybug | 2024.2.1 Canary 7", "August 15, 2024", "2024.2.1.3", "242.1"),
        row("Koala Feature Drop | 2024.1.2 RC 1", "August 1, 2024", "2024.1.2.10", "241.2"),
        row("Koala | 2024.1.1 Patch 2", "July 29, 2024", "2024.1.1.13", "241.3"),
    ]
    .concat();
    let releases = parse_releases(page_with_rows(&rows), &selectors()).unwrap();
    let codenames: Vec<&str> = releases.iter().map(|r| r.codename.as_str()).collect();
    assert_eq!(codenames, vec!["Ladybug", "Koala Feature Drop", "Koala"]);
    assert_eq!(releases[1].channel, Channel::RC);
    assert_eq!(releases[1].channel_version, 1);
    assert_eq!(releases[2].channel, Channel::Patch);
    assert_eq!(releases[2].date, Date { year: 2024, month: 7, day: 29 });
}

#[test]
fn page_without_the_table_is_an_error() {
    let page = "<html><body><table class=\"table__content\" id=\"slaxfo_99\"><tbody>\
                </tbody></table></body></html>";
    assert_eq!(
        parse_releases(page.to_string(), &selectors()),
        Err(ParseError::StructuralAnchorMissing)
    );
    assert_eq!(
        parse_releases(String::new(), &selectors()),
        Err(ParseError::StructuralAnchorMissing)
    );
}

#[test]
fn table_without_rows_gives_no_release_and_no_error() {
    assert_eq!(parse_releases(page_with_rows(""), &selectors()), Ok(Vec::new()));
}

#[test]
fn unknown_channel_in_a_row_fails_the_page() {
    let rows = [
        row("Ladybug | 2024.2.1 Canary 7", "August 15, 2024", "2024.2.1.3", "242.1"),
        row("Koala | 2024.1.2 Nightly 3", "August 1, 2024", "2024.1.2.10", "241.2"),
        row("Koala | 2024.1.1 Patch 2", "July 29, 2024", "2024.1.1.13", "241.3"),
    ]
    .concat();
    assert_eq!(
        parse_releases(page_with_rows(&rows), &selectors()),
        Err(ParseError::Row { index: 1, error: FieldError::UnknownChannel("Nightly".to_string()) })
    );
}

#[test]
fn first_failing_row_is_reported() {
    let rows = [
        row("Ladybug 2024.2.1 Canary 7", "August 15, 2024", "2024.2.1.3", "242.1"),
        row("Koala | 2024.1.2 Nightly 3", "August 1, 2024", "2024.1.2.10", "241.2"),
    ]
    .concat();
    assert_eq!(
        parse_releases(page_with_rows(&rows), &selectors()),
        Err(ParseError::Row {
            index: 0,
            error: FieldError::NameFieldMalformed("Ladybug 2024.2.1 Canary 7".to_string())
        })
    );
}

#[test]
fn row_without_a_cell_names_the_column() {
    let no_date = "<tr><td><p>Ladybug | 2024.2.1 Canary 7</p></td><td></td><td></td>\
                   <td><p><span class=\"control\">1</span></p><p>2</p></td></tr>";
    assert_eq!(
        parse_releases(page_with_rows(no_date), &selectors()),
        Err(ParseError::Row { index: 0, error: FieldError::CellMissing(Column::Date) })
    );
    let no_name = "<tr><td></td><td></td><td><p>August 15, 2024</p></td>\
                   <td><p><span class=\"control\">1</span></p><p>2</p></td></tr>";
    assert_eq!(
        parse_releases(page_with_rows(no_name), &selectors()),
        Err(ParseError::Row { index: 0, error: FieldError::CellMissing(Column::Name) })
    );
    let no_version = "<tr><td><p>Ladybug | 2024.2.1 Canary 7</p></td><td></td>\
                      <td><p>August 15, 2024</p></td><td><p>1</p><p>2</p></td></tr>";
    assert_eq!(
        parse_releases(page_with_rows(no_version), &selectors()),
        Err(ParseError::Row { index: 0, error: FieldError::CellMissing(Column::Version) })
    );
    let no_build = "<tr><td><p>Ladybug | 2024.2.1 Canary 7</p></td><td></td>\
                    <td><p>August 15, 2024</p></td><td><p><span class=\"control\">1</span></p></td></tr>";
    assert_eq!(
        parse_releases(page_with_rows(no_build), &selectors()),
        Err(ParseError::Row { index: 0, error: FieldError::CellMissing(Column::Build) })
    );
}

#[test]
fn missing_cell_is_reported_before_a_malformed_name() {
    let no_build = "<tr><td><p>no pipe here</p></td><td></td><td><p>August 15, 2024</p></td>\
                    <td><p><span class=\"control\">1</span></p></td></tr>";
    assert_eq!(
        parse_releases(page_with_rows(no_build), &selectors()),
        Err(ParseError::Row { index: 0, error: FieldError::CellMissing(Column::Build) })
    );
}

#[test]
fn malformed_date_in_a_row_fails_the_page() {
    let page = page_with_rows(&row("Ladybug | 2024.2.1 Canary 7", "2024-08-15", "1", "2"));
    assert_eq!(
        parse_releases(page, &selectors()),
        Err(ParseError::Row {
            index: 0,
            error: FieldError::DateMalformed("2024-08-15".to_string())
        })
    );
}

#[test]
fn rows_are_those_of_the_first_matching_table() {
    let rows = [
        row("A | 1.2.3 Beta 1", "May 1, 2024", "1", "2"),
        row("B | 1.2.3 Beta 2", "May 2, 2024", "1", "2"),
    ]
    .concat();
    let page = page_with_rows(&rows);
    let document = Html::parse_document(&page);
    let selectors = selectors();
    let rows = locate_rows(&document, &selectors).unwrap();
    assert_eq!(rows.len(), 2);
    assert_eq!(rows[0].value().name(), "tr");
    let cells = read_cells(&rows[1], &selectors);
    assert_eq!(cells.name, Some("B | 1.2.3 Beta 2".to_string()));
    assert_eq!(cells.date, Some("May 2, 2024".to_string()));
    assert_eq!(cells.version, Some("1".to_string()));
    assert_eq!(cells.build, Some("2".to_string()));
    let table = read_table(&document, &selectors).unwrap();
    assert_eq!(table.len(), 2);
    assert_eq!(table[1], cells);
    let releases = extract_releases(&document, &selectors).unwrap();
    assert_eq!(releases.len(), 2);
    assert_eq!(releases[1].codename, "B");
}

#[test]
fn locating_rows_fails_without_the_table() {
    let document = Html::parse_document("<p>nothing</p>");
    let selectors = selectors();
    assert_eq!(locate_rows(&document, &selectors).err(), Some(ParseError::StructuralAnchorMissing));
    assert_eq!(read_table(&document, &selectors), None);
    assert_eq!(extract_releases(&document, &selectors), Err(ParseError::StructuralAnchorMissing));
}

#[test]
fn first_cell_is_the_first_match() {
    let fragment = Html::parse_fragment("<div><p>one</p><p>two <b>bold</b></p></div>");
    let paragraphs = Selector::parse("p").unwrap();
    let bold = Selector::parse("b").unwrap();
    let none = Selector::parse("i").unwrap();
    let root = fragment.root_element();
    assert_eq!(first_cell(&root, &paragraphs), Some("one".to_string()));
    assert_eq!(first_cell(&root, &bold), Some("bold".to_string()));
    assert_eq!(first_cell(&root, &none), None);
    assert_eq!(parse_release_name(&root, &none), Err(FieldError::CellMissing(Column::Name)));
    assert_eq!(parse_date(&root, &none), Err(FieldError::CellMissing(Column::Date)));
    assert_eq!(parse_semver(&root, &none), Err(FieldError::CellMissing(Column::Version)));
    assert_eq!(parse_build_version(&root, &none), Err(FieldError::CellMissing(Column::Build)));
    assert_eq!(parse_date(&root, &paragraphs), Err(FieldError::DateMalformed("one".to_string())));
}

#[test]
fn markup_keeps_the_attributes_in_their_order() {
    let inner = "<b z=\"1\" y=\"2\" x=\"3\" w=\"4\" v=\"5\" u=\"6\" t=\"7\" s=\"8\">bold</b>";
    let fragment = Html::parse_fragment(&format!("<p>{}</p>", inner));
    let paragraphs = Selector::parse("p").unwrap();
    assert_eq!(first_cell(&fragment.root_element(), &paragraphs), Some(inner.to_string()));
}

#[test]
fn markup_is_that_of_the_cell() {
    let page = page_with_rows(&row("A &amp; B | 1.2.3 Beta 1", "May 1, 2024", "<i>1</i>", " 2 "));
    let releases = parse_releases(page, &selectors()).unwrap();
    assert_eq!(releases[0].codename, "A &amp; B");
    assert_eq!(releases[0].version_number, "<i>1</i>");
    assert_eq!(releases[0].build_version, " 2 ");
}

#[test]
fn row_gives_its_release() {
    let rows = [
        row("Ladybug | 2024.2.1 Canary 7", "August 15, 2024", "2024.2.1.3", "242.1"),
        row("Koala | 2024.1.2 Nightly 3", "August 1, 2024", "2024.1.2.10", "241.2"),
    ]
    .concat();
    let document = Html::parse_document(&page_with_rows(&rows));
    let selectors = selectors();
    let rows = locate_rows(&document, &selectors).unwrap();
    let release = parse_row(&rows[0], &selectors).unwrap();
    assert_eq!(release.codename, "Ladybug");
    assert_eq!(release.channel_version, 7);
    assert_eq!(release.build_version, "242.1");
    assert_eq!(
        parse_row(&rows[1], &selectors),
        Err(FieldError::UnknownChannel("Nightly".to_string()))
    );
}
