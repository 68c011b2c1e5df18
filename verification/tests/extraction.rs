use lsfbot::error::ExtractError;
use lsfbot::error::Malformed;
use lsfbot::error::Missing;
use lsfbot::error::UnknownName;
use lsfbot::extract::course_of_page;
use lsfbot::extract::read_row;
use lsfbot::config::Config;
use lsfbot::config::Discord;
use lsfbot::config::Group;
use lsfbot::config::LinkData;
use lsfbot::config::Links;
use lsfbot::extraction::fetch_module;
use lsfbot::extraction::Action;
use lsfbot::extraction::Extraction;
use lsfbot::extraction::Reply;
use lsfbot::modul::ModulGruppe;
use lsfbot::modul::ModulTyp;

fn row(link: &str, time: &str, room: Option<&str>, note: &str) -> String {
    let room = match room {
        Some(r) => format!("<a href=\"room\"> {} </a>", r),
        None => String::new(),
    };
    format!(
        "<tr><td><a href=\"{}\">+</a></td><td>Mo.</td><td>{}</td><td>woch</td><td></td>\
         <td>{}</td><td></td><td></td><td></td><td> {} </td></tr>",
        link, time, room, note
    )
}

fn dates(list: &[&str]) -> String {
    let mut items = String::new();
    for d in list {
        items.push_str(&format!("<li> {} </li>", d));
    }
    format!("<tr><td colspan=\"10\"><div><ul>{}</ul></div></td></tr>", items)
}

fn page(title: &str, caption: &str, rows: &[String]) -> String {
    format!(
        "<html><body><div><form><h1>\n {} - Einzelansicht\n</h1>\
         <table summary=\"Übersicht über alle Veranstaltungstermine\">\
         <caption class=\"t_capt\"> {} </caption><tbody>\
         <tr><th>Tag</th></tr>{}</tbody></table></form></div></body></html>",
        title,
        caption,
        rows.concat()
    )
}

fn two_rows() -> Vec<String> {
    vec![
        row("http://lsf/a", "&nbsp;10:00&nbsp;bis&nbsp;11:30 ", Some("F-123"), "Vorlesung"),
        row("http://lsf/b", "10:00 bis 11:30", Some("F-124"), "zweiter Raum"),
    ]
}

fn opened(rows: &[String], at: usize, list: &[&str], caption: &str) -> String {
    let mut all = rows.to_vec();
    all.insert(at + 1, dates(list));
    page("AIN1 Mathematik 1", caption, &all)
}

#[test]
fn heading_names_the_course() {
    let index = page("AIN1 Mathematik 1", "Termine Gruppe: [unbenannt]", &two_rows());
    assert_eq!(course_of_page(&index), Ok(ModulTyp::Mathematik1));
}

#[test]
fn unknown_heading_is_rejected() {
    let index = page("AIN1 Astrologie", "Termine Gruppe: [unbenannt]", &two_rows());
    assert_eq!(
        course_of_page(&index),
        Err(ExtractError::UnknownEnumValue(UnknownName::Course))
    );
    let extraction = Extraction::new(vec!["http://lsf/index".to_string()]);
    let (extraction, action) = extraction.advance(Reply::Page(index));
    assert_eq!(
        action,
        Action::Failed(ExtractError::UnknownEnumValue(UnknownName::Course))
    );
    assert!(extraction.finish().is_none());
}

#[test]
fn page_without_heading_is_rejected() {
    assert_eq!(
        course_of_page("<html><body><p>nothing</p></body></html>"),
        Err(ExtractError::MarkupError(Missing::Title))
    );
}

#[test]
fn row_is_read_from_both_pages() {
    let rows = two_rows();
    let index = page("AIN1 Mathematik 1", "Termine Gruppe: [unbenannt]", &rows);
    let expanded = opened(&rows, 0, &["02.11.2020", "09.11.2020"], "Termine Gruppe: Gruppe 2");
    let entry = read_row(ModulTyp::Mathematik1, &index, &expanded, 0, 0).unwrap();
    assert_eq!(entry.typ, ModulTyp::Mathematik1);
    assert_eq!(entry.gruppe, Some(ModulGruppe::Gruppe2));
    assert_eq!(entry.raum.as_deref(), Some("F-123"));
    assert_eq!(entry.bemerkung.as_deref(), Some("Vorlesung"));
    assert_eq!(entry.termine.len(), 2);
    assert_eq!(entry.termine[0].beginn(), 1604307600);
    assert_eq!(entry.termine[0].ende(), 1604307600 + 90 * 60);
    assert_eq!(entry.termine[1].beginn(), 1604307600 + 7 * 86400);
}

#[test]
fn session_that_does_not_end_after_it_begins_is_rejected() {
    let rows = vec![row("http://lsf/a", "11:30 bis 10:00", None, "")];
    let index = page("AIN1 Mathematik 1", "Termine Gruppe: [unbenannt]", &rows);
    let expanded = opened(&rows, 0, &["02.11.2020"], "Termine Gruppe: [unbenannt]");
    assert_eq!(
        read_row(ModulTyp::Mathematik1, &index, &expanded, 0, 0),
        Err(ExtractError::ParseError(Malformed::Session))
    );
}

#[test]
fn malformed_time_and_date_are_rejected() {
    let rows = vec![row("http://lsf/a", "10:00 - 11:30", None, "")];
    let index = page("AIN1 Mathematik 1", "Termine Gruppe: [unbenannt]", &rows);
    let expanded = opened(&rows, 0, &["02.11.2020"], "Termine Gruppe: [unbenannt]");
    assert_eq!(
        read_row(ModulTyp::Mathematik1, &index, &expanded, 0, 0),
        Err(ExtractError::ParseError(Malformed::Time))
    );
    let rows = vec![row("http://lsf/a", "10:00 bis 11:30", None, "")];
    let index = page("AIN1 Mathematik 1", "Termine Gruppe: [unbenannt]", &rows);
    let expanded = opened(&rows, 0, &["2020-11-02"], "Termine Gruppe: [unbenannt]");
    assert_eq!(
        read_row(ModulTyp::Mathematik1, &index, &expanded, 0, 0),
        Err(ExtractError::ParseError(Malformed::Date))
    );
}

#[test]
fn unknown_group_is_rejected() {
    let rows = two_rows();
    let index = page("AIN1 Mathematik 1", "Termine Gruppe: [unbenannt]", &rows);
    let expanded = opened(&rows, 0, &["02.11.2020"], "Termine Gruppe: Gruppe 9");
    assert_eq!(
        read_row(ModulTyp::Mathematik1, &index, &expanded, 0, 0),
        Err(ExtractError::UnknownEnumValue(UnknownName::Group))
    );
}

#[test]
fn missing_dates_row_is_rejected() {
    let rows = two_rows();
    let index = page("AIN1 Mathematik 1", "Termine Gruppe: [unbenannt]", &rows);
    assert_eq!(
        read_row(ModulTyp::Mathematik1, &index, &index, 0, 1),
        Err(ExtractError::MarkupError(Missing::Dates))
    );
}

#[test]
fn extraction_merges_rows_with_the_same_sessions() {
    let rows = two_rows();
    let index = page("AIN1 Mathematik 1", "Termine Gruppe: [unbenannt]", &rows);
    let list = ["02.11.2020", "09.11.2020"];
    let extraction = Extraction::new(vec!["http://lsf/index".to_string()]);
    assert_eq!(extraction.pending(), Action::Fetch("http://lsf/index".to_string()));
    let (extraction, action) = extraction.advance(Reply::Page(index));
    assert_eq!(action, Action::Fetch("http://lsf/a".to_string()));
    let (extraction, action) = extraction.advance(Reply::Page(opened(
        &rows,
        0,
        &list,
        "Termine Gruppe: [unbenannt]",
    )));
    assert_eq!(action, Action::Fetch("http://lsf/b".to_string()));
    let (extraction, action) = extraction.advance(Reply::Page(opened(
        &rows,
        1,
        &list,
        "Termine Gruppe: [unbenannt]",
    )));
    assert_eq!(action, Action::Done);
    let module = extraction.finish().unwrap();
    assert_eq!(module.len(), 1);
    assert_eq!(module[0].gruppe, None);
    assert_eq!(module[0].raum.as_deref(), Some("F-123 & F-124"));
    assert_eq!(module[0].bemerkung.as_deref(), Some("Vorlesung"));
    assert_eq!(module[0].termine.len(), 2);
}

#[test]
fn unreachable_page_fails_the_extraction() {
    let extraction = Extraction::new(vec!["http://lsf/index".to_string()]);
    let (extraction, action) = extraction.advance(Reply::Unreachable);
    assert_eq!(action, Action::Failed(ExtractError::FetchError));
    let (extraction, action) = extraction.advance(Reply::Resumed);
    assert_eq!(action, Action::Failed(ExtractError::FetchError));
    assert!(extraction.finish().is_none());
}

#[test]
fn reply_that_answers_nothing_changes_nothing() {
    let extraction = Extraction::new(vec!["http://lsf/index".to_string()]);
    let (extraction, action) = extraction.advance(Reply::Resumed);
    assert_eq!(action, Action::Fetch("http://lsf/index".to_string()));
    assert!(extraction.finish().is_none());
}

#[test]
fn extraction_pauses_between_two_courses() {
    let rows = vec![row("http://lsf/a", "10:00 bis 11:30", Some("F-123"), "")];
    let first = page("AIN1 Mathematik 1", "Termine Gruppe: [unbenannt]", &rows);
    let second = page("AIN1 Digitaltechnik", "Termine Gruppe: [unbenannt]", &[]);
    let extraction =
        Extraction::new(vec!["http://lsf/one".to_string(), "http://lsf/two".to_string()]);
    let (extraction, action) = extraction.advance(Reply::Page(first));
    assert_eq!(action, Action::Fetch("http://lsf/a".to_string()));
    let (extraction, action) = extraction.advance(Reply::Page(opened(
        &rows,
        0,
        &[],
        "Termine Gruppe: Gruppe 1",
    )));
    assert_eq!(action, Action::Pause(2));
    let (extraction, action) = extraction.advance(Reply::Page(second.clone()));
    assert_eq!(action, Action::Pause(2));
    let (extraction, action) = extraction.advance(Reply::Resumed);
    assert_eq!(action, Action::Fetch("http://lsf/two".to_string()));
    let (extraction, action) = extraction.advance(Reply::Page(second));
    assert_eq!(action, Action::Done);
    let module = extraction.finish().unwrap();
    assert_eq!(module.len(), 1);
    assert_eq!(module[0].gruppe, Some(ModulGruppe::Gruppe1));
    assert!(module[0].termine.is_empty());
}

#[test]
fn extraction_of_nothing_is_done_at_once() {
    let extraction = Extraction::new(vec![]);
    assert_eq!(extraction.pending(), Action::Done);
    assert_eq!(extraction.finish(), Some(vec![]));
}

#[test]
fn row_without_link_fails_the_extraction() {
    let rows = vec![
        "<tr><td>no link</td><td></td><td>10:00 bis 11:30</td></tr>".to_string(),
    ];
    let index = page("AIN1 Mathematik 1", "Termine Gruppe: [unbenannt]", &rows);
    let extraction = Extraction::new(vec!["http://lsf/index".to_string()]);
    let (_, action) = extraction.advance(Reply::Page(index));
    assert_eq!(action, Action::Failed(ExtractError::MarkupError(Missing::ExpandLink)));
    let rows = vec!["<tr><td><a>+</a></td><td></td><td>10:00 bis 11:30</td></tr>".to_string()];
    let index = page("AIN1 Mathematik 1", "Termine Gruppe: [unbenannt]", &rows);
    let extraction = Extraction::new(vec!["http://lsf/index".to_string()]);
    let (_, action) = extraction.advance(Reply::Page(index));
    assert_eq!(action, Action::Failed(ExtractError::MarkupError(Missing::ExpandTarget)));
}

fn bare_page(caption: &str, rows: &[String]) -> String {
    format!(
        "<html><body><div><form><h1>AIN1 Mathematik 1 - Einzelansicht</h1>\
         <table summary=\"Übersicht über alle Veranstaltungstermine\">{}<tbody>\
         <tr><th>Tag</th></tr>{}</tbody></table></form></div></body></html>",
        caption,
        rows.concat()
    )
}

#[test]
fn opened_page_without_timetable_is_rejected() {
    let rows = two_rows();
    let index = page("AIN1 Mathematik 1", "Termine Gruppe: [unbenannt]", &rows);
    assert_eq!(
        read_row(ModulTyp::Mathematik1, &index, "<html><body></body></html>", 0, 0),
        Err(ExtractError::MarkupError(Missing::Table))
    );
    assert_eq!(
        read_row(ModulTyp::Mathematik1, &index, &index, 1, 0),
        Err(ExtractError::MarkupError(Missing::Table))
    );
}

#[test]
fn timetable_without_caption_is_rejected() {
    let rows = two_rows();
    let index = page("AIN1 Mathematik 1", "Termine Gruppe: [unbenannt]", &rows);
    let mut all = rows.clone();
    all.insert(1, dates(&["02.11.2020"]));
    assert_eq!(
        read_row(ModulTyp::Mathematik1, &index, &bare_page("", &all), 0, 0),
        Err(ExtractError::MarkupError(Missing::Caption))
    );
    assert_eq!(
        read_row(
            ModulTyp::Mathematik1,
            &index,
            &bare_page("<caption class=\"t_capt\"></caption>", &all),
            0,
            0
        ),
        Err(ExtractError::MarkupError(Missing::CaptionText))
    );
}

#[test]
fn row_without_time_cell_is_rejected() {
    let rows = vec!["<tr><td><a href=\"http://lsf/a\">+</a></td><td>Mo.</td></tr>".to_string()];
    let index = page("AIN1 Mathematik 1", "Termine Gruppe: [unbenannt]", &rows);
    let expanded = opened(&rows, 0, &["02.11.2020"], "Termine Gruppe: [unbenannt]");
    assert_eq!(
        read_row(ModulTyp::Mathematik1, &index, &expanded, 0, 0),
        Err(ExtractError::MarkupError(Missing::Time))
    );
}

#[test]
fn date_without_text_is_rejected() {
    let rows = two_rows();
    let index = page("AIN1 Mathematik 1", "Termine Gruppe: [unbenannt]", &rows);
    let mut all = rows.clone();
    all.insert(
        1,
        "<tr><td><div><ul><li>02.11.2020</li><li></li></ul></div></td></tr>".to_string(),
    );
    let expanded = page("AIN1 Mathematik 1", "Termine Gruppe: [unbenannt]", &all);
    assert_eq!(
        read_row(ModulTyp::Mathematik1, &index, &expanded, 0, 0),
        Err(ExtractError::MarkupError(Missing::DateText))
    );
}

#[test]
fn group_is_looked_for_before_time_and_time_before_dates() {
    let rows = vec![row("http://lsf/a", "never", None, "")];
    let index = page("AIN1 Mathematik 1", "Termine Gruppe: [unbenannt]", &rows);
    let expanded = opened(&rows, 0, &["someday"], "Termine Gruppe: Gruppe 7");
    assert_eq!(
        read_row(ModulTyp::Mathematik1, &index, &expanded, 0, 0),
        Err(ExtractError::UnknownEnumValue(UnknownName::Group))
    );
    let expanded = opened(&rows, 0, &["someday"], "Termine Gruppe: Gruppe 1");
    assert_eq!(
        read_row(ModulTyp::Mathematik1, &index, &expanded, 0, 0),
        Err(ExtractError::ParseError(Malformed::Time))
    );
}

#[test]
fn errors_have_sentences() {
    assert_eq!(ExtractError::FetchError.message(), "Failed to send HTTP request");
    assert_eq!(ExtractError::MarkupError(Missing::Title).message(), "Failed to get name");
    assert_eq!(ExtractError::ParseError(Malformed::Date).message(), "Failed to parse date");
    assert_eq!(
        ExtractError::UnknownEnumValue(UnknownName::Group).message(),
        "Failed to parse group to `ModulGruppe`"
    );
}

#[test]
fn extraction_begins_with_the_first_course_of_the_configuration() {
    let link = |name: &str| LinkData {
        lsf: format!("http://lsf/{}", name),
        vorlesungen: None,
        uebungen: None,
    };
    let group = Group { channel_id: 1, role_id: 2 };
    let cfg = Config {
        discord: Discord {
            bot_token: "SECRET-REDACTED".to_string(),
            guild_id: 1,
            gruppe_1: group,
            gruppe_2: group,
            gruppe_3: group,
            gruppe_4: group,
        },
        links: Links {
            mathematik1: link("m"),
            programmiertechnik1: link("p"),
            softwaremodellierung: link("s"),
            digitaltechnik: link("d"),
        },
    };
    let extraction = fetch_module(&cfg);
    assert_eq!(extraction.pending(), Action::Fetch("http://lsf/m".to_string()));
    let empty = page("AIN1 Mathematik 1", "", &[]);
    let (extraction, action) = extraction.advance(Reply::Page(empty));
    assert_eq!(action, Action::Pause(2));
    let (_, action) = extraction.advance(Reply::Resumed);
    assert_eq!(action, Action::Fetch("http://lsf/p".to_string()));
}

#[test]
fn row_without_dates_is_taken_in_and_reported() {
    let rows = two_rows();
    let index = page("AIN1 Mathematik 1", "Termine Gruppe: [unbenannt]", &rows);
    let extraction = Extraction::new(vec!["http://lsf/index".to_string()]);
    assert!(!extraction.read_row_without_dates());
    let (extraction, _) = extraction.advance(Reply::Page(index));
    assert!(!extraction.read_row_without_dates());
    let (extraction, action) = extraction.advance(Reply::Page(opened(
        &rows,
        0,
        &[],
        "Termine Gruppe: [unbenannt]",
    )));
    assert_eq!(action, Action::Fetch("http://lsf/b".to_string()));
    assert!(extraction.read_row_without_dates());
    let (extraction, action) = extraction.advance(Reply::Page(opened(
        &rows,
        1,
        &["02.11.2020"],
        "Termine Gruppe: [unbenannt]",
    )));
    assert_eq!(action, Action::Done);
    assert!(!extraction.read_row_without_dates());
    let module = extraction.finish().unwrap();
    assert_eq!(module.len(), 2);
    assert!(module[0].termine.is_empty());
    assert_eq!(module[1].termine.len(), 1);
}
