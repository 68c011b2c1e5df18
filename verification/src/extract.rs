//! Reading a course's timetable pages.
//!
//! A course has one index page. Its heading names the course, and each of its
//! timetables holds one row per weekly slot, with the slot's time range, room
//! and remark, and a link. The link leads to the same page with that row
//! opened: there the row is followed by a row that lists the slot's dates, and
//! the timetable's caption names the group that the slot is held for.

use crate::calendar::Clock;
use crate::calendar::clock_in;
use crate::calendar::date_in;
use crate::calendar::parse_clock;
use crate::calendar::parse_date;
use crate::error::ExtractError;
use crate::error::Malformed;
use crate::error::Missing;
use crate::error::UnknownName;
use crate::markup::Found;
use crate::markup::FoundView;
use crate::markup::found_views3;
use crate::markup::found_views;
use crate::markup::grid_view;
use crate::markup::select;
use crate::markup::select_in_rows;
use crate::markup::select_within;
use crate::markup::selected;
use crate::markup::selected_in_rows;
use crate::markup::selected_within;
use crate::modul::Modul;
use crate::modul::ModulGruppe;
use crate::modul::ModulTermin;
use crate::modul::ModulTyp;
use crate::modul::ModulView;
use crate::text::first_two_pieces;
use crate::text::opt_text;
use crate::text::replace;
use crate::text::replaced;
use crate::text::same_text;
use crate::text::split_first_two;
use crate::text::trim;
use crate::text::trim_end_matches;
use crate::text::trim_start_matches;
use crate::text::trimmed;
use crate::text::without_prefix;
use crate::text::without_suffix;
use vstd::prelude::*;

verus! {

/// Finds the heading that names the course.
pub const TITLE: &'static str = "div > form > h1";

/// Finds the timetables of a page.
pub const TABLES: &'static str = "table[summary='Übersicht über alle Veranstaltungstermine']";

/// Finds the rows of a timetable, without its header row.
pub const ROWS: &'static str = "tbody > tr:nth-child(n+2)";

/// Finds the link of a row that opens the row's dates.
pub const EXPAND: &'static str = "td:first-child > a:first-child";

/// Finds the caption of a timetable.
pub const CAPTION: &'static str = "caption.t_capt";

/// Finds the room of a row.
pub const ROOM: &'static str = "td:nth-child(6) > a";

/// Finds the remark of a row.
pub const NOTE: &'static str = "td:nth-child(10)";

/// Finds the time range of a row.
pub const TIME: &'static str = "td:nth-child(3)";

/// Finds the dates in the row that lists them.
pub const DATES: &'static str = "td > div > ul > li";

/// What follows the course's name in the heading.
pub const TITLE_SUFFIX: &'static str = " - Einzelansicht";

/// What precedes the group's name in a caption.
pub const CAPTION_PREFIX: &'static str = "Termine Gruppe: ";

/// The caption of a timetable that is held for all groups.
pub const NO_GROUP: &'static str = "[unbenannt]";

/// The course that a heading with the content `html` names: the content is
/// trimmed, what follows the name is taken off, and the name is looked up.
pub open spec fn heading_course(html: Seq<char>) -> Result<ModulTyp, ExtractError> {
    match ModulTyp::named(without_suffix(trimmed(html), TITLE_SUFFIX@)) {
        Some(typ) => Ok(typ),
        None => Err(ExtractError::UnknownEnumValue(UnknownName::Course)),
    }
}

/// The group that a caption with the text `text` names, `None` for a
/// timetable held for all: the text is trimmed, what precedes the name is
/// taken off, and the name is looked up.
pub open spec fn caption_group(text: Seq<char>) -> Result<Option<ModulGruppe>, ExtractError> {
    let name = without_prefix(trimmed(text), CAPTION_PREFIX@);
    if name == NO_GROUP@ {
        Ok(None)
    } else {
        match ModulGruppe::named(name) {
            Some(gruppe) => Ok(Some(gruppe)),
            None => Err(ExtractError::UnknownEnumValue(UnknownName::Group)),
        }
    }
}

/// The times of day between which a slot runs, read from the content `html` of
/// its time cell: non-breaking spaces become spaces, the text is trimmed and
/// cut at `" bis "`, and the first two pieces are read as times of day.
pub open spec fn cell_time_range(html: Seq<char>) -> Result<(Clock, Clock), ExtractError> {
    match first_two_pieces(trimmed(replaced(html, "&nbsp;"@, " "@)), " bis "@) {
        Some((von, bis)) => match (clock_in(von), clock_in(bis)) {
            (Some(von), Some(bis)) => Ok((von, bis)),
            _ => Err(ExtractError::ParseError(Malformed::Time)),
        },
        None => Err(ExtractError::ParseError(Malformed::Time)),
    }
}

/// The session on the date that one entry of a list of dates names.
pub open spec fn dated_session(item: FoundView, von: Clock, bis: Clock) -> Result<
    ModulTermin,
    ExtractError,
> {
    match item.text {
        None => Err(ExtractError::MarkupError(Missing::DateText)),
        Some(text) => match date_in(trimmed(text)) {
            None => Err(ExtractError::ParseError(Malformed::Date)),
            Some(date) => match ModulTermin::placed(date, von, bis) {
                None => Err(ExtractError::ParseError(Malformed::Session)),
                Some(termin) => Ok(termin),
            },
        },
    }
}

/// The sessions on the dates that a list of dates names, in the list's order;
/// the first entry that cannot be read decides the error.
pub open spec fn dated_sessions(items: Seq<FoundView>, von: Clock, bis: Clock) -> Result<
    Seq<ModulTermin>,
    ExtractError,
>
    decreases items.len(),
{
    if items.len() == 0 {
        Ok(Seq::empty())
    } else {
        match dated_sessions(items.drop_last(), von, bis) {
            Err(e) => Err(e),
            Ok(before) => match dated_session(items.last(), von, bis) {
                Err(e) => Err(e),
                Ok(termin) => Ok(before.push(termin)),
            },
        }
    }
}

/// Reads the course that a heading names.
pub fn course_of_heading(html: &str) -> (typ: Result<ModulTyp, ExtractError>)
    ensures
        typ == heading_course(html@),
{
    ModulTyp::parse(trim_end_matches(trim(html), TITLE_SUFFIX))
}

/// Reads the group that a caption names.
pub fn group_of_caption(text: &str) -> (gruppe: Result<Option<ModulGruppe>, ExtractError>)
    ensures
        gruppe == caption_group(text@),
{
    let name = trim_start_matches(trim(text), CAPTION_PREFIX);
    if same_text(name, NO_GROUP) {
        Ok(None)
    } else {
        match ModulGruppe::parse(name) {
            Ok(gruppe) => Ok(Some(gruppe)),
            Err(e) => Err(e),
        }
    }
}

/// Reads the times of day between which a slot runs from its time cell.
pub fn time_range(html: &str) -> (range: Result<(Clock, Clock), ExtractError>)
    ensures
        range == cell_time_range(html@),
{
    let plain = replace(html, "&nbsp;", " ");
    match split_first_two(trim(plain.as_str()), " bis ") {
        Some((von, bis)) => match (parse_clock(von), parse_clock(bis)) {
            (Some(von), Some(bis)) => Ok((von, bis)),
            _ => Err(ExtractError::ParseError(Malformed::Time)),
        },
        None => Err(ExtractError::ParseError(Malformed::Time)),
    }
}

/// Reads the session on the date that one entry of a list of dates names.
pub fn session_on(item: &Found, von: Clock, bis: Clock) -> (termin: Result<
    ModulTermin,
    ExtractError,
>)
    ensures
        termin == dated_session(item@, von, bis),
{
    match &item.text {
        None => Err(ExtractError::MarkupError(Missing::DateText)),
        Some(text) => match parse_date(trim(text.as_str())) {
            None => Err(ExtractError::ParseError(Malformed::Date)),
            Some(date) => match ModulTermin::local(date, von, bis) {
                None => Err(ExtractError::ParseError(Malformed::Session)),
                Some(termin) => Ok(termin),
            },
        },
    }
}

/// Reads the sessions on the dates that a list of dates names.
pub fn sessions_on(items: &Vec<Found>, von: Clock, bis: Clock) -> (termine: Result<
    Vec<ModulTermin>,
    ExtractError,
>)
    ensures
        match termine {
            Ok(t) => dated_sessions(found_views(items@), von, bis) == Ok::<
                Seq<ModulTermin>,
                ExtractError,
            >(t@),
            Err(e) => dated_sessions(found_views(items@), von, bis) == Err::<
                Seq<ModulTermin>,
                ExtractError,
            >(e),
        },
{
    let ghost all = found_views(items@);
    let mut termine: Vec<ModulTermin> = Vec::new();
    let mut i: usize = 0;
    assert(all.take(0) =~= Seq::<FoundView>::empty());
    while i < items.len()
        invariant
            i <= items.len(),
            all == found_views(items@),
            dated_sessions(all.take(i as int), von, bis) == Ok::<Seq<ModulTermin>, ExtractError>(
                termine@,
            ),
        decreases items.len() - i,
    {
        assert(all.take(i + 1).drop_last() =~= all.take(i as int));
        assert(all.take(i + 1).last() == items@[i as int]@);
        match session_on(&items[i], von, bis) {
            Err(e) => {
                proof {
                    failed_date_fails_list(all, i + 1, von, bis);
                }
                return Err(e);
            },
            Ok(termin) => {
                termine.push(termin);
            },
        }
        i += 1;
    }
    assert(all.take(i as int) =~= all);
    Ok(termine)
}

/// Once the dates up to a position cannot all be read, no longer list can.
proof fn failed_date_fails_list(items: Seq<FoundView>, upto: int, von: Clock, bis: Clock)
    requires
        0 <= upto <= items.len(),
        dated_sessions(items.take(upto), von, bis) is Err,
    ensures
        dated_sessions(items, von, bis) == dated_sessions(items.take(upto), von, bis),
    decreases items.len() - upto,
{
    if upto < items.len() {
        assert(items.take(upto + 1).drop_last() =~= items.take(upto));
        failed_date_fails_list(items, upto + 1, von, bis);
    } else {
        assert(items.take(upto) =~= items);
    }
}

/// The elements found in row `j` of timetable `i`; none where the grid has no
/// such row.
pub open spec fn cell_of(grid: Option<Seq<Seq<Seq<FoundView>>>>, i: int, j: int) -> Seq<FoundView> {
    match grid {
        Some(g) => if 0 <= i < g.len() && 0 <= j < g[i].len() {
            g[i][j]
        } else {
            Seq::empty()
        },
        None => Seq::empty(),
    }
}

/// The links that open the rows of a page, by timetable and row.
pub open spec fn links_of(page: Seq<char>) -> Option<Seq<Seq<Seq<FoundView>>>> {
    selected_in_rows(page, TABLES@, ROWS@, EXPAND@, "href"@)
}

/// The course that the heading of `page` names.
pub open spec fn page_course(page: Seq<char>) -> Result<ModulTyp, ExtractError> {
    match selected(page, TITLE@, ""@) {
        Some(headings) => if headings.len() == 0 {
            Err(ExtractError::MarkupError(Missing::Title))
        } else {
            heading_course(headings[0].inner_html)
        },
        None => Err(ExtractError::MarkupError(Missing::Title)),
    }
}

/// Where the link of row `j` of timetable `i` of `page` leads.
pub open spec fn link_at(page: Seq<char>, i: int, j: int) -> Result<Seq<char>, ExtractError> {
    let links = cell_of(links_of(page), i, j);
    if links.len() == 0 {
        Err(ExtractError::MarkupError(Missing::ExpandLink))
    } else {
        match links[0].attribute {
            Some(target) => Ok(target),
            None => Err(ExtractError::MarkupError(Missing::ExpandTarget)),
        }
    }
}

/// The first timetable at or after `from` that has a row.
pub open spec fn next_table(grid: Seq<Seq<Seq<FoundView>>>, from: int) -> Option<int>
    decreases grid.len() - from,
{
    if from < 0 || from >= grid.len() {
        None
    } else if grid[from].len() > 0 {
        Some(from)
    } else {
        next_table(grid, from + 1)
    }
}

/// The first row of `page`: the timetable and the row in it, `None` where the
/// page has no row.
pub open spec fn first_row(page: Seq<char>) -> Result<Option<(int, int)>, ExtractError> {
    match links_of(page) {
        Some(grid) => Ok(
            match next_table(grid, 0) {
                Some(i) => Some((i, 0)),
                None => None,
            },
        ),
        None => Err(ExtractError::MarkupError(Missing::Table)),
    }
}

/// The row of `page` that follows row `j` of timetable `i`: the next row of
/// the same timetable, or the first row of the next timetable that has one.
pub open spec fn row_after(page: Seq<char>, i: int, j: int) -> Result<
    Option<(int, int)>,
    ExtractError,
> {
    match links_of(page) {
        Some(grid) => Ok(
            if 0 <= i < grid.len() && 0 <= j && j + 1 < grid[i].len() {
                Some((i, j + 1))
            } else {
                match next_table(grid, i + 1) {
                    Some(k) => Some((k, 0)),
                    None => None,
                }
            },
        ),
        None => Err(ExtractError::MarkupError(Missing::Table)),
    }
}

/// The group that timetable `i` of the opened page is held for.
pub open spec fn row_group(expanded: Seq<char>, i: int) -> Result<Option<ModulGruppe>, ExtractError> {
    match selected_within(expanded, TABLES@, CAPTION@, ""@) {
        Some(captions) => if !(0 <= i < captions.len()) {
            Err(ExtractError::MarkupError(Missing::Table))
        } else if captions[i].len() == 0 {
            Err(ExtractError::MarkupError(Missing::Caption))
        } else {
            match captions[i][0].text {
                Some(text) => caption_group(text),
                None => Err(ExtractError::MarkupError(Missing::CaptionText)),
            }
        },
        None => Err(ExtractError::MarkupError(Missing::Table)),
    }
}

/// The trimmed content of the first element found in row `j` of timetable `i`.
pub open spec fn first_trimmed(grid: Option<Seq<Seq<Seq<FoundView>>>>, i: int, j: int) -> Option<
    Seq<char>,
> {
    let found = cell_of(grid, i, j);
    if found.len() == 0 {
        None
    } else {
        Some(trimmed(found[0].inner_html))
    }
}

/// The room of row `j` of timetable `i` of `page`.
pub open spec fn row_room(page: Seq<char>, i: int, j: int) -> Option<Seq<char>> {
    first_trimmed(selected_in_rows(page, TABLES@, ROWS@, ROOM@, ""@), i, j)
}

/// The remark of row `j` of timetable `i` of `page`.
pub open spec fn row_note(page: Seq<char>, i: int, j: int) -> Option<Seq<char>> {
    first_trimmed(selected_in_rows(page, TABLES@, ROWS@, NOTE@, ""@), i, j)
}

/// The times of day between which row `j` of timetable `i` of `page` runs.
pub open spec fn row_time(page: Seq<char>, i: int, j: int) -> Result<(Clock, Clock), ExtractError> {
    let found = cell_of(selected_in_rows(page, TABLES@, ROWS@, TIME@, ""@), i, j);
    if found.len() == 0 {
        Err(ExtractError::MarkupError(Missing::Time))
    } else {
        cell_time_range(found[0].inner_html)
    }
}

/// The sessions of row `j` of timetable `i`: one for each date that the row
/// after it lists in the opened page.
pub open spec fn row_sessions(expanded: Seq<char>, i: int, j: int, von: Clock, bis: Clock) -> Result<
    Seq<ModulTermin>,
    ExtractError,
> {
    match selected_in_rows(expanded, TABLES@, ROWS@, DATES@, ""@) {
        Some(grid) => if !(0 <= i < grid.len()) {
            Err(ExtractError::MarkupError(Missing::Table))
        } else if !(0 <= j && j + 1 < grid[i].len()) {
            Err(ExtractError::MarkupError(Missing::Dates))
        } else {
            dated_sessions(grid[i][j + 1], von, bis)
        },
        None => Err(ExtractError::MarkupError(Missing::Table)),
    }
}

/// The entry that row `j` of timetable `i` stands for, read from the course's
/// page and from the page with the row opened. What is missing or cannot be
/// read is looked for in this order: the group, the time range, the dates.
pub open spec fn row_entry(typ: ModulTyp, page: Seq<char>, expanded: Seq<char>, i: int, j: int)
    -> Result<ModulView, ExtractError> {
    match row_group(expanded, i) {
        Err(e) => Err(e),
        Ok(gruppe) => match row_time(page, i, j) {
            Err(e) => Err(e),
            Ok((von, bis)) => match row_sessions(expanded, i, j, von, bis) {
                Err(e) => Err(e),
                Ok(termine) => Ok(
                    ModulView {
                        typ,
                        gruppe,
                        termine,
                        raum: row_room(page, i, j),
                        bemerkung: row_note(page, i, j),
                    },
                ),
            },
        },
    }
}

/// The first element found in row `j` of timetable `i`.
fn first_in(grid: &Option<Vec<Vec<Vec<Found>>>>, i: usize, j: usize) -> (first: Option<&Found>)
    ensures
        match first {
            Some(f) => cell_of(grid_view(*grid), i as int, j as int).len() > 0 && f@ == cell_of(
                grid_view(*grid),
                i as int,
                j as int,
            )[0],
            None => cell_of(grid_view(*grid), i as int, j as int).len() == 0,
        },
{
    match grid {
        Some(tables) => {
            if i < tables.len() && j < tables[i].len() && tables[i][j].len() > 0 {
                Some(&tables[i][j][0])
            } else {
                None
            }
        },
        None => None,
    }
}

/// Reads the course that the heading of a page names.
pub fn course_of_page(page: &str) -> (typ: Result<ModulTyp, ExtractError>)
    ensures
        typ == page_course(page@),
{
    match select(page, TITLE, "") {
        Some(headings) => {
            if headings.len() == 0 {
                Err(ExtractError::MarkupError(Missing::Title))
            } else {
                course_of_heading(headings[0].inner_html.as_str())
            }
        },
        None => Err(ExtractError::MarkupError(Missing::Title)),
    }
}

/// Reads where the link of a row leads.
pub fn link_of_row(page: &str, i: usize, j: usize) -> (link: Result<String, ExtractError>)
    ensures
        match link {
            Ok(target) => link_at(page@, i as int, j as int) == Ok::<Seq<char>, ExtractError>(
                target@,
            ),
            Err(e) => link_at(page@, i as int, j as int) == Err::<Seq<char>, ExtractError>(e),
        },
{
    let links = select_in_rows(page, TABLES, ROWS, EXPAND, "href");
    match first_in(&links, i, j) {
        Some(found) => match &found.attribute {
            Some(target) => Ok(target.clone()),
            None => Err(ExtractError::MarkupError(Missing::ExpandTarget)),
        },
        None => Err(ExtractError::MarkupError(Missing::ExpandLink)),
    }
}

/// The first timetable at or after `from` that has a row.
fn table_from(grid: &Vec<Vec<Vec<Found>>>, from: usize) -> (at: Option<usize>)
    ensures
        next_table(found_views3(grid@), from as int) == match at {
            Some(k) => Some(k as int),
            None => None,
        },
        at matches Some(k) ==> from <= k < grid.len() && grid[k as int].len() > 0,
{
    let ghost all = found_views3(grid@);
    let mut k: usize = from;
    while k < grid.len()
        invariant
            from <= k,
            all == found_views3(grid@),
            next_table(all, from as int) == next_table(all, k as int),
        decreases grid.len() - k,
    {
        if grid[k].len() > 0 {
            return Some(k);
        }
        k += 1;
    }
    None
}

/// Finds the first row of a page.
pub fn first_row_of(page: &str) -> (row: Result<Option<(usize, usize)>, ExtractError>)
    ensures
        first_row(page@) == match row {
            Ok(Some((i, j))) => Ok(Some((i as int, j as int))),
            Ok(None) => Ok(None),
            Err(e) => Err(e),
        },
{
    match select_in_rows(page, TABLES, ROWS, EXPAND, "href") {
        Some(grid) => match table_from(&grid, 0) {
            Some(i) => Ok(Some((i, 0))),
            None => Ok(None),
        },
        None => Err(ExtractError::MarkupError(Missing::Table)),
    }
}

/// Finds the row of a page that follows row `j` of timetable `i`.
pub fn row_after_of(page: &str, i: usize, j: usize) -> (row: Result<
    Option<(usize, usize)>,
    ExtractError,
>)
    ensures
        row_after(page@, i as int, j as int) == match row {
            Ok(Some((i, j))) => Ok(Some((i as int, j as int))),
            Ok(None) => Ok(None),
            Err(e) => Err(e),
        },
{
    match select_in_rows(page, TABLES, ROWS, EXPAND, "href") {
        Some(grid) => {
            if i < grid.len() && j < grid[i].len() && j + 1 < grid[i].len() {
                Ok(Some((i, j + 1)))
            } else if i >= grid.len() {
                Ok(None)
            } else {
                match table_from(&grid, i + 1) {
                    Some(k) => Ok(Some((k, 0))),
                    None => Ok(None),
                }
            }
        },
        None => Err(ExtractError::MarkupError(Missing::Table)),
    }
}

/// Reads the group that a timetable of the opened page is held for.
pub fn group_of_row(expanded: &str, i: usize) -> (gruppe: Result<Option<ModulGruppe>, ExtractError>)
    ensures
        gruppe == row_group(expanded@, i as int),
{
    match select_within(expanded, TABLES, CAPTION, "") {
        Some(captions) => {
            if i >= captions.len() {
                Err(ExtractError::MarkupError(Missing::Table))
            } else if captions[i].len() == 0 {
                Err(ExtractError::MarkupError(Missing::Caption))
            } else {
                match &captions[i][0].text {
                    Some(text) => group_of_caption(text.as_str()),
                    None => Err(ExtractError::MarkupError(Missing::CaptionText)),
                }
            }
        },
        None => Err(ExtractError::MarkupError(Missing::Table)),
    }
}

/// Reads the trimmed content of the first element that `cell` finds in a row.
fn trimmed_cell(page: &str, cell: &str, i: usize, j: usize) -> (content: Option<String>)
    ensures
        opt_text(content) == first_trimmed(
            selected_in_rows(page@, TABLES@, ROWS@, cell@, ""@),
            i as int,
            j as int,
        ),
{
    let grid = select_in_rows(page, TABLES, ROWS, cell, "");
    match first_in(&grid, i, j) {
        Some(found) => Some(trim(found.inner_html.as_str()).to_owned()),
        None => None,
    }
}

/// Reads the times of day between which a row runs.
pub fn time_of_row(page: &str, i: usize, j: usize) -> (range: Result<(Clock, Clock), ExtractError>)
    ensures
        range == row_time(page@, i as int, j as int),
{
    let grid = select_in_rows(page, TABLES, ROWS, TIME, "");
    match first_in(&grid, i, j) {
        Some(found) => time_range(found.inner_html.as_str()),
        None => Err(ExtractError::MarkupError(Missing::Time)),
    }
}

/// Reads the sessions of a row from the opened page.
pub fn sessions_of_row(expanded: &str, i: usize, j: usize, von: Clock, bis: Clock) -> (termine:
    Result<Vec<ModulTermin>, ExtractError>)
    ensures
        match termine {
            Ok(t) => row_sessions(expanded@, i as int, j as int, von, bis) == Ok::<
                Seq<ModulTermin>,
                ExtractError,
            >(t@),
            Err(e) => row_sessions(expanded@, i as int, j as int, von, bis) == Err::<
                Seq<ModulTermin>,
                ExtractError,
            >(e),
        },
{
    match select_in_rows(expanded, TABLES, ROWS, DATES, "") {
        Some(grid) => {
            if i >= grid.len() {
                Err(ExtractError::MarkupError(Missing::Table))
            } else if grid[i].len() == 0 || j >= grid[i].len() - 1 {
                Err(ExtractError::MarkupError(Missing::Dates))
            } else {
                sessions_on(&grid[i][j + 1], von, bis)
            }
        },
        None => Err(ExtractError::MarkupError(Missing::Table)),
    }
}

/// Reads the entry that a row stands for from the course's page and from the
/// page with the row opened.
pub fn read_row(typ: ModulTyp, page: &str, expanded: &str, i: usize, j: usize) -> (entry: Result<
    Modul,
    ExtractError,
>)
    ensures
        match entry {
            Ok(m) => row_entry(typ, page@, expanded@, i as int, j as int) == Ok::<
                ModulView,
                ExtractError,
            >(m@),
            Err(e) => row_entry(typ, page@, expanded@, i as int, j as int) == Err::<
                ModulView,
                ExtractError,
            >(e),
        },
{
    let gruppe = match group_of_row(expanded, i) {
        Ok(gruppe) => gruppe,
        Err(e) => {
            return Err(e);
        },
    };
    let (von, bis) = match time_of_row(page, i, j) {
        Ok(range) => range,
        Err(e) => {
            return Err(e);
        },
    };
    let termine = match sessions_of_row(expanded, i, j, von, bis) {
        Ok(termine) => termine,
        Err(e) => {
            return Err(e);
        },
    };
    let raum = trimmed_cell(page, ROOM, i, j);
    let bemerkung = trimmed_cell(page, NOTE, i, j);
    Ok(Modul { typ, gruppe, termine, raum, bemerkung })
}

} // verus!
