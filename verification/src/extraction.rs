//! An extraction of the whole timetable, one step at a time.
//!
//! The pages have to be fetched, and between two courses the extraction has
//! to pause. Neither is done here: an extraction says what it waits for, is
//! told what came of it, and says what it waits for next. The caller fetches
//! and sleeps.

use crate::config::Config;
use crate::error::ExtractError;
use crate::error::UnknownName;
use crate::extract::course_of_page;
use crate::extract::first_row;
use crate::extract::first_row_of;
use crate::extract::link_at;
use crate::extract::link_of_row;
use crate::extract::page_course;
use crate::extract::read_row;
use crate::extract::row_after;
use crate::extract::row_after_of;
use crate::extract::row_entry;
use crate::modul::Modul;
use crate::modul::ModulTyp;
use crate::modul::ModulView;
use crate::modul::views;
use crate::schedule::merge;
use crate::schedule::merged;
use crate::schedule::merged_all;
use vstd::prelude::*;

verus! {

/// The seconds to pause between one course's pages and the next course's, to
/// spare the server.
pub const THROTTLE_SECONDS: u64 = 2;

/// What an extraction waits for.
#[derive(Debug, PartialEq, Eq)]
pub enum Action {
    /// The page at this address.
    Fetch(String),
    /// A pause of this many seconds.
    Pause(u64),
    /// Nothing: the schedule is complete.
    Done,
    /// Nothing: the extraction has failed.
    Failed(ExtractError),
}

/// What came of the thing an extraction waited for.
#[derive(Debug, PartialEq, Eq)]
pub enum Reply {
    /// The page was fetched; this is its text.
    Page(String),
    /// The page could not be fetched.
    Unreachable,
    /// The pause is over.
    Resumed,
}

/// Where an extraction stands.
enum Stage {
    /// It waits for the page of the current course.
    Index,
    /// It waits for the course's page with one row opened.
    Row { typ: ModulTyp, page: String, table: usize, row: usize, link: String },
    /// It waits for the pause between the current course and the next to end.
    Pause,
    /// It has read every course.
    Done,
    /// It has failed.
    Failed(ExtractError),
}

/// An extraction in progress: the addresses of the courses' pages, the course
/// it is at, and the schedule built so far.
pub struct Extraction {
    sources: Vec<String>,
    at: usize,
    stage: Stage,
    module: Vec<Modul>,
    without_dates: bool,
    entries: Ghost<Seq<ModulView>>,
}

/// An action as a mathematical value.
pub enum ActionView {
    Fetch(Seq<char>),
    Pause(int),
    Done,
    Failed(ExtractError),
}

/// A reply as a mathematical value.
pub enum ReplyView {
    Page(Seq<char>),
    Unreachable,
    Resumed,
}

/// A stage as a mathematical value.
pub enum StageView {
    Index,
    Row { typ: ModulTyp, page: Seq<char>, table: int, row: int, link: Seq<char> },
    Pause,
    Done,
    Failed(ExtractError),
}

/// An extraction as a mathematical value.
pub struct ExtractionView {
    /// The addresses of the courses' pages.
    pub sources: Seq<Seq<char>>,
    /// The position of the current course among them.
    pub at: int,
    pub stage: StageView,
    /// The schedule built so far.
    pub module: Seq<ModulView>,
    /// Whether the last step read a row that lists no date. Such a row is
    /// taken into the schedule all the same, and is worth a warning.
    pub without_dates: bool,
    /// The entries read so far, one for each row, in the order read.
    pub entries: Seq<ModulView>,
}

impl View for Action {
    type V = ActionView;

    open spec fn view(&self) -> ActionView {
        match self {
            Action::Fetch(address) => ActionView::Fetch(address@),
            Action::Pause(seconds) => ActionView::Pause(*seconds as int),
            Action::Done => ActionView::Done,
            Action::Failed(e) => ActionView::Failed(*e),
        }
    }
}

impl View for Reply {
    type V = ReplyView;

    open spec fn view(&self) -> ReplyView {
        match self {
            Reply::Page(text) => ReplyView::Page(text@),
            Reply::Unreachable => ReplyView::Unreachable,
            Reply::Resumed => ReplyView::Resumed,
        }
    }
}

impl View for Stage {
    type V = StageView;

    closed spec fn view(&self) -> StageView {
        match self {
            Stage::Index => StageView::Index,
            Stage::Row { typ, page, table, row, link } => StageView::Row {
                typ: *typ,
                page: page@,
                table: *table as int,
                row: *row as int,
                link: link@,
            },
            Stage::Pause => StageView::Pause,
            Stage::Done => StageView::Done,
            Stage::Failed(e) => StageView::Failed(*e),
        }
    }
}

/// The texts of a list as mathematical values.
pub open spec fn texts(list: Seq<String>) -> Seq<Seq<char>> {
    list.map_values(|t: String| t@)
}

impl View for Extraction {
    type V = ExtractionView;

    closed spec fn view(&self) -> ExtractionView {
        ExtractionView {
            sources: texts(self.sources@),
            at: self.at as int,
            stage: self.stage@,
            module: views(self.module@),
            without_dates: self.without_dates,
            entries: self.entries@,
        }
    }
}

/// What holds of every extraction: while it works it is at one of its
/// courses, and its schedule is what comes of merging the entries read so far.
pub open spec fn sound(s: ExtractionView) -> bool {
    &&& s.stage is Index || s.stage is Row || s.stage is Pause ==> 0 <= s.at < s.sources.len()
    &&& s.module == merged_all(s.entries)
}

/// An extraction of the pages at `sources`, before its first step.
pub open spec fn begun(sources: Seq<Seq<char>>) -> ExtractionView {
    ExtractionView {
        sources,
        at: 0,
        stage: if sources.len() == 0 {
            StageView::Done
        } else {
            StageView::Index
        },
        module: Seq::empty(),
        without_dates: false,
        entries: Seq::empty(),
    }
}

/// What an extraction waits for.
pub open spec fn waiting_for(s: ExtractionView) -> ActionView {
    match s.stage {
        StageView::Index => ActionView::Fetch(s.sources[s.at]),
        StageView::Row { link, .. } => ActionView::Fetch(link),
        StageView::Pause => ActionView::Pause(THROTTLE_SECONDS as int),
        StageView::Done => ActionView::Done,
        StageView::Failed(e) => ActionView::Failed(e),
    }
}

/// The extraction after it has failed with `e`. Its schedule stays as it was
/// and is never handed out.
pub open spec fn failed(s: ExtractionView, e: ExtractError) -> ExtractionView {
    ExtractionView { stage: StageView::Failed(e), ..s }
}

/// The extraction after it has turned to the row `row` of the course's page:
/// it waits for the page that the row's link leads to. Where the page has no
/// further row, it waits for the pause before the next course, or is done
/// where that course was the last.
pub open spec fn entered(
    s: ExtractionView,
    typ: ModulTyp,
    page: Seq<char>,
    row: Result<Option<(int, int)>, ExtractError>,
) -> ExtractionView {
    match row {
        Err(e) => failed(s, e),
        Ok(None) => if s.at + 1 < s.sources.len() {
            ExtractionView { stage: StageView::Pause, ..s }
        } else {
            ExtractionView { stage: StageView::Done, ..s }
        },
        Ok(Some((i, j))) => match link_at(page, i, j) {
            Err(e) => failed(s, e),
            Ok(link) => ExtractionView {
                stage: StageView::Row { typ, page, table: i, row: j, link },
                ..s
            },
        },
    }
}

/// The extraction after one step.
///
/// When the page of a course arrives, its heading is read and the extraction
/// turns to the page's first row. When the page with a row opened arrives,
/// the row's entry is read and merged into the schedule, and the extraction
/// turns to the next row; after the last row of a course it pauses, or is done
/// where no course is left. When the pause ends, it turns to the next course.
/// A page that cannot be fetched, and anything that is
/// missing or cannot be read, fails the extraction. A reply that does not
/// answer what the extraction waits for changes nothing. A row that lists no
/// date is taken in like any other; the step that reads it says so in
/// `without_dates`, and every other step that changes anything says that it
/// read no such row.
pub open spec fn step(s: ExtractionView, reply: ReplyView) -> ExtractionView {
    let quiet = ExtractionView { without_dates: false, ..s };
    match (s.stage, reply) {
        (StageView::Index, ReplyView::Page(page)) => match page_course(page) {
            Err(e) => failed(quiet, e),
            Ok(typ) => entered(quiet, typ, page, first_row(page)),
        },
        (StageView::Row { typ, page, table, row, link }, ReplyView::Page(expanded)) => match row_entry(
            typ,
            page,
            expanded,
            table,
            row,
        ) {
            Err(e) => failed(quiet, e),
            Ok(entry) => entered(
                ExtractionView {
                    module: merged(s.module, entry),
                    without_dates: entry.termine.len() == 0,
                    entries: s.entries.push(entry),
                    ..s
                },
                typ,
                page,
                row_after(page, table, row),
            ),
        },
        (StageView::Index, ReplyView::Unreachable) => failed(quiet, ExtractError::FetchError),
        (StageView::Row { .. }, ReplyView::Unreachable) => failed(quiet, ExtractError::FetchError),
        (StageView::Pause, ReplyView::Resumed) => if s.at + 1 < s.sources.len() {
            ExtractionView { at: s.at + 1, stage: StageView::Index, ..quiet }
        } else {
            ExtractionView { stage: StageView::Done, ..quiet }
        },
        _ => s,
    }
}

/// The addresses of the courses' pages that a configuration names, in the
/// order in which they are read.
pub fn sources_of(cfg: &Config) -> (sources: Vec<String>)
    ensures
        texts(sources@) == seq![
            cfg.links.mathematik1.lsf@,
            cfg.links.programmiertechnik1.lsf@,
            cfg.links.softwaremodellierung.lsf@,
            cfg.links.digitaltechnik.lsf@,
        ],
{
    let links = cfg.links.to_vec();
    let mut sources: Vec<String> = Vec::new();
    let mut i: usize = 0;
    while i < links.len()
        invariant
            i <= links.len(),
            sources.len() == i,
            forall|k: int| 0 <= k < i ==> (#[trigger] sources@[k])@ == links@[k].lsf@,
        decreases links.len() - i,
    {
        sources.push(links[i].lsf.clone());
        i += 1;
    }
    assert(texts(sources@) =~= seq![
        cfg.links.mathematik1.lsf@,
        cfg.links.programmiertechnik1.lsf@,
        cfg.links.softwaremodellierung.lsf@,
        cfg.links.digitaltechnik.lsf@,
    ]);
    sources
}

/// Begins an extraction of the whole timetable: of the pages of the four
/// courses that the configuration names. Nothing is fetched here; the
/// extraction that comes back says what it waits for.
pub fn fetch_module(cfg: &Config) -> (extraction: Extraction)
    ensures
        extraction@ == begun(
            seq![
                cfg.links.mathematik1.lsf@,
                cfg.links.programmiertechnik1.lsf@,
                cfg.links.softwaremodellierung.lsf@,
                cfg.links.digitaltechnik.lsf@,
            ],
        ),
        sound(extraction@),
{
    Extraction::new(sources_of(cfg))
}

impl Extraction {
    #[verifier::type_invariant]
    closed spec fn valid(self) -> bool {
        sound(self@)
    }

    /// An extraction of the pages at `sources`.
    pub fn new(sources: Vec<String>) -> (extraction: Extraction)
        ensures
            extraction@ == begun(texts(sources@)),
            sound(extraction@),
    {
        let stage = if sources.len() == 0 {
            Stage::Done
        } else {
            Stage::Index
        };
        let module: Vec<Modul> = Vec::new();
        assert(views(module@) =~= merged_all(Seq::empty()));
        Extraction {
            sources,
            at: 0,
            stage,
            module,
            without_dates: false,
            entries: Ghost(Seq::empty()),
        }
    }

    /// What the extraction waits for.
    pub fn pending(&self) -> (action: Action)
        ensures
            action@ == waiting_for(self@),
            sound(self@),
    {
        proof {
            use_type_invariant(self);
        }
        match &self.stage {
            Stage::Index => Action::Fetch(self.sources[self.at].clone()),
            Stage::Row { link, .. } => Action::Fetch(link.clone()),
            Stage::Pause => Action::Pause(THROTTLE_SECONDS),
            Stage::Done => Action::Done,
            Stage::Failed(e) => Action::Failed(*e),
        }
    }

    /// Turns to a row of the course's page.
    fn enter(
        sources: Vec<String>,
        at: usize,
        module: Vec<Modul>,
        without_dates: bool,
        entries: Ghost<Seq<ModulView>>,
        typ: ModulTyp,
        page: String,
        row: Result<Option<(usize, usize)>, ExtractError>,
    ) -> (next: Extraction)
        requires
            at < sources.len(),
            views(module@) == merged_all(entries@),
        ensures
            next@ == entered(
                ExtractionView {
                    sources: texts(sources@),
                    at: at as int,
                    stage: StageView::Index,
                    module: views(module@),
                    without_dates,
                    entries: entries@,
                },
                typ,
                page@,
                match row {
                    Ok(Some((i, j))) => Ok(Some((i as int, j as int))),
                    Ok(None) => Ok(None),
                    Err(e) => Err(e),
                },
            ),
    {
        assert(texts(sources@).len() == sources.len());
        let stage = match row {
            Err(e) => Stage::Failed(e),
            Ok(None) => if at + 1 < sources.len() {
                Stage::Pause
            } else {
                Stage::Done
            },
            Ok(Some((i, j))) => match link_of_row(page.as_str(), i, j) {
                Err(e) => Stage::Failed(e),
                Ok(link) => Stage::Row { typ, page, table: i, row: j, link },
            },
        };
        Extraction { sources, at, stage, module, without_dates, entries }
    }

    /// Whether the last step read a row that lists no date. The row is in the
    /// schedule all the same; the caller may want to warn of it.
    pub fn read_row_without_dates(&self) -> (yes: bool)
        ensures
            yes == self@.without_dates,
    {
        self.without_dates
    }

    /// Takes one step: tells the extraction what came of the thing it waited
    /// for, and learns what it waits for next.
    pub fn advance(self, reply: Reply) -> (next: (Extraction, Action))
        ensures
            next.0@ == step(self@, reply@),
            next.1@ == waiting_for(next.0@),
            sound(next.0@),
    {
        proof {
            use_type_invariant(&self);
        }
        let Extraction { sources, at, stage, module, without_dates, entries } = self;
        let next = match (stage, reply) {
            (Stage::Index, Reply::Page(page)) => match course_of_page(page.as_str()) {
                Err(e) => Extraction {
                    sources,
                    at,
                    stage: Stage::Failed(e),
                    module,
                    without_dates: false,
                    entries,
                },
                Ok(typ) => {
                    let row = first_row_of(page.as_str());
                    Self::enter(sources, at, module, false, entries, typ, page, row)
                },
            },
            (Stage::Row { typ, page, table, row, link }, Reply::Page(expanded)) => match read_row(
                typ,
                page.as_str(),
                expanded.as_str(),
                table,
                row,
            ) {
                Err(e) => Extraction {
                    sources,
                    at,
                    stage: Stage::Failed(e),
                    module,
                    without_dates: false,
                    entries,
                },
                Ok(entry) => {
                    let mut module = module;
                    let ghost read = entries@.push(entry@);
                    proof {
                        assert(read.drop_last() =~= entries@);
                    }
                    let empty = entry.termine.len() == 0;
                    merge(&mut module, entry);
                    let after = row_after_of(page.as_str(), table, row);
                    Self::enter(sources, at, module, empty, Ghost(read), typ, page, after)
                },
            },
            (Stage::Index, Reply::Unreachable) => Extraction {
                sources,
                at,
                stage: Stage::Failed(ExtractError::FetchError),
                module,
                without_dates: false,
                entries,
            },
            (Stage::Row { typ, page, table, row, link }, Reply::Unreachable) => Extraction {
                sources,
                at,
                stage: Stage::Failed(ExtractError::FetchError),
                module,
                without_dates: false,
                entries,
            },
            (Stage::Pause, Reply::Resumed) => {
                assert(texts(sources@).len() == sources.len());
                if at + 1 < sources.len() {
                    Extraction {
                        sources,
                        at: at + 1,
                        stage: Stage::Index,
                        module,
                        without_dates: false,
                        entries,
                    }
                } else {
                    Extraction {
                        sources,
                        at,
                        stage: Stage::Done,
                        module,
                        without_dates: false,
                        entries,
                    }
                }
            },
            (stage, _) => Extraction { sources, at, stage, module, without_dates, entries },
        };
        let action = next.pending();
        (next, action)
    }

    /// The schedule, once the extraction is done; nothing before that, and
    /// nothing after a failure.
    pub fn finish(self) -> (schedule: Option<Vec<Modul>>)
        ensures
            schedule is Some <==> self@.stage is Done,
            schedule matches Some(module) ==> views(module@) == self@.module && views(module@)
                == merged_all(self@.entries),
    {
        proof {
            use_type_invariant(&self);
        }
        match self.stage {
            Stage::Done => Some(self.module),
            _ => None,
        }
    }
}

/// A page whose heading names no known course fails the extraction, as an
/// unknown name, and adds no course to the schedule.
pub proof fn unknown_course_is_rejected(s: ExtractionView, page: Seq<char>)
    requires
        s.stage is Index,
        page_course(page) == Err::<ModulTyp, ExtractError>(
            ExtractError::UnknownEnumValue(UnknownName::Course),
        ),
    ensures
        step(s, ReplyView::Page(page)).stage == StageView::Failed(
            ExtractError::UnknownEnumValue(UnknownName::Course),
        ),
        step(s, ReplyView::Page(page)).module == s.module,
        step(s, ReplyView::Page(page)).entries == s.entries,
{
}

/// A failed extraction stays failed, whatever it is told.
pub proof fn failure_is_final(s: ExtractionView, reply: ReplyView)
    requires
        s.stage is Failed,
    ensures
        step(s, reply) == s,
{
}

/// Every step keeps an extraction sound: its schedule is always the merge of
/// the entries read so far.
pub proof fn step_keeps_sound(s: ExtractionView, reply: ReplyView)
    requires
        sound(s),
    ensures
        sound(step(s, reply)),
{
    match (s.stage, reply) {
        (StageView::Row { typ, page, table, row, link }, ReplyView::Page(expanded)) => {
            match row_entry(typ, page, expanded, table, row) {
                Ok(entry) => {
                    assert(s.entries.push(entry).drop_last() =~= s.entries);
                },
                Err(_) => {},
            }
        },
        _ => {},
    }
}

} // verus!
