//! Why an extraction of the timetable fails.

use vstd::prelude::*;

verus! {

/// The part of a page that was looked for and not found.
#[derive(Clone, Copy, Debug, PartialEq, Eq, Structural)]
pub enum Missing {
    /// The heading that names the course.
    Title,
    /// The link in a row that opens the row's dates.
    ExpandLink,
    /// The target of that link.
    ExpandTarget,
    /// The timetable in the page that the link leads to.
    Table,
    /// The caption of that timetable.
    Caption,
    /// The text of that caption.
    CaptionText,
    /// The cell of a row that holds the time range.
    Time,
    /// The row that lists the dates.
    Dates,
    /// The text of one entry of that list.
    DateText,
}

/// The text that could not be read.
#[derive(Clone, Copy, Debug, PartialEq, Eq, Structural)]
pub enum Malformed {
    /// A time range that is not `HH:MM bis HH:MM`.
    Time,
    /// A date that is not `DD.MM.YYYY`.
    Date,
    /// A date and time of day that the institution's clocks never show, or
    /// show twice, or that leave a session without a positive length.
    Session,
}

/// The table in which a name was looked up and not found.
#[derive(Clone, Copy, Debug, PartialEq, Eq, Structural)]
pub enum UnknownName {
    Course,
    Group,
}

/// Why an extraction fails. Every failure ends the extraction: no schedule
/// comes out of it.
#[derive(Clone, Copy, Debug, PartialEq, Eq, Structural)]
pub enum ExtractError {
    /// A page could not be fetched.
    FetchError,
    /// An expected part of a page is missing.
    MarkupError(Missing),
    /// A date or a time could not be read.
    ParseError(Malformed),
    /// A course name or a group caption is not in its table.
    UnknownEnumValue(UnknownName),
}

impl ExtractError {
    /// A sentence for the log or for the person who asked for the extraction.
    pub open spec fn sentence(self) -> Seq<char> {
        match self {
            ExtractError::FetchError => "Failed to send HTTP request"@,
            ExtractError::MarkupError(Missing::Title) => "Failed to get name"@,
            ExtractError::MarkupError(Missing::ExpandLink) => "Failed to get expand button"@,
            ExtractError::MarkupError(Missing::ExpandTarget) =>
                "Failed to get `href` attribute of expand button"@,
            ExtractError::MarkupError(Missing::Table) => "Failed to get table"@,
            ExtractError::MarkupError(Missing::Caption) => "Failed to get group"@,
            ExtractError::MarkupError(Missing::CaptionText) => "Failed to get text of group"@,
            ExtractError::MarkupError(Missing::Time) => "Failed to get time"@,
            ExtractError::MarkupError(Missing::Dates) => "Failed to get dates"@,
            ExtractError::MarkupError(Missing::DateText) => "Failed to get text of date"@,
            ExtractError::ParseError(Malformed::Time) => "Failed to parse time"@,
            ExtractError::ParseError(Malformed::Date) => "Failed to parse date"@,
            ExtractError::ParseError(Malformed::Session) => "Failed to place a session in time"@,
            ExtractError::UnknownEnumValue(UnknownName::Course) =>
                "Failed to parse name to `ModulTyp`"@,
            ExtractError::UnknownEnumValue(UnknownName::Group) =>
                "Failed to parse group to `ModulGruppe`"@,
        }
    }

    /// A sentence for the log or for the person who asked for the extraction.
    pub fn message(&self) -> (text: &'static str)
        ensures
            text@ == self.sentence(),
    {
        match self {
            ExtractError::FetchError => "Failed to send HTTP request",
            ExtractError::MarkupError(Missing::Title) => "Failed to get name",
            ExtractError::MarkupError(Missing::ExpandLink) => "Failed to get expand button",
            ExtractError::MarkupError(Missing::ExpandTarget) =>
                "Failed to get `href` attribute of expand button",
            ExtractError::MarkupError(Missing::Table) => "Failed to get table",
            ExtractError::MarkupError(Missing::Caption) => "Failed to get group",
            ExtractError::MarkupError(Missing::CaptionText) => "Failed to get text of group",
            ExtractError::MarkupError(Missing::Time) => "Failed to get time",
            ExtractError::MarkupError(Missing::Dates) => "Failed to get dates",
            ExtractError::MarkupError(Missing::DateText) => "Failed to get text of date",
            ExtractError::ParseError(Malformed::Time) => "Failed to parse time",
            ExtractError::ParseError(Malformed::Date) => "Failed to parse date",
            ExtractError::ParseError(Malformed::Session) => "Failed to place a session in time",
            ExtractError::UnknownEnumValue(UnknownName::Course) =>
                "Failed to parse name to `ModulTyp`",
            ExtractError::UnknownEnumValue(UnknownName::Group) =>
                "Failed to parse group to `ModulGruppe`",
        }
    }
}

} // verus!
