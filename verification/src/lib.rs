//! Timetable reminders.
//!
//! A university publishes its lecture timetable as web pages. This library
//! holds the rules of a bot that reads those pages into a schedule and
//! reminds groups and people of the sessions that are about to begin:
//!
//! - [`modul`] is the schedule itself: courses, groups and dated sessions.
//! - [`extract`] reads a course's pages, [`schedule`] merges what was read,
//!   and [`extraction`] steps through the pages of all courses.
//! - [`reminder`] decides what each cycle sends, and [`message`] is how a
//!   session is shown.
//! - [`user`] keeps the people's wishes, and [`command`] decides what the
//!   bot's commands answer.
//! - [`calendar`] and [`markup`] stand between these rules and the crates
//!   that know calendars and HTML; [`text`] holds the work on characters.
//!
//! Nothing here fetches a page, reads a clock, sleeps or sends a message: the
//! program around the library does that and hands over plain values.

pub mod calendar;
pub mod command;
pub mod config;
pub mod error;
pub mod extract;
pub mod extraction;
pub mod markup;
pub mod message;
pub mod modul;
pub mod reminder;
pub mod schedule;
pub mod text;
pub mod user;
