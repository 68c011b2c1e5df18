//! What the operator configures: the chat server's channels and roles, and the
//! links of each course.

use vstd::prelude::*;

verus! {

/// The whole configuration.
pub struct Config {
    pub discord: Discord,
    pub links: Links,
}

/// The chat server: its token, its id, and the channel and role of each group.
pub struct Discord {
    pub bot_token: String,
    pub guild_id: u64,
    pub gruppe_1: Group,
    pub gruppe_2: Group,
    pub gruppe_3: Group,
    pub gruppe_4: Group,
}

/// The channel in which a group is reminded, and the role that its members hold.
#[derive(Clone, Copy, Debug, PartialEq, Eq, Structural)]
pub struct Group {
    pub channel_id: u64,
    pub role_id: u64,
}

/// The links of every course.
pub struct Links {
    pub mathematik1: LinkData,
    pub programmiertechnik1: LinkData,
    pub softwaremodellierung: LinkData,
    pub digitaltechnik: LinkData,
}

/// The links of one course: its timetable page, and where its lectures and its
/// exercises are held online.
pub struct LinkData {
    pub lsf: String,
    pub vorlesungen: Option<String>,
    pub uebungen: Option<String>,
}

impl Links {
    /// The links of the four courses, in the order in which their timetables
    /// are read.
    pub fn to_vec(&self) -> (all: Vec<&LinkData>)
        ensures
            all@ == seq![
                &self.mathematik1,
                &self.programmiertechnik1,
                &self.softwaremodellierung,
                &self.digitaltechnik,
            ],
    {
        let mut all: Vec<&LinkData> = Vec::new();
        all.push(&self.mathematik1);
        all.push(&self.programmiertechnik1);
        all.push(&self.softwaremodellierung);
        all.push(&self.digitaltechnik);
        assert(all@ =~= seq![
            &self.mathematik1,
            &self.programmiertechnik1,
            &self.softwaremodellierung,
            &self.digitaltechnik,
        ]);
        all
    }
}

} // verus!
