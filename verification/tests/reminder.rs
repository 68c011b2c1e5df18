use lsfbot::calendar::Clock;
use lsfbot::calendar::Date;
use lsfbot::config::Config;
use lsfbot::config::Discord;
use lsfbot::config::Group;
use lsfbot::config::LinkData;
use lsfbot::config::Links;
use lsfbot::modul::EmbedColor;
use lsfbot::modul::Modul;
use lsfbot::modul::ModulGruppe;
use lsfbot::modul::ModulTermin;
use lsfbot::modul::ModulTyp;
use lsfbot::reminder::applies;
use lsfbot::reminder::cycle;
use lsfbot::reminder::following;
use lsfbot::reminder::gather;
use lsfbot::reminder::group_notifications;
use lsfbot::reminder::sort_by_start;
use lsfbot::reminder::targets_for;
use lsfbot::reminder::user_notifications;
use lsfbot::reminder::Rule;
use lsfbot::reminder::Target;
use lsfbot::user::Duration;
use lsfbot::user::User;

/// 2020-11-02 00:00 in Berlin, a Monday.
const MIDNIGHT: i64 = 1604271600;

fn at(hour: i64, minute: i64) -> i64 {
    MIDNIGHT + hour * 3600 + minute * 60
}

fn session(from: (u32, u32), to: (u32, u32)) -> ModulTermin {
    ModulTermin::local(
        Date { year: 2020, month: 11, day: 2 },
        Clock { hour: from.0, minute: from.1 },
        Clock { hour: to.0, minute: to.1 },
    )
    .unwrap()
}

fn course(typ: ModulTyp, gruppe: Option<ModulGruppe>, termine: Vec<ModulTermin>) -> Modul {
    Modul { typ, gruppe, termine, raum: Some("F-123".to_string()), bemerkung: None }
}

fn link(name: &str) -> LinkData {
    LinkData {
        lsf: format!("http://lsf/{}", name),
        vorlesungen: Some(format!("http://online/{}/v", name)),
        uebungen: None,
    }
}

fn config() -> Config {
    Config {
        discord: Discord {
            bot_token: "SECRET-REDACTED".to_string(),
            guild_id: 1,
            gruppe_1: Group { channel_id: 11, role_id: 101 },
            gruppe_2: Group { channel_id: 12, role_id: 102 },
            gruppe_3: Group { channel_id: 13, role_id: 103 },
            gruppe_4: Group { channel_id: 14, role_id: 104 },
        },
        links: Links {
            mathematik1: link("m"),
            programmiertechnik1: link("p"),
            softwaremodellierung: link("s"),
            digitaltechnik: link("d"),
        },
    }
}

fn user(gruppe: Option<ModulGruppe>, lead: Option<u64>, follow: bool) -> User {
    User {
        id: 7,
        gruppe,
        enabled: true,
        send_before: lead.map(|minutes| Duration { minutes }),
        send_after_previous: follow,
    }
}

#[test]
fn session_is_placed_on_the_time_line() {
    let s = session((10, 0), (10, 50));
    assert_eq!(s.beginn(), at(10, 0));
    assert_eq!(s.ende(), at(10, 50));
    assert_eq!(s.von().weekday, 0);
    assert_eq!(s.von().date, Date { year: 2020, month: 11, day: 2 });
    assert_eq!(s.bis().clock, Clock { hour: 10, minute: 50 });
}

#[test]
fn session_must_end_after_it_begins() {
    assert!(ModulTermin::new(100, 100).is_none());
    assert!(ModulTermin::new(100, 99).is_none());
    assert!(ModulTermin::new(100, 101).is_some());
    assert!(ModulTermin::local(
        Date { year: 2020, month: 11, day: 2 },
        Clock { hour: 10, minute: 0 },
        Clock { hour: 9, minute: 0 },
    )
    .is_none());
}

#[test]
fn local_time_that_does_not_exist_or_exists_twice_gives_no_session() {
    // 2021-03-28 02:30 is skipped in Berlin, 2020-10-25 02:30 occurs twice.
    assert!(ModulTermin::local(
        Date { year: 2021, month: 3, day: 28 },
        Clock { hour: 2, minute: 30 },
        Clock { hour: 4, minute: 0 },
    )
    .is_none());
    assert!(ModulTermin::local(
        Date { year: 2020, month: 10, day: 25 },
        Clock { hour: 2, minute: 30 },
        Clock { hour: 4, minute: 0 },
    )
    .is_none());
    assert!(ModulTermin::local(
        Date { year: 2021, month: 2, day: 30 },
        Clock { hour: 10, minute: 0 },
        Clock { hour: 11, minute: 0 },
    )
    .is_none());
}

#[test]
fn group_rule_fires_in_exactly_one_of_consecutive_cycles() {
    let module = vec![course(ModulTyp::Mathematik1, None, vec![session((10, 0), (10, 50))])];
    let now = at(10, 0) - 27 * 60;
    let mut fired = 0;
    for k in -3i64..=3 {
        let found = gather(&module, Rule::GroupChannel { now: now + k * 300 });
        fired += found.len();
    }
    assert_eq!(fired, 1);
    let first = gather(&module, Rule::GroupChannel { now });
    let again = gather(&module, Rule::GroupChannel { now });
    assert_eq!(first.len(), 1);
    assert_eq!(first[0].modul_termin, again[0].modul_termin);
    assert_eq!(
        group_notifications(&module, &config(), now),
        group_notifications(&module, &config(), now)
    );
}

#[test]
fn group_window_is_open_at_both_ends() {
    let module = vec![course(ModulTyp::Mathematik1, None, vec![session((10, 0), (10, 50))])];
    let due = |minutes: i64, seconds: i64| {
        gather(&module, Rule::GroupChannel { now: at(10, 0) - minutes * 60 - seconds }).len()
    };
    assert_eq!(due(30, 1), 0);
    assert_eq!(due(30, 0), 0);
    assert_eq!(due(29, 59), 1);
    assert_eq!(due(27, 0), 1);
    assert_eq!(due(26, 0), 1);
    assert_eq!(due(25, 59), 1);
    assert_eq!(due(25, 30), 1);
    assert_eq!(due(25, 1), 1);
    assert_eq!(due(25, 0), 0);
    assert_eq!(due(24, 59), 0);
}

#[test]
fn session_twenty_five_and_a_half_minutes_ahead_is_due() {
    let course = course(ModulTyp::Mathematik1, None, vec![session((10, 0), (10, 50))]);
    let now = at(9, 34) + 30;
    let rule = Rule::GroupChannel { now };
    let found = course.messages(|termin| applies(&rule, &course, termin));
    assert_eq!(found.len(), 1);
    assert_eq!(found[0].modul_termin.beginn(), at(10, 0));
    let rule = Rule::LeadTime { now, minutes: 30, gruppe: None };
    assert_eq!(course.messages(|termin| applies(&rule, &course, termin)).len(), 1);
}

#[test]
fn cycles_five_minutes_apart_do_not_miss_a_session() {
    let module = vec![course(ModulTyp::Mathematik1, None, vec![session((10, 0), (10, 50))])];
    for phase in 1..300 {
        let mut fired = 0;
        for k in 0..12 {
            let now = at(9, 0) + phase + k * 300;
            fired += gather(&module, Rule::GroupChannel { now }).len();
        }
        assert_eq!(fired, 1);
    }
}

#[test]
fn personal_lead_time_boundary() {
    let module = vec![course(ModulTyp::Mathematik1, None, vec![session((10, 0), (10, 50))])];
    let due = |minutes: i64, seconds: i64| {
        let rule = Rule::LeadTime {
            now: at(10, 0) - minutes * 60 - seconds,
            minutes: 30,
            gruppe: None,
        };
        gather(&module, rule).len()
    };
    assert_eq!(due(30, 0), 0);
    assert_eq!(due(29, 59), 1);
    assert_eq!(due(26, 0), 1);
    assert_eq!(due(25, 30), 1);
    assert_eq!(due(25, 1), 1);
    assert_eq!(due(25, 0), 0);
}

#[test]
fn lead_time_near_zero_and_very_large() {
    let module = vec![course(ModulTyp::Mathematik1, None, vec![session((10, 0), (10, 50))])];
    let due = |lead: u64, seconds_before: i64| {
        let rule = Rule::LeadTime { now: at(10, 0) - seconds_before, minutes: lead, gruppe: None };
        gather(&module, rule).len()
    };
    assert_eq!(due(2, 60), 1);
    assert_eq!(due(2, 0), 1);
    assert_eq!(due(2, -119), 1);
    assert_eq!(due(2, -180), 0);
    assert_eq!(due(2, 120), 0);
    assert_eq!(due(u64::MAX, 60), 0);
}

#[test]
fn follow_previous_selects_the_earliest_start_after_the_end() {
    let module = vec![
        course(ModulTyp::Mathematik1, None, vec![session((10, 0), (10, 50))]),
        course(ModulTyp::Digitaltechnik, None, vec![session((11, 5), (11, 55))]),
        course(ModulTyp::Softwaremodellierung, None, vec![session((11, 0), (11, 50))]),
    ];
    let next = following(&module, None, at(10, 52)).unwrap();
    assert_eq!(next.modul.typ, ModulTyp::Softwaremodellierung);
    assert_eq!(next.modul_termin.beginn(), at(11, 0));
}

#[test]
fn follow_previous_needs_a_session_that_has_just_ended() {
    let module = vec![
        course(ModulTyp::Mathematik1, None, vec![session((10, 0), (10, 50))]),
        course(ModulTyp::Softwaremodellierung, None, vec![session((11, 0), (11, 50))]),
    ];
    assert!(following(&module, None, at(10, 49)).is_none());
    assert!(following(&module, None, at(10, 50)).is_none());
    assert!(following(&module, None, at(10, 50) + 1).is_some());
    assert!(following(&module, None, at(10, 50) + 30).is_some());
    assert!(following(&module, None, at(10, 51)).is_some());
    assert!(following(&module, None, at(10, 54) + 59).is_some());
    assert!(following(&module, None, at(10, 55)).is_none());
}

#[test]
fn follow_previous_with_equal_starts_takes_the_first_in_the_schedule() {
    let module = vec![
        course(ModulTyp::Mathematik1, None, vec![session((10, 0), (10, 50))]),
        course(ModulTyp::Digitaltechnik, None, vec![session((11, 0), (11, 55))]),
        course(ModulTyp::Softwaremodellierung, None, vec![session((11, 0), (11, 50))]),
    ];
    let next = following(&module, None, at(10, 52)).unwrap();
    assert_eq!(next.modul.typ, ModulTyp::Digitaltechnik);
}

#[test]
fn follow_previous_with_two_sessions_just_ended_goes_by_the_first() {
    let module = vec![
        course(ModulTyp::Mathematik1, None, vec![session((10, 0), (10, 50))]),
        course(ModulTyp::Digitaltechnik, None, vec![session((10, 0), (10, 48))]),
        course(ModulTyp::Softwaremodellierung, None, vec![session((10, 49), (11, 50))]),
        course(ModulTyp::Programmiertechnik1, None, vec![session((11, 0), (11, 50))]),
    ];
    let next = following(&module, None, at(10, 52)).unwrap();
    assert_eq!(next.modul.typ, ModulTyp::Programmiertechnik1);
}

#[test]
fn follow_previous_sees_only_the_sessions_of_the_own_group() {
    let module = vec![
        course(ModulTyp::Mathematik1, None, vec![session((10, 0), (10, 50))]),
        course(
            ModulTyp::Digitaltechnik,
            Some(ModulGruppe::Gruppe2),
            vec![session((11, 0), (11, 50))],
        ),
        course(
            ModulTyp::Softwaremodellierung,
            Some(ModulGruppe::Gruppe1),
            vec![session((11, 5), (11, 55))],
        ),
    ];
    let next = following(&module, Some(ModulGruppe::Gruppe1), at(10, 52)).unwrap();
    assert_eq!(next.modul.typ, ModulTyp::Softwaremodellierung);
    assert!(following(&module, None, at(10, 52)).is_none());
}

#[test]
fn sessions_are_sorted_by_start_and_keep_their_order_on_ties() {
    let module = vec![
        course(
            ModulTyp::Mathematik1,
            None,
            vec![session((12, 0), (12, 50)), session((10, 0), (10, 50))],
        ),
        course(ModulTyp::Digitaltechnik, None, vec![session((10, 0), (11, 50))]),
    ];
    let all = gather(
        &module,
        Rule::OnDay { day: Some(Date { year: 2020, month: 11, day: 2 }), gruppe: None },
    );
    assert_eq!(all.len(), 3);
    let sorted = sort_by_start(all);
    assert_eq!(sorted[0].modul.typ, ModulTyp::Mathematik1);
    assert_eq!(sorted[0].modul_termin.beginn(), at(10, 0));
    assert_eq!(sorted[1].modul.typ, ModulTyp::Digitaltechnik);
    assert_eq!(sorted[2].modul_termin.beginn(), at(12, 0));
}

#[test]
fn course_for_all_goes_to_all_four_channels() {
    let cfg = config();
    let all = course(ModulTyp::Mathematik1, None, vec![]);
    let one = course(ModulTyp::Mathematik1, Some(ModulGruppe::Gruppe3), vec![]);
    assert_eq!(
        targets_for(&all, &cfg),
        vec![cfg.discord.gruppe_1, cfg.discord.gruppe_2, cfg.discord.gruppe_3, cfg.discord.gruppe_4]
    );
    assert_eq!(targets_for(&one, &cfg), vec![cfg.discord.gruppe_3]);
}

#[test]
fn group_notifications_call_on_the_group_and_describe_the_session() {
    let cfg = config();
    let module = vec![
        course(
            ModulTyp::Digitaltechnik,
            Some(ModulGruppe::Gruppe2),
            vec![session((10, 2), (10, 50))],
        ),
        course(ModulTyp::Mathematik1, None, vec![session((10, 0), (11, 30))]),
    ];
    let queue = group_notifications(&module, &cfg, at(9, 33));
    assert_eq!(queue.len(), 5);
    assert_eq!(queue[0].target, Target::Channel(11));
    assert_eq!(queue[0].message.content.as_deref(), Some("<@&101>"));
    assert_eq!(queue[0].message.title, "Mathematik 1");
    assert_eq!(queue[0].message.color, Some(EmbedColor::Blue));
    assert_eq!(queue[0].message.description.as_deref(), Some("Montag 10:00 - 11:30"));
    assert_eq!(queue[0].message.fields.len(), 2);
    assert_eq!(queue[0].message.fields[0].name, "Online");
    assert_eq!(queue[0].message.fields[0].value, "http://online/m/v");
    assert_eq!(queue[0].message.fields[1].name, "Raum");
    assert_eq!(queue[0].message.fields[1].value, "F-123");
    assert_eq!(queue[3].target, Target::Channel(14));
    assert_eq!(queue[4].target, Target::Channel(12));
    assert_eq!(queue[4].message.content.as_deref(), Some("<@&102>"));
    assert_eq!(queue[4].message.title, "Digitaltechnik (Gruppe 2)");
    assert_eq!(queue[4].message.color, Some(EmbedColor::DarkGreen));
    assert_eq!(queue[4].message.description.as_deref(), Some("Montag 10:02 - 10:50"));
    assert_eq!(queue[4].message.fields.len(), 1);
}

#[test]
fn user_notifications_follow_the_wishes() {
    let cfg = config();
    let module = vec![
        course(ModulTyp::Mathematik1, None, vec![session((10, 0), (10, 50))]),
        course(ModulTyp::Softwaremodellierung, None, vec![session((11, 0), (11, 50))]),
        course(
            ModulTyp::Digitaltechnik,
            Some(ModulGruppe::Gruppe2),
            vec![session((11, 0), (11, 50))],
        ),
    ];
    let now = at(10, 52);
    let both = user_notifications(&module, &cfg, &user(Some(ModulGruppe::Gruppe1), Some(10), true), now);
    assert_eq!(both.len(), 2);
    assert_eq!(both[0].target, Target::Direct(7));
    assert_eq!(both[0].message.content, None);
    assert_eq!(both[0].message.title, "Softwaremodellierung");
    assert_eq!(both[1].message.content.as_deref(), Some("in 8 minutes"));
    assert_eq!(both[1].message.title, "Softwaremodellierung");

    let other_group = user_notifications(&module, &cfg, &user(Some(ModulGruppe::Gruppe2), Some(10), false), now);
    assert_eq!(other_group.len(), 2);
    assert_eq!(other_group[1].message.title, "Digitaltechnik (Gruppe 2)");

    let none = user_notifications(&module, &cfg, &user(None, None, false), now);
    assert!(none.is_empty());

    let mut off = user(None, Some(10), true);
    off.enabled = false;
    assert!(user_notifications(&module, &cfg, &off, now).is_empty());
}

#[test]
fn cycle_sends_to_the_groups_first_and_then_to_each_person() {
    let cfg = config();
    let module = vec![course(
        ModulTyp::Mathematik1,
        Some(ModulGruppe::Gruppe1),
        vec![session((10, 0), (10, 50))],
    )];
    let users = vec![
        user(Some(ModulGruppe::Gruppe1), Some(30), false),
        user(Some(ModulGruppe::Gruppe2), Some(30), false),
    ];
    let queue = cycle(&module, &cfg, &users, at(9, 33));
    assert_eq!(queue.len(), 2);
    assert_eq!(queue[0].target, Target::Channel(11));
    assert_eq!(queue[1].target, Target::Direct(7));
    assert!(cycle(&module, &cfg, &users, at(9, 28)).is_empty());
}

#[test]
fn follow_previous_may_select_a_short_session_that_has_ended_too() {
    let module = vec![
        course(ModulTyp::Mathematik1, None, vec![session((10, 0), (10, 50))]),
        course(ModulTyp::Digitaltechnik, None, vec![session((10, 51), (10, 53))]),
        course(ModulTyp::Softwaremodellierung, None, vec![session((11, 0), (11, 50))]),
    ];
    let next = following(&module, None, at(10, 54)).unwrap();
    assert_eq!(next.modul.typ, ModulTyp::Digitaltechnik);
    let next = following(&module, None, at(10, 55)).unwrap();
    assert_eq!(next.modul.typ, ModulTyp::Softwaremodellierung);
}

#[test]
fn follow_previous_looks_at_today_only() {
    let tomorrow = ModulTermin::local(
        Date { year: 2020, month: 11, day: 3 },
        Clock { hour: 8, minute: 0 },
        Clock { hour: 9, minute: 30 },
    )
    .unwrap();
    let module = vec![
        course(ModulTyp::Mathematik1, None, vec![session((10, 0), (10, 50))]),
        course(ModulTyp::Digitaltechnik, None, vec![tomorrow]),
    ];
    assert!(following(&module, None, at(10, 52)).is_none());
    let late = vec![course(ModulTyp::Mathematik1, None, vec![session((22, 0), (23, 58))])];
    assert!(following(&late, None, at(24, 1)).is_none());
}
