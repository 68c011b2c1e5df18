use lsfbot::calendar::Clock;
use lsfbot::calendar::Date;
use lsfbot::command::apply_setting;
use lsfbot::command::configuration;
use lsfbot::command::is_setting;
use lsfbot::command::list;
use lsfbot::command::parse_setting;
use lsfbot::command::reply_to_setting;
use lsfbot::command::Listing;
use lsfbot::command::SetError;
use lsfbot::command::Setting;
use lsfbot::modul::Modul;
use lsfbot::modul::ModulGruppe;
use lsfbot::modul::ModulTermin;
use lsfbot::modul::ModulTyp;
use lsfbot::user::Duration;
use lsfbot::user::Roles;
use lsfbot::user::User;
use lsfbot::user::Users;

/// 2020-11-02 00:00 in Berlin, a Monday.
const MIDNIGHT: i64 = 1604271600;

fn session(day: u32, from: (u32, u32), to: (u32, u32)) -> ModulTermin {
    ModulTermin::local(
        Date { year: 2020, month: 11, day },
        Clock { hour: from.0, minute: from.1 },
        Clock { hour: to.0, minute: to.1 },
    )
    .unwrap()
}

fn schedule() -> Vec<Modul> {
    vec![
        Modul {
            typ: ModulTyp::Mathematik1,
            gruppe: None,
            termine: vec![session(2, (12, 0), (13, 30)), session(9, (12, 0), (13, 30))],
            raum: None,
            bemerkung: None,
        },
        Modul {
            typ: ModulTyp::Digitaltechnik,
            gruppe: Some(ModulGruppe::Gruppe2),
            termine: vec![session(2, (8, 0), (9, 30)), session(4, (8, 0), (9, 30))],
            raum: None,
            bemerkung: None,
        },
    ]
}

fn roles(second: bool) -> Roles {
    Roles { gruppe_1: false, gruppe_2: second, gruppe_3: false, gruppe_4: false }
}

fn types(shown: &Listing) -> Vec<(ModulTyp, i64)> {
    match shown {
        Listing::Sessions(found) => {
            found.iter().map(|m| (m.modul.typ, m.modul_termin.beginn())).collect()
        }
        _ => panic!("no sessions"),
    }
}

#[test]
fn listing_for_a_date_shows_that_day_in_order() {
    let module = schedule();
    let shown = list(&module, Some("02.11.2020"), roles(true), MIDNIGHT);
    assert_eq!(
        types(&shown),
        vec![
            (ModulTyp::Digitaltechnik, MIDNIGHT + 8 * 3600),
            (ModulTyp::Mathematik1, MIDNIGHT + 12 * 3600)
        ]
    );
    let shown = list(&module, Some("02.11.2020"), roles(false), MIDNIGHT);
    assert_eq!(types(&shown), vec![(ModulTyp::Mathematik1, MIDNIGHT + 12 * 3600)]);
}

#[test]
fn listing_for_a_day_without_sessions_says_so() {
    let module = schedule();
    match list(&module, Some("03.11.2020"), roles(true), MIDNIGHT) {
        Listing::Nothing(sentence) => {
            assert_eq!(sentence, "Keine Lehrveranstaltungen am 03.11.2020")
        }
        _ => panic!("sessions on an empty day"),
    }
    match list(&module, Some("4.11.2020"), roles(false), MIDNIGHT) {
        Listing::Nothing(sentence) => {
            assert_eq!(sentence, "Keine Lehrveranstaltungen am 04.11.2020")
        }
        _ => panic!("sessions of another group"),
    }
}

#[test]
fn listing_for_a_date_that_cannot_be_read_says_so() {
    let module = schedule();
    assert!(matches!(list(&module, Some("2020-11-02"), roles(true), MIDNIGHT), Listing::InvalidDate));
    assert!(matches!(list(&module, Some("31.02.2020"), roles(true), MIDNIGHT), Listing::InvalidDate));
    assert!(matches!(list(&module, Some(""), roles(true), MIDNIGHT), Listing::InvalidDate));
}

#[test]
fn listing_without_a_date_shows_the_next_day_that_has_sessions() {
    let module = schedule();
    let shown = list(&module, None, roles(true), MIDNIGHT + 9 * 3600);
    assert_eq!(types(&shown), vec![(ModulTyp::Mathematik1, MIDNIGHT + 12 * 3600)]);
    let shown = list(&module, None, roles(true), MIDNIGHT + 12 * 3600);
    assert_eq!(
        types(&shown),
        vec![(ModulTyp::Digitaltechnik, MIDNIGHT + 2 * 86400 + 8 * 3600)]
    );
    let shown = list(&module, None, roles(false), MIDNIGHT + 12 * 3600);
    assert_eq!(types(&shown), vec![]);
    let shown = list(&module, None, roles(false), MIDNIGHT + 12 * 3600 + 86400);
    assert_eq!(
        types(&shown),
        vec![(ModulTyp::Mathematik1, MIDNIGHT + 7 * 86400 + 12 * 3600)]
    );
    let shown = list(&module, None, roles(false), MIDNIGHT + 12 * 3600 - 86400);
    assert_eq!(types(&shown), vec![(ModulTyp::Mathematik1, MIDNIGHT + 12 * 3600)]);
    let shown = list(&module, None, roles(false), MIDNIGHT + 12 * 3600 + 7 * 86400);
    assert_eq!(types(&shown), vec![]);
}

#[test]
fn settings_are_read_from_two_words() {
    assert_eq!(parse_setting("send-before", "off"), Ok(Setting::SendBefore(None)));
    assert_eq!(
        parse_setting("send-before", "45"),
        Ok(Setting::SendBefore(Some(Duration { minutes: 45 })))
    );
    assert_eq!(parse_setting("send-before", "soon"), Err(SetError::UnknownLeadTime));
    assert_eq!(parse_setting("send-before", "on"), Err(SetError::UnknownLeadTime));
    assert_eq!(parse_setting("send-after-previous", "on"), Ok(Setting::SendAfterPrevious(true)));
    assert_eq!(parse_setting("send-after-previous", "off"), Ok(Setting::SendAfterPrevious(false)));
    assert_eq!(parse_setting("send-after-previous", "1"), Err(SetError::UnknownSwitch));
    assert_eq!(parse_setting("send-later", "on"), Err(SetError::UnknownSubcommand));
}

#[test]
fn settings_are_answered() {
    assert_eq!(reply_to_setting("send-before", "45"), "Set `send-before` to `45`");
    assert_eq!(reply_to_setting("send-before", "off"), "Set `send-before` to `off`");
    assert_eq!(
        reply_to_setting("send-before", "soon"),
        "Error: Unknown value `soon` (available values: number, `off`)"
    );
    assert_eq!(
        reply_to_setting("send-after-previous", "on"),
        "Set `send-after-previous` to `on`"
    );
    assert_eq!(
        reply_to_setting("send-after-previous", "yes"),
        "Error: Unknown value `yes` (available values: `on`, `off`)"
    );
    assert_eq!(reply_to_setting("send-later", "on"), "Error: Unknown subcommand `send-later`");
}

#[test]
fn settings_are_recorded() {
    let mut users = Users::new(vec![]);
    apply_setting(&mut users, 5, Some(ModulGruppe::Gruppe3), Setting::SendAfterPrevious(true));
    apply_setting(&mut users, 5, None, Setting::SendBefore(None));
    assert_eq!(
        users.get_all(),
        &[User {
            id: 5,
            gruppe: Some(ModulGruppe::Gruppe3),
            enabled: false,
            send_before: None,
            send_after_previous: true,
        }]
    );
}

#[test]
fn wishes_are_shown() {
    let card = configuration(&User {
        id: 5,
        gruppe: None,
        enabled: true,
        send_before: Some(Duration { minutes: 30 }),
        send_after_previous: false,
    });
    assert_eq!(card.title, "Configuration");
    assert_eq!(card.content, None);
    assert_eq!(card.color, None);
    assert_eq!(card.description, None);
    let lines: Vec<(&str, &str)> =
        card.fields.iter().map(|f| (f.name.as_str(), f.value.as_str())).collect();
    assert_eq!(
        lines,
        vec![("enabled", "true"), ("send-before", "30min"), ("send-after-previous", "off")]
    );
    let card = configuration(&User {
        id: 5,
        gruppe: None,
        enabled: false,
        send_before: None,
        send_after_previous: true,
    });
    let lines: Vec<(&str, &str)> =
        card.fields.iter().map(|f| (f.name.as_str(), f.value.as_str())).collect();
    assert_eq!(
        lines,
        vec![("enabled", "false"), ("send-before", "off"), ("send-after-previous", "on")]
    );
}

#[test]
fn only_the_name_of_a_wish_is_followed_by_a_value() {
    assert!(is_setting("send-before"));
    assert!(is_setting("send-after-previous"));
    assert!(!is_setting("send-later"));
    assert!(!is_setting(""));
    assert!(!is_setting("send-before "));
}
