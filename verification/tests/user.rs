use lsfbot::modul::ModulGruppe;
use lsfbot::user::Duration;
use lsfbot::user::Roles;
use lsfbot::user::User;
use lsfbot::user::Users;

fn record(id: u64) -> User {
    User {
        id,
        gruppe: Some(ModulGruppe::Gruppe1),
        enabled: true,
        send_before: Some(Duration { minutes: 15 }),
        send_after_previous: true,
    }
}

#[test]
fn first_request_makes_a_record_with_the_defaults() {
    let mut users = Users::new(vec![record(1)]);
    users.enable(2, Some(ModulGruppe::Gruppe4));
    assert_eq!(
        users.get(2),
        Some(&User {
            id: 2,
            gruppe: Some(ModulGruppe::Gruppe4),
            enabled: true,
            send_before: Some(Duration { minutes: 30 }),
            send_after_previous: false,
        })
    );
    assert_eq!(users.get_all().len(), 2);
    assert_eq!(users.get(1), Some(&record(1)));
}

#[test]
fn known_person_keeps_group_and_wishes() {
    let mut users = Users::new(vec![record(1)]);
    users.disable(1);
    users.enable(1, Some(ModulGruppe::Gruppe3));
    assert_eq!(users.get(1), Some(&record(1)));
    users.set_send_before(1, None, None);
    users.set_send_after(1, None, false);
    assert_eq!(
        users.get(1),
        Some(&User {
            id: 1,
            gruppe: Some(ModulGruppe::Gruppe1),
            enabled: true,
            send_before: None,
            send_after_previous: false,
        })
    );
}

#[test]
fn disable_and_remove_leave_strangers_alone() {
    let mut users = Users::new(vec![record(1), record(2)]);
    users.disable(3);
    users.remove(3);
    assert_eq!(users.get_all(), &[record(1), record(2)]);
    users.disable(2);
    assert_eq!(users.get(2).map(|u| u.enabled), Some(false));
    users.remove(1);
    assert_eq!(users.get_all().len(), 1);
    assert_eq!(users.get(1), None);
    assert_eq!(users.position(2), Some(0));
}

#[test]
fn first_of_two_records_for_one_person_counts() {
    let mut second = record(1);
    second.enabled = false;
    let mut users = Users::new(vec![record(1), second]);
    assert_eq!(users.get(1), Some(&record(1)));
    users.remove(1);
    assert_eq!(users.get(1), Some(&second));
}

#[test]
fn refresh_replaces_the_records() {
    let mut users = Users::new(vec![record(1)]);
    users.refresh(vec![record(2), record(3)]);
    assert_eq!(users.get_all(), &[record(2), record(3)]);
}

#[test]
fn group_is_the_first_role_held() {
    let none = Roles { gruppe_1: false, gruppe_2: false, gruppe_3: false, gruppe_4: false };
    assert_eq!(none.gruppe(), None);
    let two = Roles { gruppe_1: false, gruppe_2: true, gruppe_3: false, gruppe_4: true };
    assert_eq!(two.gruppe(), Some(ModulGruppe::Gruppe2));
    assert!(two.has(ModulGruppe::Gruppe4));
    assert!(!two.has(ModulGruppe::Gruppe1));
    let last = Roles { gruppe_1: false, gruppe_2: false, gruppe_3: false, gruppe_4: true };
    assert_eq!(last.gruppe(), Some(ModulGruppe::Gruppe4));
}

#[test]
fn group_is_kept_under_a_word() {
    for g in [
        ModulGruppe::Gruppe1,
        ModulGruppe::Gruppe2,
        ModulGruppe::Gruppe3,
        ModulGruppe::Gruppe4,
    ] {
        assert_eq!(ModulGruppe::from_symbol(g.as_symbol()), Some(g));
    }
    assert_eq!(ModulGruppe::Gruppe2.as_symbol(), "Gruppe2");
    assert_eq!(ModulGruppe::from_symbol("Gruppe 2"), None);
}
