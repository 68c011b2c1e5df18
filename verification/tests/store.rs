use lsfbot::modul::ModulGruppe;
use lsfbot::user::Duration;
use lsfbot::user::Record;
use lsfbot::user::User;
use lsfbot::user::Users;
use toml::value::Table;
use toml::Value;

fn wishes() -> Vec<User> {
    vec![
        User { id: 1, gruppe: None, enabled: true, send_before: None, send_after_previous: true },
        User {
            id: 734112233445566778,
            gruppe: Some(ModulGruppe::Gruppe4),
            enabled: false,
            send_before: Some(Duration { minutes: 0 }),
            send_after_previous: false,
        },
        User {
            id: 3,
            gruppe: Some(ModulGruppe::Gruppe1),
            enabled: true,
            send_before: Some(Duration { minutes: u64::MAX }),
            send_after_previous: true,
        },
    ]
}

#[test]
fn record_holds_the_wishes_field_for_field() {
    let record = wishes()[1].to_record();
    assert_eq!(
        record,
        Record {
            id: 734112233445566778,
            gruppe: Some("Gruppe4".to_string()),
            enabled: false,
            send_before: Some(0),
            send_after_previous: false,
        }
    );
    let record = wishes()[0].to_record();
    assert_eq!(record.gruppe, None);
    assert_eq!(record.send_before, None);
}

#[test]
fn records_are_read_back_as_the_same_wishes() {
    for user in wishes() {
        assert_eq!(User::from_record(&user.to_record()), Some(user));
    }
    let users = Users::new(wishes());
    let records = users.records();
    assert_eq!(records.len(), 3);
    assert_eq!(Users::read(&records), Some(wishes()));
    assert_eq!(Users::read(&Vec::new()), Some(Vec::new()));
}

#[test]
fn record_with_an_unknown_group_word_is_refused() {
    let mut record = wishes()[1].to_record();
    record.gruppe = Some("Gruppe 4".to_string());
    assert_eq!(User::from_record(&record), None);
    let mut records = Users::new(wishes()).records();
    records[2].gruppe = Some("gruppe1".to_string());
    assert_eq!(Users::read(&records), None);
}

fn table(record: &Record) -> Value {
    let mut fields = Table::new();
    fields.insert("id".to_string(), Value::Integer(record.id as i64));
    if let Some(gruppe) = &record.gruppe {
        fields.insert("gruppe".to_string(), Value::String(gruppe.clone()));
    }
    fields.insert("enabled".to_string(), Value::Boolean(record.enabled));
    if let Some(minutes) = record.send_before {
        fields.insert("send_before".to_string(), Value::Integer(minutes as i64));
    }
    fields.insert("send_after_previous".to_string(), Value::Boolean(record.send_after_previous));
    Value::Table(fields)
}

fn record(fields: &Value) -> Record {
    Record {
        id: fields.get("id").and_then(Value::as_integer).unwrap() as u64,
        gruppe: fields.get("gruppe").and_then(Value::as_str).map(str::to_string),
        enabled: fields.get("enabled").and_then(Value::as_bool).unwrap(),
        send_before: fields.get("send_before").and_then(Value::as_integer).map(|m| m as u64),
        send_after_previous: fields.get("send_after_previous").and_then(Value::as_bool).unwrap(),
    }
}

#[test]
fn records_survive_a_file_in_the_format_of_the_store() {
    let mut users = Users::new(wishes()[..2].to_vec());
    users.enable(3, Some(ModulGruppe::Gruppe2));
    users.set_send_before(4, None, Some(Duration { minutes: 45 }));
    let mut file = Table::new();
    file.insert(
        "user".to_string(),
        Value::Array(users.records().iter().map(table).collect()),
    );
    let text = toml::to_string_pretty(&Value::Table(file)).unwrap();
    let parsed: Value = toml::from_str(&text).unwrap();
    let records: Vec<Record> =
        parsed.get("user").and_then(Value::as_array).unwrap().iter().map(record).collect();
    assert_eq!(records, users.records());
    let again = Users::new(Users::read(&records).unwrap());
    assert_eq!(again.get_all(), users.get_all());
}
