use wandering_inn_scraper::webconfig::{changed_keys, merge_password, redact_config_text, redact_mail, JsonObject, ShownConfig};

// Obviously-synthetic fixture. Never use a real credential here.
fn sample_mail() -> JsonObject {
    let mut mail = JsonObject::new();
    mail.insert("Name", "\"Epub Mail Sender\"".to_string());
    mail.insert("Address", "\"sender@example.com\"".to_string());
    mail.insert("Password", "\"abcdefghijklmnop\"".to_string());
    mail.insert(
        "Destinations",
        "[{\"Email\":\"reader@example.com\",\"Name\":\"Test Reader\",\"Sources\":{\"test-source\":{}}}]".to_string(),
    );
    mail
}

fn sample() -> JsonObject {
    let mut top = JsonObject::new();
    top.insert("Mail", "{\"Address\":\"sender@example.com\",\"Password\":\"abcdefghijklmnop\"}".to_string());
    top.insert("EpubGen", "{\"Chapters\":true,\"StripColour\":false,\"Volumes\":true}".to_string());
    top.insert("Sources", "[{\"Id\":\"test-source\"}]".to_string());
    top
}

const SAMPLE_TEXT: &str = r#"{
  "Mail": {
    "Name": "Epub Mail Sender",
    "Address": "sender@example.com",
    "Password": "abcdefghijklmnop",
    "Destinations": [
      {"Name": "Test Reader", "Email": "reader@example.com", "Sources": {"test-source": {}}}
    ]
  },
  "EpubGen": {"Volumes": true, "Chapters": true, "StripColour": false},
  "Sources": [{"Id": "test-source", "Name": "Test Serial", "Enabled": true}]
}"#;

#[test]
fn read_redacted_never_exposes_the_password() {
    let (top, mail) = match redact_config_text(SAMPLE_TEXT).unwrap() {
        ShownConfig::Object { top, mail } => (top, mail.expect("Mail is an object")),
        ShownConfig::Other(_) => panic!("the configuration is an object"),
    };
    assert!(mail.get("Password").is_none(), "password key must be absent");
    for i in 0..mail.len() {
        let name = mail.name_at(i).clone();
        assert!(!mail.get(&name).unwrap().contains("abcdefghijklmnop"));
    }
    assert_eq!(mail.get("PasswordSet").unwrap(), "true");
    assert!(top.get("EpubGen").is_some() && top.get("Sources").is_some());

    let mut blank = JsonObject::new();
    blank.insert("Password", "\"\"".to_string());
    redact_mail(&mut blank);
    assert_eq!(blank.get("PasswordSet").unwrap(), "false");
}

#[test]
fn unparsable_or_non_object_configs() {
    assert!(redact_config_text("{not json").is_err());
    match redact_config_text("[1, 2]").unwrap() {
        ShownConfig::Other(text) => assert_eq!(text, "[1,2]"),
        ShownConfig::Object { .. } => panic!("an array is no object"),
    }
    match redact_config_text(r#"{"Mail": "plain"}"#).unwrap() {
        ShownConfig::Object { top, mail } => {
            assert!(mail.is_none());
            assert_eq!(top.get("Mail").unwrap(), "\"plain\"");
        }
        ShownConfig::Other(_) => panic!("an object"),
    }
}

#[test]
fn blank_password_preserves_the_existing_one() {
    let current = sample_mail();
    let mut candidate = sample_mail();
    candidate.insert("Password", "\"\"".to_string());

    merge_password(&mut candidate, &current);

    assert_eq!(candidate.get("Password").unwrap(), "\"abcdefghijklmnop\"");
}

#[test]
fn absent_password_preserves_the_existing_one() {
    let current = sample_mail();
    let mut candidate = sample_mail();
    candidate.remove("Password");

    merge_password(&mut candidate, &current);

    assert_eq!(candidate.get("Password").unwrap(), "\"abcdefghijklmnop\"");
}

#[test]
fn supplied_password_replaces_the_existing_one() {
    let current = sample_mail();
    let mut candidate = sample_mail();
    candidate.insert("Password", "\"qrstuvwxyz012345\"".to_string());

    merge_password(&mut candidate, &current);

    assert_eq!(candidate.get("Password").unwrap(), "\"qrstuvwxyz012345\"");
}

#[test]
fn round_trip_of_the_redacted_mail_keeps_the_password() {
    let current = sample_mail();
    let mut shown = sample_mail();
    redact_mail(&mut shown);
    merge_password(&mut shown, &current);
    assert_eq!(shown.get("Password").unwrap(), "\"abcdefghijklmnop\"");
    assert!(shown.get("PasswordSet").is_none());
    assert_eq!(shown.len(), current.len());
}

#[test]
fn merge_without_a_stored_password_sets_the_empty_one() {
    let current = JsonObject::new();
    let mut candidate = JsonObject::new();
    candidate.insert("PasswordSet", "false".to_string());
    merge_password(&mut candidate, &current);
    assert_eq!(candidate.get("Password").unwrap(), "\"\"");
    assert!(candidate.get("PasswordSet").is_none());
}

#[test]
fn changed_keys_reports_names_never_values() {
    let before = sample();
    let mut after = sample();
    after.insert("Mail", "{\"Address\":\"sender@example.com\",\"Password\":\"qrstuvwxyz012345\"}".to_string());
    after.insert("EpubGen", "{\"Chapters\":true,\"StripColour\":true,\"Volumes\":true}".to_string());

    let keys = changed_keys(&before, &after);

    assert!(keys.contains(&"Mail".to_string()));
    assert!(keys.contains(&"EpubGen".to_string()));
    for key in &keys {
        assert!(!key.contains("qrstuvwxyz"), "audit output must not carry values");
    }
}

#[test]
fn changed_keys_are_sorted_and_cover_removals_and_additions() {
    let before = sample();
    let mut after = sample();
    after.remove("Sources");
    after.insert("RequestDelay", "500".to_string());
    after.insert("EpubGen", "{}".to_string());
    assert_eq!(changed_keys(&before, &after), vec!["EpubGen", "RequestDelay", "Sources"]);
    assert!(changed_keys(&before, &sample()).is_empty());
}
