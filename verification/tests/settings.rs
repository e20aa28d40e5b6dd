use list_picker::settings::{
    Settings, SettingsError, FILE_PATH_KEY, MAX_DIGIT_RUN, RANDOM_KEY, REMOVE_KEY,
};

fn document_with(extra: &str) -> String {
    format!("{{\"file_path\":\"p\",\"random\":true,\"removeOnSelect\":false,\"x\":{}}}", extra)
}

fn settings_of_p() -> Settings {
    Settings { file_path: "p".to_string(), random_selection: true, remove_on_select: false }
}

#[test]
fn keys_of_the_document() {
    assert_eq!(FILE_PATH_KEY, "file_path");
    assert_eq!(RANDOM_KEY, "random");
    assert_eq!(REMOVE_KEY, "removeOnSelect");
}

#[test]
fn first_run_settings() {
    let settings = Settings::default();
    assert_eq!(settings.file_path, "./res/input.list");
    assert!(!settings.random_selection);
    assert!(settings.remove_on_select);
}

#[test]
fn full_document_gives_its_settings() {
    let text = r#"{ "file_path": "./pool.txt", "random": true, "removeOnSelect": false }"#;
    assert_eq!(
        Settings::parse(text),
        Ok(Settings {
            file_path: "./pool.txt".to_string(),
            random_selection: true,
            remove_on_select: false,
        })
    );
}

#[test]
fn first_run_document_gives_the_first_run_settings() {
    let mut document = json::JsonValue::new_object();
    let first = Settings::default();
    document.insert(FILE_PATH_KEY, first.file_path.as_str()).unwrap();
    document.insert(RANDOM_KEY, first.random_selection).unwrap();
    document.insert(REMOVE_KEY, first.remove_on_select).unwrap();
    assert_eq!(Settings::parse(&json::stringify_pretty(document, 4)), Ok(first));
}

#[test]
fn other_members_are_passed_over() {
    let text = r#"{ "extra": [1, 2], "removeOnSelect": true, "random": false, "file_path": "p" }"#;
    assert_eq!(
        Settings::parse(text),
        Ok(Settings { file_path: "p".to_string(), random_selection: false, remove_on_select: true })
    );
}

#[test]
fn long_path_is_read_whole() {
    let path = "directory/".repeat(20);
    let text = format!(r#"{{"file_path":"{}","random":true,"removeOnSelect":true}}"#, path);
    assert_eq!(Settings::parse(&text).unwrap().file_path, path);
}

#[test]
fn text_that_is_no_document_is_malformed() {
    for text in ["", "{", "{ \"file_path\": }", "file_path = x", "{\"random\": tru}"] {
        assert_eq!(Settings::parse(text), Err(SettingsError::Malformed), "{:?}", text);
    }
}

#[test]
fn missing_member_is_reported_in_order() {
    assert_eq!(Settings::parse("{}"), Err(SettingsError::FilePath));
    assert_eq!(
        Settings::parse(r#"{ "random": true, "removeOnSelect": true }"#),
        Err(SettingsError::FilePath)
    );
    assert_eq!(
        Settings::parse(r#"{ "file_path": "p", "removeOnSelect": true }"#),
        Err(SettingsError::RandomSelection)
    );
    assert_eq!(Settings::parse(r#"{ "file_path": "p" }"#), Err(SettingsError::RandomSelection));
    assert_eq!(
        Settings::parse(r#"{ "file_path": "p", "random": true }"#),
        Err(SettingsError::RemoveOnSelect)
    );
}

#[test]
fn member_of_the_wrong_kind_counts_as_missing() {
    assert_eq!(
        Settings::parse(r#"{ "file_path": 3, "random": true, "removeOnSelect": true }"#),
        Err(SettingsError::FilePath)
    );
    assert_eq!(
        Settings::parse(r#"{ "file_path": "p", "random": "yes", "removeOnSelect": true }"#),
        Err(SettingsError::RandomSelection)
    );
    assert_eq!(
        Settings::parse(r#"{ "file_path": "p", "random": true, "removeOnSelect": null }"#),
        Err(SettingsError::RemoveOnSelect)
    );
}

#[test]
fn document_that_is_no_object_has_no_members() {
    assert_eq!(Settings::parse("[]"), Err(SettingsError::FilePath));
    assert_eq!(Settings::parse("true"), Err(SettingsError::FilePath));
    assert_eq!(Settings::parse("\"file_path\""), Err(SettingsError::FilePath));
}

#[test]
fn members_put_together() {
    assert_eq!(
        Settings::from_members(Some("p".to_string()), Some(false), Some(true)),
        Ok(Settings { file_path: "p".to_string(), random_selection: false, remove_on_select: true })
    );
    assert_eq!(Settings::from_members(None, None, None), Err(SettingsError::FilePath));
    assert_eq!(Settings::from_members(None, Some(true), Some(true)), Err(SettingsError::FilePath));
    assert_eq!(
        Settings::from_members(Some("p".to_string()), None, None),
        Err(SettingsError::RandomSelection)
    );
    assert_eq!(
        Settings::from_members(Some("p".to_string()), None, Some(true)),
        Err(SettingsError::RandomSelection)
    );
    assert_eq!(
        Settings::from_members(Some("p".to_string()), Some(true), None),
        Err(SettingsError::RemoveOnSelect)
    );
}

#[test]
fn errors_say_what_could_not_be_read() {
    assert_eq!(
        SettingsError::Malformed.message(),
        "Failed to parse input file into proper json text"
    );
    assert_eq!(
        SettingsError::FilePath.message(),
        "Failed to parse file_path input parameters from json system"
    );
    assert_eq!(
        SettingsError::RandomSelection.message(),
        "Failed to parse random input parameters from json system"
    );
    assert_eq!(
        SettingsError::RemoveOnSelect.message(),
        "Failed to parse removeOnSelect input parameters from json system"
    );
}

#[test]
fn longest_run_of_digits_that_is_parsed() {
    assert_eq!(MAX_DIGIT_RUN, 32768);
}

#[test]
fn fraction_of_zeros_at_the_bound_is_parsed() {
    let number = format!("0.{}", "0".repeat(MAX_DIGIT_RUN));
    assert_eq!(Settings::parse(&document_with(&number)), Ok(settings_of_p()));
}

#[test]
fn fraction_of_zeros_beyond_the_bound_is_malformed() {
    let number = format!("0.{}", "0".repeat(MAX_DIGIT_RUN + 1));
    assert_eq!(Settings::parse(&number), Err(SettingsError::Malformed));
    assert_eq!(Settings::parse(&document_with(&number)), Err(SettingsError::Malformed));
    let longer = format!("-0.{}1e5", "0".repeat(3 * MAX_DIGIT_RUN));
    assert_eq!(Settings::parse(&document_with(&longer)), Err(SettingsError::Malformed));
}

#[test]
fn run_of_digits_beyond_the_bound_is_malformed_wherever_it_stands() {
    let digits = "7".repeat(MAX_DIGIT_RUN + 1);
    assert_eq!(Settings::parse(&document_with(&digits)), Err(SettingsError::Malformed));
    let quoted = format!("\"{}\"", digits);
    assert_eq!(Settings::parse(&document_with(&quoted)), Err(SettingsError::Malformed));
}

#[test]
fn long_document_with_short_runs_is_parsed() {
    let run = "12345678".repeat(1000);
    let array = format!("[{}]", vec![run.as_str(); 25].join(","));
    assert!(array.len() > 5 * MAX_DIGIT_RUN);
    assert_eq!(Settings::parse(&document_with(&array)), Ok(settings_of_p()));
    let quoted = format!("\"{}\"", "9".repeat(MAX_DIGIT_RUN));
    assert_eq!(Settings::parse(&document_with(&quoted)), Ok(settings_of_p()));
}
