use matrix_indexer::config::{
    AuthData, ConfigError, ConfigField, ConfigProblem, FieldValue, RawConfig, SectionState,
};

fn text(s: &str) -> FieldValue {
    FieldValue::Text(s.to_string())
}

fn with_password() -> RawConfig {
    RawConfig {
        matrix: SectionState::Present,
        homeserver_url: text("https://matrix.example.org"),
        username: text("@bot:example.org"),
        password: text("hunter2"),
        indradb_address: text("grpc://127.0.0.1:27615"),
        access_token: FieldValue::Missing,
        device_id: FieldValue::Missing,
    }
}

fn with_token() -> RawConfig {
    RawConfig {
        password: FieldValue::Missing,
        access_token: text("token"),
        device_id: text("DEVICE"),
        ..with_password()
    }
}

fn fault(field: ConfigField, problem: ConfigProblem) -> ConfigError {
    ConfigError { field, problem }
}

fn fault_of(raw: RawConfig) -> ConfigError {
    match raw.resolve() {
        Ok(_) => panic!("settings were accepted"),
        Err(e) => e,
    }
}

#[test]
fn settings_with_a_password_sign_in_by_password() {
    let config = with_password().resolve().ok().unwrap();
    assert_eq!(config.homeserver_url, "https://matrix.example.org");
    assert_eq!(config.indradb_endpoint, "grpc://127.0.0.1:27615");
    match config.auth_data {
        AuthData::UsernamePassword(user, password) => {
            assert_eq!(user, "@bot:example.org");
            assert_eq!(password, "hunter2");
        }
        AuthData::AccessToken(..) => panic!("signs in by token"),
    }
}

#[test]
fn settings_without_a_password_sign_in_by_token() {
    let config = with_token().resolve().ok().unwrap();
    match config.auth_data {
        AuthData::AccessToken(user, token, device) => {
            assert_eq!(user, "@bot:example.org");
            assert_eq!(token, "token");
            assert_eq!(device, "DEVICE");
        }
        AuthData::UsernamePassword(..) => panic!("signs in by password"),
    }
}

#[test]
fn a_password_wins_over_a_token() {
    let raw = RawConfig { password: text("hunter2"), ..with_token() };
    assert!(matches!(raw.resolve().ok().unwrap().auth_data, AuthData::UsernamePassword(..)));
}

#[test]
fn the_matrix_section_is_needed() {
    let raw = RawConfig { matrix: SectionState::Missing, ..with_password() };
    assert_eq!(fault_of(raw), fault(ConfigField::Matrix, ConfigProblem::Missing));
    let raw = RawConfig { matrix: SectionState::NoChildren, ..with_password() };
    assert_eq!(fault_of(raw), fault(ConfigField::Matrix, ConfigProblem::NoChildren));
}

#[test]
fn needed_settings_must_be_there() {
    let raw = RawConfig { homeserver_url: FieldValue::Missing, ..with_password() };
    assert_eq!(fault_of(raw), fault(ConfigField::HomeserverUrl, ConfigProblem::Missing));
    let raw = RawConfig { username: FieldValue::Missing, ..with_password() };
    assert_eq!(fault_of(raw), fault(ConfigField::Username, ConfigProblem::Missing));
    let raw = RawConfig { indradb_address: FieldValue::Missing, ..with_password() };
    assert_eq!(fault_of(raw), fault(ConfigField::IndradbAddress, ConfigProblem::Missing));
}

#[test]
fn a_setting_that_is_there_must_be_a_string() {
    let raw = RawConfig { password: FieldValue::NoValue, ..with_password() };
    assert_eq!(fault_of(raw), fault(ConfigField::Password, ConfigProblem::NoValue));
    let raw = RawConfig { access_token: FieldValue::NotText, ..with_password() };
    assert_eq!(fault_of(raw), fault(ConfigField::AccessToken, ConfigProblem::WrongType));
    let raw = RawConfig { device_id: FieldValue::NoValue, ..with_password() };
    assert_eq!(fault_of(raw), fault(ConfigField::DeviceId, ConfigProblem::NoValue));
    let raw = RawConfig { homeserver_url: FieldValue::NotText, ..with_password() };
    assert_eq!(fault_of(raw), fault(ConfigField::HomeserverUrl, ConfigProblem::WrongType));
}

#[test]
fn the_first_fault_is_reported() {
    let raw = RawConfig {
        matrix: SectionState::Missing,
        homeserver_url: FieldValue::Missing,
        ..with_password()
    };
    assert_eq!(fault_of(raw), fault(ConfigField::Matrix, ConfigProblem::Missing));
    let raw = RawConfig {
        username: FieldValue::NoValue,
        indradb_address: FieldValue::Missing,
        device_id: FieldValue::NotText,
        ..with_password()
    };
    assert_eq!(fault_of(raw), fault(ConfigField::Username, ConfigProblem::NoValue));
    let raw = RawConfig {
        indradb_address: FieldValue::Missing,
        device_id: FieldValue::NotText,
        ..with_password()
    };
    assert_eq!(fault_of(raw), fault(ConfigField::IndradbAddress, ConfigProblem::Missing));
}

#[test]
fn without_a_password_token_and_device_are_needed() {
    let raw = RawConfig { access_token: FieldValue::Missing, ..with_token() };
    assert_eq!(fault_of(raw), fault(ConfigField::AccessToken, ConfigProblem::Missing));
    let raw = RawConfig { device_id: FieldValue::Missing, ..with_token() };
    assert_eq!(fault_of(raw), fault(ConfigField::DeviceId, ConfigProblem::Missing));
}
