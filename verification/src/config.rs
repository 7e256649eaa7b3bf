//! The settings the indexer runs with, and how they are made of what a
//! settings file holds.

use crate::text::opt_text;
use vstd::prelude::*;

verus! {

/// How the indexer signs in to the chat server.
pub enum AuthData {
    /// User id and password.
    UsernamePassword(String, String),
    /// User id, access token and device id of an earlier session.
    AccessToken(String, String, String),
}

/// An [`AuthData`] as sequences of characters.
pub enum AuthView {
    UsernamePassword(Seq<char>, Seq<char>),
    AccessToken(Seq<char>, Seq<char>, Seq<char>),
}

impl View for AuthData {
    type V = AuthView;

    open spec fn view(&self) -> AuthView {
        match *self {
            AuthData::UsernamePassword(user, password) => AuthView::UsernamePassword(
                user@,
                password@,
            ),
            AuthData::AccessToken(user, token, device) => AuthView::AccessToken(
                user@,
                token@,
                device@,
            ),
        }
    }
}

/// The settings of one indexer.
pub struct Config {
    pub homeserver_url: String,
    pub indradb_endpoint: String,
    pub auth_data: AuthData,
}

/// A [`Config`] as sequences of characters.
pub struct ConfigView {
    pub homeserver_url: Seq<char>,
    pub indradb_endpoint: Seq<char>,
    pub auth_data: AuthView,
}

impl View for Config {
    type V = ConfigView;

    open spec fn view(&self) -> ConfigView {
        ConfigView {
            homeserver_url: self.homeserver_url@,
            indradb_endpoint: self.indradb_endpoint@,
            auth_data: self.auth_data@,
        }
    }
}

/// What a settings file holds under one name.
pub enum FieldValue {
    /// The name does not occur.
    Missing,
    /// The name occurs without a value.
    NoValue,
    /// The first value is not a string.
    NotText,
    /// The first value is this string.
    Text(String),
}

/// A setting.
#[derive(Clone, Copy, Debug, PartialEq, Eq, Structural)]
pub enum ConfigField {
    Matrix,
    HomeserverUrl,
    Username,
    Password,
    IndradbAddress,
    AccessToken,
    DeviceId,
}

/// What is wrong with a setting.
#[derive(Clone, Copy, Debug, PartialEq, Eq, Structural)]
pub enum ConfigProblem {
    /// The setting is needed and not there.
    Missing,
    /// The section is there and holds no settings.
    NoChildren,
    /// The setting is there without a value.
    NoValue,
    /// The value of the setting is not a string.
    WrongType,
}

/// The first fault of a settings file.
#[derive(Clone, Copy, Debug, PartialEq, Eq, Structural)]
pub struct ConfigError {
    pub field: ConfigField,
    pub problem: ConfigProblem,
}

/// Whether a settings file has its `matrix` section.
#[derive(Clone, Copy, Debug, PartialEq, Eq, Structural)]
pub enum SectionState {
    Missing,
    NoChildren,
    Present,
}

/// What a settings file holds, name by name.
pub struct RawConfig {
    pub matrix: SectionState,
    pub homeserver_url: FieldValue,
    pub username: FieldValue,
    pub password: FieldValue,
    pub indradb_address: FieldValue,
    pub access_token: FieldValue,
    pub device_id: FieldValue,
}

impl FieldValue {
    /// The string under the name, where there is one.
    pub open spec fn text(self) -> Option<Seq<char>> {
        match self {
            FieldValue::Text(s) => Some(s@),
            _ => None,
        }
    }

    /// What is wrong with the value: a value that is there must be a string,
    /// and one that is needed must be there.
    pub open spec fn problem(self, needed: bool) -> Option<ConfigProblem> {
        match self {
            FieldValue::Missing => if needed {
                Some(ConfigProblem::Missing)
            } else {
                None
            },
            FieldValue::NoValue => Some(ConfigProblem::NoValue),
            FieldValue::NotText => Some(ConfigProblem::WrongType),
            FieldValue::Text(_) => None,
        }
    }

    /// Takes the string under the name `field`, which need not be there, or
    /// says what is wrong.
    fn take(self, field: ConfigField) -> (taken: Result<Option<String>, ConfigError>)
        ensures
            match taken {
                Ok(text) => self.problem(false) is None && opt_text(text) == self.text(),
                Err(e) => self.problem(false) == Some(e.problem) && e.field == field,
            },
    {
        match self {
            FieldValue::Missing => Ok(None),
            FieldValue::NoValue => Err(ConfigError { field, problem: ConfigProblem::NoValue }),
            FieldValue::NotText => Err(ConfigError { field, problem: ConfigProblem::WrongType }),
            FieldValue::Text(s) => Ok(Some(s)),
        }
    }

    /// Takes the string under the name `field`, which must be there, or says
    /// what is wrong.
    fn take_needed(self, field: ConfigField) -> (taken: Result<String, ConfigError>)
        ensures
            match taken {
                Ok(text) => self.problem(true) is None && Some(text@) == self.text(),
                Err(e) => self.problem(true) == Some(e.problem) && e.field == field,
            },
    {
        match self {
            FieldValue::Missing => Err(ConfigError { field, problem: ConfigProblem::Missing }),
            FieldValue::NoValue => Err(ConfigError { field, problem: ConfigProblem::NoValue }),
            FieldValue::NotText => Err(ConfigError { field, problem: ConfigProblem::WrongType }),
            FieldValue::Text(s) => Ok(s),
        }
    }
}

/// The fault that `problem` is, if it is one, of the setting `field`.
pub open spec fn fault(field: ConfigField, problem: Option<ConfigProblem>) -> Option<ConfigError> {
    match problem {
        Some(problem) => Some(ConfigError { field, problem }),
        None => None,
    }
}

/// The first of two faults.
pub open spec fn or_else(first: Option<ConfigError>, second: Option<ConfigError>) -> Option<
    ConfigError,
> {
    if first is Some {
        first
    } else {
        second
    }
}

impl RawConfig {
    /// The fault of the `matrix` section itself.
    pub open spec fn section_fault(self) -> Option<ConfigError> {
        match self.matrix {
            SectionState::Missing => Some(
                ConfigError { field: ConfigField::Matrix, problem: ConfigProblem::Missing },
            ),
            SectionState::NoChildren => Some(
                ConfigError { field: ConfigField::Matrix, problem: ConfigProblem::NoChildren },
            ),
            SectionState::Present => None,
        }
    }

    /// Whether the settings lack what signing in needs: without a password,
    /// an access token and a device id.
    pub open spec fn credentials_fault(self) -> Option<ConfigError> {
        if self.password.text() is Some {
            None
        } else if self.access_token.text() is None {
            Some(ConfigError { field: ConfigField::AccessToken, problem: ConfigProblem::Missing })
        } else if self.device_id.text() is None {
            Some(ConfigError { field: ConfigField::DeviceId, problem: ConfigProblem::Missing })
        } else {
            None
        }
    }

    /// The first fault of the settings. The section is looked at first, then
    /// the server's address, the user, the password, the store's address,
    /// the access token and the device id, then whether signing in has what
    /// it needs.
    pub open spec fn first_fault(self) -> Option<ConfigError> {
        or_else(
            self.section_fault(),
            or_else(
                fault(ConfigField::HomeserverUrl, self.homeserver_url.problem(true)),
                or_else(
                    fault(ConfigField::Username, self.username.problem(true)),
                    or_else(
                        fault(ConfigField::Password, self.password.problem(false)),
                        or_else(
                            fault(ConfigField::IndradbAddress, self.indradb_address.problem(true)),
                            or_else(
                                fault(ConfigField::AccessToken, self.access_token.problem(false)),
                                or_else(
                                    fault(ConfigField::DeviceId, self.device_id.problem(false)),
                                    self.credentials_fault(),
                                ),
                            ),
                        ),
                    ),
                ),
            ),
        )
    }

    /// The settings that a faultless file gives: signing in is by password
    /// where there is one, and else by access token and device id.
    pub open spec fn settings(self) -> ConfigView {
        ConfigView {
            homeserver_url: self.homeserver_url.text().unwrap(),
            indradb_endpoint: self.indradb_address.text().unwrap(),
            auth_data: match self.password.text() {
                Some(password) => AuthView::UsernamePassword(
                    self.username.text().unwrap(),
                    password,
                ),
                None => AuthView::AccessToken(
                    self.username.text().unwrap(),
                    self.access_token.text().unwrap(),
                    self.device_id.text().unwrap(),
                ),
            },
        }
    }

    /// Makes the settings of what the file holds, or reports its first fault.
    pub fn resolve(self) -> (made: Result<Config, ConfigError>)
        ensures
            match made {
                Ok(config) => self.first_fault() is None && config@ == self.settings(),
                Err(e) => self.first_fault() == Some(e),
            },
    {
        match self.matrix {
            SectionState::Missing => {
                return Err(
                    ConfigError { field: ConfigField::Matrix, problem: ConfigProblem::Missing },
                );
            },
            SectionState::NoChildren => {
                return Err(
                    ConfigError { field: ConfigField::Matrix, problem: ConfigProblem::NoChildren },
                );
            },
            SectionState::Present => {},
        }
        let homeserver_url = self.homeserver_url.take_needed(ConfigField::HomeserverUrl)?;
        let username = self.username.take_needed(ConfigField::Username)?;
        let password = self.password.take(ConfigField::Password)?;
        let indradb_endpoint = self.indradb_address.take_needed(ConfigField::IndradbAddress)?;
        let access_token = self.access_token.take(ConfigField::AccessToken)?;
        let device_id = self.device_id.take(ConfigField::DeviceId)?;
        let auth_data = match password {
            Some(password) => AuthData::UsernamePassword(username, password),
            None => match (access_token, device_id) {
                (Some(access_token), Some(device_id)) => AuthData::AccessToken(
                    username,
                    access_token,
                    device_id,
                ),
                (None, _) => {
                    return Err(
                        ConfigError {
                            field: ConfigField::AccessToken,
                            problem: ConfigProblem::Missing,
                        },
                    );
                },
                (Some(_), None) => {
                    return Err(
                        ConfigError { field: ConfigField::DeviceId, problem: ConfigProblem::Missing },
                    );
                },
            },
        };
        Ok(Config { homeserver_url, indradb_endpoint, auth_data })
    }
}

} // verus!
