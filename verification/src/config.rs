//! The stored configuration: where it lives and how it is written down.
//!
//! Reading and writing the file is the caller's part; this module turns its
//! bytes into a [`Config`] and back.

use crate::common::LuciaError;
use crate::json::{
    json_parse, json_quote, json_quoted, object_text, optional_text_of, text_of, write_object,
    Json,
};
use crate::text::views;
use vstd::prelude::*;
use vstd::string::*;

verus! {

/// The name of the configuration file.
pub const FILENAME: &'static str = "lucia.json";

/// The name the controller registers under.
pub const APP_NAME: &'static str = "lucia";

/// The user name taken where the caller knows none.
pub const UNKNOWN_USER: &'static str = "unknown";

/// What the controller keeps between runs.
#[derive(Clone, Debug, PartialEq, Eq)]
pub struct Config {
    pub app_name: String,
    pub user_name: Option<String>,
    pub client_key: Option<String>,
    pub bridge_ip: Option<String>,
}

/// `name` below the directory `directory`: a separator is put between the two
/// unless the directory is empty or ends in one.
pub open spec fn spec_join_path(directory: Seq<char>, name: Seq<char>) -> Seq<char> {
    if directory.len() == 0 || directory.last() == '/' {
        directory + name
    } else {
        directory + "/"@ + name
    }
}

/// The path of the configuration file below the home directory.
pub open spec fn spec_find_config_path(home: Seq<char>) -> Seq<char> {
    spec_join_path(home, FILENAME@)
}

/// The application name for a user.
pub open spec fn spec_gen_app_name(user: Option<Seq<char>>) -> Seq<char> {
    APP_NAME@ + "#"@ + match user {
        Some(name) => name,
        None => UNKNOWN_USER@,
    }
}

/// The JSON text of an optional string: the quoted string, or `null`.
pub open spec fn optional_quoted(text: Option<String>) -> Seq<char> {
    match text {
        Some(inner) => json_quoted(inner@),
        None => "null"@,
    }
}

/// The path of the configuration file below the home directory.
pub fn find_config_path(home: &str) -> (path: String)
    ensures
        path@ == spec_find_config_path(home@),
{
    let mut path = home.to_owned();
    let length = home.unicode_len();
    if length > 0 && home.get_char(length - 1) != '/' {
        path.append("/");
    }
    path.append(FILENAME);
    path
}

/// The application name for the user, if the caller knows one.
pub fn gen_app_name(user: Option<&str>) -> (name: String)
    ensures
        name@ == spec_gen_app_name(
            match user {
                Some(given) => Some(given@),
                None => None,
            },
        ),
{
    let mut name = APP_NAME.to_owned();
    name.append("#");
    match user {
        Some(given) => name.append(given),
        None => name.append(UNKNOWN_USER),
    }
    name
}

fn write_optional(key: &str, text: &Option<String>) -> (member: String)
    ensures
        member@ == key@ + optional_quoted(*text),
{
    let mut member = key.to_owned();
    match text {
        Some(inner) => {
            let quoted = json_quote(inner.as_str());
            member.append(quoted.as_str());
        },
        None => member.append("null"),
    }
    member
}

impl Config {
    /// The configuration of a first run: the application name and nothing
    /// else.
    pub open spec fn spec_fresh(user: Option<Seq<char>>, config: Config) -> bool {
        &&& config.app_name@ == spec_gen_app_name(user)
        &&& config.user_name is None
        &&& config.client_key is None
        &&& config.bridge_ip is None
    }

    /// The configuration that a JSON value holds: an object with a string
    /// `app_name` and, if present, strings `user_name`, `client_key` and
    /// `bridge_ip`.
    pub open spec fn spec_from_json(json: Json) -> Option<Config> {
        match json {
            Json::Object(_) => {
                let app_name = text_of(json.spec_get("app_name"@));
                let user_name = optional_text_of(json.spec_get("user_name"@));
                let client_key = optional_text_of(json.spec_get("client_key"@));
                let bridge_ip = optional_text_of(json.spec_get("bridge_ip"@));
                if app_name is Some && user_name is Some && client_key is Some && bridge_ip is Some {
                    Some(
                        Config {
                            app_name: app_name.unwrap(),
                            user_name: user_name.unwrap(),
                            client_key: client_key.unwrap(),
                            bridge_ip: bridge_ip.unwrap(),
                        },
                    )
                } else {
                    None
                }
            },
            _ => None,
        }
    }

    /// What the contents of the file hold, given how they parsed.
    pub open spec fn spec_decode(parsed: Option<Json>) -> Result<Config, LuciaError> {
        match parsed {
            Some(json) => match Config::spec_from_json(json) {
                Some(config) => Ok(config),
                None => Err(LuciaError::JsonError),
            },
            None => Err(LuciaError::JsonError),
        }
    }

    /// The JSON text of the configuration: all four members, an absent one
    /// as `null`.
    pub open spec fn spec_persist(self) -> Seq<char> {
        object_text(
            seq![
                "\"app_name\":"@ + json_quoted(self.app_name@),
                "\"user_name\":"@ + optional_quoted(self.user_name),
                "\"client_key\":"@ + optional_quoted(self.client_key),
                "\"bridge_ip\":"@ + optional_quoted(self.bridge_ip),
            ],
        )
    }

    /// The configuration of a first run.
    pub fn fresh(user: Option<&str>) -> (config: Config)
        ensures
            Config::spec_fresh(
                match user {
                    Some(given) => Some(given@),
                    None => None,
                },
                config,
            ),
    {
        Config { app_name: gen_app_name(user), user_name: None, client_key: None, bridge_ip: None }
    }

    /// Reads a configuration from a JSON value.
    pub fn from_json(json: &Json) -> (config: Option<Config>)
        ensures
            config == Config::spec_from_json(*json),
    {
        match json {
            Json::Object(_) => {
                let app_name = json.text("app_name");
                let user_name = json.optional_text("user_name");
                let client_key = json.optional_text("client_key");
                let bridge_ip = json.optional_text("bridge_ip");
                match (app_name, user_name, client_key, bridge_ip) {
                    (Some(app_name), Some(user_name), Some(client_key), Some(bridge_ip)) => Some(
                        Config { app_name, user_name, client_key, bridge_ip },
                    ),
                    _ => None,
                }
            },
            _ => None,
        }
    }

    /// The configuration to run with: the one that the contents of the file
    /// hold, or that of a first run where there is no file.
    pub fn load(contents: Option<&[u8]>, user: Option<&str>) -> (config: Result<Config, LuciaError>)
        ensures
            match contents {
                Some(bytes) => config == Config::spec_decode(json_parse(bytes@)),
                None => config matches Ok(made) && Config::spec_fresh(
                    match user {
                        Some(given) => Some(given@),
                        None => None,
                    },
                    made,
                ),
            },
    {
        match contents {
            Some(bytes) => match Json::parse(bytes) {
                Ok(json) => match Config::from_json(&json) {
                    Some(config) => Ok(config),
                    None => Err(LuciaError::JsonError),
                },
                Err(error) => Err(error),
            },
            None => Ok(Config::fresh(user)),
        }
    }

    /// The contents to write to the file.
    pub fn persist(&self) -> (contents: String)
        ensures
            contents@ == self.spec_persist(),
    {
        let mut members: Vec<String> = Vec::new();
        let mut app_name = "\"app_name\":".to_owned();
        let quoted = json_quote(self.app_name.as_str());
        app_name.append(quoted.as_str());
        members.push(app_name);
        members.push(write_optional("\"user_name\":", &self.user_name));
        members.push(write_optional("\"client_key\":", &self.client_key));
        members.push(write_optional("\"bridge_ip\":", &self.bridge_ip));
        assert(views(members@) =~= seq![
            "\"app_name\":"@ + json_quoted(self.app_name@),
            "\"user_name\":"@ + optional_quoted(self.user_name),
            "\"client_key\":"@ + optional_quoted(self.client_key),
            "\"bridge_ip\":"@ + optional_quoted(self.bridge_ip),
        ]);
        write_object(&members)
    }

    /// The user name that the bridge issued, or an error where pairing has
    /// not taken place.
    pub fn require_user_name(&self) -> (user_name: Result<&String, LuciaError>)
        ensures
            user_name == match self.user_name {
                Some(name) => Ok::<&String, LuciaError>(&name),
                None => Err(LuciaError::MissingConfiguration),
            },
    {
        match &self.user_name {
            Some(name) => Ok(name),
            None => Err(LuciaError::MissingConfiguration),
        }
    }

    /// The address of the bridge as it was stored, or an error where none
    /// was.
    pub fn require_bridge_ip(&self) -> (bridge_ip: Result<&String, LuciaError>)
        ensures
            bridge_ip == match self.bridge_ip {
                Some(address) => Ok::<&String, LuciaError>(&address),
                None => Err(LuciaError::MissingConfiguration),
            },
    {
        match &self.bridge_ip {
            Some(address) => Ok(address),
            None => Err(LuciaError::MissingConfiguration),
        }
    }
}

} // verus!
