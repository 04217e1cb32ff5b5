//! The records of the bridge's JSON API and how they are read.

use crate::common::LuciaError;
use crate::discovery::BridgeAddress;
use crate::json::{
    flag_of, has_key, int_of, json_parse, json_quote, json_quoted, keys_ascend, last_with_key,
    lemma_last_with_key, lemma_lookup_at, lookup, number_list_or_absent, number_table_or_absent,
    object_text, optional_int_of, optional_text_of, text_list_of, text_of, write_object, Json,
    OrderedMembers,
};
use crate::text::{
    decimal, flag_text, lemma_str_lt_irreflexive, lemma_str_lt_transitive, push_decimal,
    push_flag, str_lt, views,
};
use vstd::prelude::*;
use vstd::string::*;

verus! {

/// The error type the bridge reports while its link button has not been
/// pressed.
pub const LINK_BUTTON_NOT_PRESSED: i32 = 101;

/// An error record of the bridge.
#[derive(Clone, Debug, PartialEq, Eq)]
pub struct ApiError {
    pub type_: i32,
    pub address: Option<String>,
    pub description: Option<String>,
}

/// The credential the bridge issues to a new user.
#[derive(Clone, Debug, PartialEq, Eq)]
pub struct NewUserResponse {
    pub username: String,
    pub client_key: Option<String>,
}

/// What the bridge answers to a request for a new user.
#[derive(Clone, Debug, PartialEq, Eq)]
pub enum NewUserResult {
    Error(ApiError),
    Success(NewUserResponse),
}

/// The state of a light, or the action of a group. The chromaticity `xy` is
/// checked for its shape and not kept.
#[derive(Clone, Debug, PartialEq, Eq)]
pub struct LightState {
    pub on: bool,
    pub bri: u8,
    pub hue: Option<i32>,
    pub sat: Option<i32>,
    pub effect: Option<String>,
    pub ct: i32,
    pub alert: String,
    pub color_mode: String,
    pub reachable: bool,
}

/// What a light can be set to. The colour gamut is checked for its shape and
/// not kept.
#[derive(Clone, Debug, PartialEq, Eq)]
pub struct LightControls {
    pub min_dim_level: i32,
    pub max_lumen: i32,
    pub color_gamut_type: Option<String>,
}

/// The capabilities of a light.
#[derive(Clone, Debug, PartialEq, Eq)]
pub struct LightCapabilities {
    pub certified: bool,
    pub control: LightControls,
}

/// How a light is mounted and used.
#[derive(Clone, Debug, PartialEq, Eq)]
pub struct LightConfig {
    pub archetype: String,
    pub function: String,
    pub direction: String,
}

/// A light as the bridge lists it.
#[derive(Clone, Debug, PartialEq, Eq)]
pub struct LightResponseItem {
    pub state: LightState,
    pub type_: String,
    pub name: String,
    pub capabilities: LightCapabilities,
    pub config: LightConfig,
}

/// A group as the bridge lists it: its lights by id, in the bridge's order.
#[derive(Clone, Debug, PartialEq, Eq)]
pub struct GroupResponseItem {
    pub name: String,
    pub type_: String,
    pub lights: Vec<String>,
    pub action: LightState,
}

/// The lights of a bridge, each with its id, in ascending order of the ids.
pub type LightsResponse = Vec<(String, LightResponseItem)>;

/// The groups of a bridge, each with its id, in ascending order of the ids.
pub type GroupsResponse = Vec<(String, GroupResponseItem)>;

/// The method of an HTTP request.
#[derive(Clone, Copy, Debug, PartialEq, Eq, Structural)]
pub enum Method {
    Get,
    Post,
    Put,
}

/// An HTTP request for the caller to send: the bridge is not contacted from
/// here.
#[derive(Clone, Debug, PartialEq, Eq)]
pub struct Request {
    pub method: Method,
    pub url: String,
    /// The JSON text to send, if the request has a body.
    pub body: Option<String>,
}

/// A request as contracts speak of it: its strings as sequences of
/// characters.
pub struct RequestView {
    pub method: Method,
    pub url: Seq<char>,
    pub body: Option<Seq<char>>,
}

impl View for Request {
    type V = RequestView;

    open spec fn view(&self) -> RequestView {
        RequestView {
            method: self.method,
            url: self.url@,
            body: match self.body {
                Some(text) => Some(text@),
                None => None,
            },
        }
    }
}

/// A partial update of a light or group: what is absent is not sent, and the
/// bridge leaves it as it is.
#[derive(Clone, Copy, Debug, PartialEq, Eq)]
pub struct StateChangeRequest {
    pub brightness: Option<u8>,
    pub color_mired: Option<u16>,
    pub on: Option<bool>,
}

/// The protocol side of a client for one bridge: it writes the requests and
/// reads the replies.
#[derive(Clone, Debug, PartialEq, Eq)]
pub struct ApiClient {
    base_url: String,
}

/// A group as contracts speak of it: its lights as a sequence.
pub struct GroupView {
    pub name: String,
    pub type_: String,
    pub lights: Seq<String>,
    pub action: LightState,
}

impl View for GroupResponseItem {
    type V = GroupView;

    open spec fn view(&self) -> GroupView {
        GroupView {
            name: self.name,
            type_: self.type_,
            lights: self.lights@,
            action: self.action,
        }
    }
}

/// Whether each id precedes all ids after it, in the byte order of strings.
pub open spec fn ids_ascend<T>(list: Seq<(String, T)>) -> bool {
    forall|i: int, j: int|
        0 <= i < j < list.len() ==> str_lt(#[trigger] list[i].0@, #[trigger] list[j].0@)
}

impl ApiError {
    /// The error record that a JSON value holds: an object with an integer
    /// `type` and, if present, strings `address` and `description`.
    pub open spec fn spec_from_json(json: Json) -> Option<ApiError> {
        match json {
            Json::Object(_) => {
                let kind = int_of(json.spec_get("type"@), i32::MIN as int, i32::MAX as int);
                let address = optional_text_of(json.spec_get("address"@));
                let description = optional_text_of(json.spec_get("description"@));
                if kind is Some && address is Some && description is Some {
                    Some(
                        ApiError {
                            type_: kind.unwrap() as i32,
                            address: address.unwrap(),
                            description: description.unwrap(),
                        },
                    )
                } else {
                    None
                }
            },
            _ => None,
        }
    }

    /// Reads an error record.
    pub fn from_json(json: &Json) -> (record: Option<ApiError>)
        ensures
            record == ApiError::spec_from_json(*json),
    {
        match json {
            Json::Object(_) => {
                let kind = json.integer("type", i32::MIN as i64, i32::MAX as i64);
                let address = json.optional_text("address");
                let description = json.optional_text("description");
                match (kind, address, description) {
                    (Some(kind), Some(address), Some(description)) => Some(
                        ApiError { type_: kind as i32, address, description },
                    ),
                    _ => None,
                }
            },
            _ => None,
        }
    }
}

impl NewUserResponse {
    /// The credential that a JSON value holds: an object with a string
    /// `username` and, if present, a string `clientkey`.
    pub open spec fn spec_from_json(json: Json) -> Option<NewUserResponse> {
        match json {
            Json::Object(_) => {
                let username = text_of(json.spec_get("username"@));
                let client_key = optional_text_of(json.spec_get("clientkey"@));
                if username is Some && client_key is Some {
                    Some(
                        NewUserResponse {
                            username: username.unwrap(),
                            client_key: client_key.unwrap(),
                        },
                    )
                } else {
                    None
                }
            },
            _ => None,
        }
    }

    /// Reads a credential.
    pub fn from_json(json: &Json) -> (record: Option<NewUserResponse>)
        ensures
            record == NewUserResponse::spec_from_json(*json),
    {
        match json {
            Json::Object(_) => {
                let username = json.text("username");
                let client_key = json.optional_text("clientkey");
                match (username, client_key) {
                    (Some(username), Some(client_key)) => Some(
                        NewUserResponse { username, client_key },
                    ),
                    _ => None,
                }
            },
            _ => None,
        }
    }
}

impl NewUserResult {
    /// The result that a JSON value holds: an object with either an `error`
    /// or a `success` member, not both, whose value is of that record's shape.
    pub open spec fn spec_from_json(json: Json) -> Option<NewUserResult> {
        match json {
            Json::Object(_) => match (json.spec_get("error"@), json.spec_get("success"@)) {
                (Some(error), None) => match ApiError::spec_from_json(error) {
                    Some(record) => Some(NewUserResult::Error(record)),
                    None => None,
                },
                (None, Some(success)) => match NewUserResponse::spec_from_json(success) {
                    Some(record) => Some(NewUserResult::Success(record)),
                    None => None,
                },
                _ => None,
            },
            _ => None,
        }
    }

    /// Reads one result.
    pub fn from_json(json: &Json) -> (result: Option<NewUserResult>)
        ensures
            result == NewUserResult::spec_from_json(*json),
    {
        match json {
            Json::Object(_) => match (json.get("error"), json.get("success")) {
                (Some(error), None) => match ApiError::from_json(error) {
                    Some(record) => Some(NewUserResult::Error(record)),
                    None => None,
                },
                (None, Some(success)) => match NewUserResponse::from_json(success) {
                    Some(record) => Some(NewUserResult::Success(record)),
                    None => None,
                },
                _ => None,
            },
            _ => None,
        }
    }

    /// The result that a reply holds: an array of exactly one result.
    pub open spec fn spec_from_reply(json: Json) -> Option<NewUserResult> {
        match json {
            Json::Array(items) => if items@.len() == 1 {
                NewUserResult::spec_from_json(items@[0])
            } else {
                None
            },
            _ => None,
        }
    }

    /// Reads the reply to a request for a new user.
    pub fn from_reply(json: &Json) -> (result: Option<NewUserResult>)
        ensures
            result == NewUserResult::spec_from_reply(*json),
    {
        match json {
            Json::Array(items) => if items.len() == 1 {
                NewUserResult::from_json(&items[0])
            } else {
                None
            },
            _ => None,
        }
    }
}

impl LightState {
    /// The state that a JSON value holds: an object with booleans `on` and
    /// `reachable`, a byte `bri`, an integer `ct`, strings `alert` and
    /// `colormode` and, if present, integers `hue` and `sat`, a string
    /// `effect` and an array of numbers `xy`.
    pub open spec fn spec_from_json(json: Json) -> Option<LightState> {
        match json {
            Json::Object(_) => {
                let on = flag_of(json.spec_get("on"@));
                let bri = int_of(json.spec_get("bri"@), 0, 255);
                let hue = optional_int_of(json.spec_get("hue"@), i32::MIN as int, i32::MAX as int);
                let sat = optional_int_of(json.spec_get("sat"@), i32::MIN as int, i32::MAX as int);
                let effect = optional_text_of(json.spec_get("effect"@));
                let ct = int_of(json.spec_get("ct"@), i32::MIN as int, i32::MAX as int);
                let alert = text_of(json.spec_get("alert"@));
                let color_mode = text_of(json.spec_get("colormode"@));
                let reachable = flag_of(json.spec_get("reachable"@));
                if on is Some && bri is Some && hue is Some && sat is Some && effect is Some
                    && number_list_or_absent(json.spec_get("xy"@)) && ct is Some && alert is Some
                    && color_mode is Some && reachable is Some {
                    Some(
                        LightState {
                            on: on.unwrap(),
                            bri: bri.unwrap() as u8,
                            hue: match hue.unwrap() {
                                Some(n) => Some(n as i32),
                                None => None,
                            },
                            sat: match sat.unwrap() {
                                Some(n) => Some(n as i32),
                                None => None,
                            },
                            effect: effect.unwrap(),
                            ct: ct.unwrap() as i32,
                            alert: alert.unwrap(),
                            color_mode: color_mode.unwrap(),
                            reachable: reachable.unwrap(),
                        },
                    )
                } else {
                    None
                }
            },
            _ => None,
        }
    }

    /// Reads the state of a light.
    pub fn from_json(json: &Json) -> (state: Option<LightState>)
        ensures
            state == LightState::spec_from_json(*json),
    {
        match json {
            Json::Object(_) => {
                let on = json.flag("on");
                let bri = json.integer("bri", 0, 255);
                let hue = json.optional_integer("hue", i32::MIN as i64, i32::MAX as i64);
                let sat = json.optional_integer("sat", i32::MIN as i64, i32::MAX as i64);
                let effect = json.optional_text("effect");
                let xy = json.number_list_or_absent("xy");
                let ct = json.integer("ct", i32::MIN as i64, i32::MAX as i64);
                let alert = json.text("alert");
                let color_mode = json.text("colormode");
                let reachable = json.flag("reachable");
                match (on, bri, hue, sat, effect, ct, alert, color_mode, reachable) {
                    (
                        Some(on),
                        Some(bri),
                        Some(hue),
                        Some(sat),
                        Some(effect),
                        Some(ct),
                        Some(alert),
                        Some(color_mode),
                        Some(reachable),
                    ) => if xy {
                        Some(
                            LightState {
                                on,
                                bri: bri as u8,
                                hue: match hue {
                                    Some(n) => Some(n as i32),
                                    None => None,
                                },
                                sat: match sat {
                                    Some(n) => Some(n as i32),
                                    None => None,
                                },
                                effect,
                                ct: ct as i32,
                                alert,
                                color_mode,
                                reachable,
                            },
                        )
                    } else {
                        None
                    },
                    _ => None,
                }
            },
            _ => None,
        }
    }
}

impl LightControls {
    /// The controls that a JSON value holds: an object with integers
    /// `mindimlevel` and `maxlumen` and, if present, a string
    /// `colorgamuttype` and an array of arrays of numbers `colorgamut`.
    pub open spec fn spec_from_json(json: Json) -> Option<LightControls> {
        match json {
            Json::Object(_) => {
                let min_dim_level = int_of(
                    json.spec_get("mindimlevel"@),
                    i32::MIN as int,
                    i32::MAX as int,
                );
                let max_lumen = int_of(json.spec_get("maxlumen"@), i32::MIN as int, i32::MAX as int);
                let color_gamut_type = optional_text_of(json.spec_get("colorgamuttype"@));
                if min_dim_level is Some && max_lumen is Some && color_gamut_type is Some
                    && number_table_or_absent(json.spec_get("colorgamut"@)) {
                    Some(
                        LightControls {
                            min_dim_level: min_dim_level.unwrap() as i32,
                            max_lumen: max_lumen.unwrap() as i32,
                            color_gamut_type: color_gamut_type.unwrap(),
                        },
                    )
                } else {
                    None
                }
            },
            _ => None,
        }
    }

    /// Reads the controls of a light.
    pub fn from_json(json: &Json) -> (controls: Option<LightControls>)
        ensures
            controls == LightControls::spec_from_json(*json),
    {
        match json {
            Json::Object(_) => {
                let min_dim_level = json.integer("mindimlevel", i32::MIN as i64, i32::MAX as i64);
                let max_lumen = json.integer("maxlumen", i32::MIN as i64, i32::MAX as i64);
                let color_gamut_type = json.optional_text("colorgamuttype");
                let color_gamut = json.number_table_or_absent("colorgamut");
                match (min_dim_level, max_lumen, color_gamut_type) {
                    (Some(min_dim_level), Some(max_lumen), Some(color_gamut_type)) => if color_gamut {
                        Some(
                            LightControls {
                                min_dim_level: min_dim_level as i32,
                                max_lumen: max_lumen as i32,
                                color_gamut_type,
                            },
                        )
                    } else {
                        None
                    },
                    _ => None,
                }
            },
            _ => None,
        }
    }
}

impl LightCapabilities {
    /// The capabilities that a JSON value holds: an object with a boolean
    /// `certified` and the controls under `control`.
    pub open spec fn spec_from_json(json: Json) -> Option<LightCapabilities> {
        match json {
            Json::Object(_) => {
                let certified = flag_of(json.spec_get("certified"@));
                let control = match json.spec_get("control"@) {
                    Some(inner) => LightControls::spec_from_json(inner),
                    None => None,
                };
                if certified is Some && control is Some {
                    Some(LightCapabilities { certified: certified.unwrap(), control: control.unwrap() })
                } else {
                    None
                }
            },
            _ => None,
        }
    }

    /// Reads the capabilities of a light.
    pub fn from_json(json: &Json) -> (capabilities: Option<LightCapabilities>)
        ensures
            capabilities == LightCapabilities::spec_from_json(*json),
    {
        match json {
            Json::Object(_) => {
                let certified = json.flag("certified");
                let control = match json.get("control") {
                    Some(inner) => LightControls::from_json(inner),
                    None => None,
                };
                match (certified, control) {
                    (Some(certified), Some(control)) => Some(LightCapabilities { certified, control }),
                    _ => None,
                }
            },
            _ => None,
        }
    }
}

impl LightConfig {
    /// The configuration that a JSON value holds: an object with strings
    /// `archetype`, `function` and `direction`.
    pub open spec fn spec_from_json(json: Json) -> Option<LightConfig> {
        match json {
            Json::Object(_) => {
                let archetype = text_of(json.spec_get("archetype"@));
                let function = text_of(json.spec_get("function"@));
                let direction = text_of(json.spec_get("direction"@));
                if archetype is Some && function is Some && direction is Some {
                    Some(
                        LightConfig {
                            archetype: archetype.unwrap(),
                            function: function.unwrap(),
                            direction: direction.unwrap(),
                        },
                    )
                } else {
                    None
                }
            },
            _ => None,
        }
    }

    /// Reads the configuration of a light.
    pub fn from_json(json: &Json) -> (config: Option<LightConfig>)
        ensures
            config == LightConfig::spec_from_json(*json),
    {
        match json {
            Json::Object(_) => {
                let archetype = json.text("archetype");
                let function = json.text("function");
                let direction = json.text("direction");
                match (archetype, function, direction) {
                    (Some(archetype), Some(function), Some(direction)) => Some(
                        LightConfig { archetype, function, direction },
                    ),
                    _ => None,
                }
            },
            _ => None,
        }
    }
}

impl LightResponseItem {
    /// The light that a JSON value holds: an object with strings `type` and
    /// `name` and the records under `state`, `capabilities` and `config`.
    pub open spec fn spec_from_json(json: Json) -> Option<LightResponseItem> {
        match json {
            Json::Object(_) => {
                let state = match json.spec_get("state"@) {
                    Some(inner) => LightState::spec_from_json(inner),
                    None => None,
                };
                let type_ = text_of(json.spec_get("type"@));
                let name = text_of(json.spec_get("name"@));
                let capabilities = match json.spec_get("capabilities"@) {
                    Some(inner) => LightCapabilities::spec_from_json(inner),
                    None => None,
                };
                let config = match json.spec_get("config"@) {
                    Some(inner) => LightConfig::spec_from_json(inner),
                    None => None,
                };
                if state is Some && type_ is Some && name is Some && capabilities is Some
                    && config is Some {
                    Some(
                        LightResponseItem {
                            state: state.unwrap(),
                            type_: type_.unwrap(),
                            name: name.unwrap(),
                            capabilities: capabilities.unwrap(),
                            config: config.unwrap(),
                        },
                    )
                } else {
                    None
                }
            },
            _ => None,
        }
    }

    /// Reads a light.
    pub fn from_json(json: &Json) -> (light: Option<LightResponseItem>)
        ensures
            light == LightResponseItem::spec_from_json(*json),
    {
        match json {
            Json::Object(_) => {
                let state = match json.get("state") {
                    Some(inner) => LightState::from_json(inner),
                    None => None,
                };
                let type_ = json.text("type");
                let name = json.text("name");
                let capabilities = match json.get("capabilities") {
                    Some(inner) => LightCapabilities::from_json(inner),
                    None => None,
                };
                let config = match json.get("config") {
                    Some(inner) => LightConfig::from_json(inner),
                    None => None,
                };
                match (state, type_, name, capabilities, config) {
                    (Some(state), Some(type_), Some(name), Some(capabilities), Some(config)) => Some(
                        LightResponseItem { state, type_, name, capabilities, config },
                    ),
                    _ => None,
                }
            },
            _ => None,
        }
    }
}

impl GroupResponseItem {
    /// The group that a JSON value holds: an object with strings `name` and
    /// `type`, an array of strings `lights` and a state under `action`.
    pub open spec fn spec_from_json(json: Json) -> Option<GroupView> {
        match json {
            Json::Object(_) => {
                let name = text_of(json.spec_get("name"@));
                let type_ = text_of(json.spec_get("type"@));
                let lights = text_list_of(json.spec_get("lights"@));
                let action = match json.spec_get("action"@) {
                    Some(inner) => LightState::spec_from_json(inner),
                    None => None,
                };
                if name is Some && type_ is Some && lights is Some && action is Some {
                    Some(
                        GroupView {
                            name: name.unwrap(),
                            type_: type_.unwrap(),
                            lights: lights.unwrap(),
                            action: action.unwrap(),
                        },
                    )
                } else {
                    None
                }
            },
            _ => None,
        }
    }

    /// Reads a group.
    pub fn from_json(json: &Json) -> (group: Option<GroupResponseItem>)
        ensures
            match group {
                Some(found) => GroupResponseItem::spec_from_json(*json) == Some(found@),
                None => GroupResponseItem::spec_from_json(*json) is None,
            },
    {
        match json {
            Json::Object(_) => {
                let name = json.text("name");
                let type_ = json.text("type");
                let lights = json.text_list("lights");
                let action = match json.get("action") {
                    Some(inner) => LightState::from_json(inner),
                    None => None,
                };
                match (name, type_, lights, action) {
                    (Some(name), Some(type_), Some(lights), Some(action)) => Some(
                        GroupResponseItem { name, type_, lights, action },
                    ),
                    _ => None,
                }
            },
            _ => None,
        }
    }
}

impl StateChangeRequest {
    /// The members that are sent, in the order `bri`, `ct`, `on`.
    pub open spec fn spec_members(self) -> Seq<Seq<char>> {
        (match self.brightness {
            Some(level) => seq!["\"bri\":"@ + decimal(level as nat)],
            None => Seq::empty(),
        }) + (match self.color_mired {
            Some(mired) => seq!["\"ct\":"@ + decimal(mired as nat)],
            None => Seq::empty(),
        }) + (match self.on {
            Some(flag) => seq!["\"on\":"@ + flag_text(flag)],
            None => Seq::empty(),
        })
    }

    /// The JSON text of the update: an object of the present fields only.
    pub open spec fn spec_body(self) -> Seq<char> {
        object_text(self.spec_members())
    }

    /// An update of the given fields.
    pub fn new(brightness: Option<u8>, color_mired: Option<u16>, on: Option<bool>) -> (request:
        StateChangeRequest)
        ensures
            request == (StateChangeRequest { brightness, color_mired, on }),
    {
        StateChangeRequest { brightness, color_mired, on }
    }

    /// Writes the update as JSON.
    pub fn to_body(&self) -> (body: String)
        ensures
            body@ == self.spec_body(),
    {
        let mut members: Vec<String> = Vec::new();
        if let Some(level) = self.brightness {
            let mut member = "\"bri\":".to_owned();
            push_decimal(&mut member, level as u64);
            members.push(member);
        }
        if let Some(mired) = self.color_mired {
            let mut member = "\"ct\":".to_owned();
            push_decimal(&mut member, mired as u64);
            members.push(member);
        }
        if let Some(flag) = self.on {
            let mut member = "\"on\":".to_owned();
            push_flag(&mut member, flag);
            members.push(member);
        }
        assert(views(members@) =~= self.spec_members());
        write_object(&members)
    }
}

/// How a light is read from the value of a member.
pub open spec fn light_reader() -> spec_fn(Json) -> Option<LightResponseItem> {
    |value: Json| LightResponseItem::spec_from_json(value)
}

/// How a group is read from the value of a member.
pub open spec fn group_reader() -> spec_fn(Json) -> Option<GroupView> {
    |value: Json| GroupResponseItem::spec_from_json(value)
}

/// The groups, each as contracts speak of it.
pub open spec fn group_views(groups: Seq<(String, GroupResponseItem)>) -> Seq<(String, GroupView)> {
    Seq::new(groups.len(), |i: int| (groups[i].0, groups[i].1@))
}

/// Whether some item of the list stands under the id.
pub open spec fn has_id<T>(list: Seq<(String, T)>, id: Seq<char>) -> bool {
    exists|i: int| 0 <= i < list.len() && (#[trigger] list[i]).0@ == id
}

/// Whether every key of the members has a value that reads as an item, the
/// value of a key being that of the last member with the key.
pub open spec fn every_member_reads<T>(
    members: Seq<(String, Json)>,
    read: spec_fn(Json) -> Option<T>,
) -> bool {
    forall|i: int|
        0 <= i < members.len() ==> (last_with_key(members, (#[trigger] members[i]).0@) matches Some(
            value,
        ) && read(value) is Some)
}

/// Whether `list` lists the members: its ids are the keys of the members,
/// each once and in ascending order, and under each id stands what the value
/// of that key reads as.
pub open spec fn lists<T>(
    members: Seq<(String, Json)>,
    read: spec_fn(Json) -> Option<T>,
    list: Seq<(String, T)>,
) -> bool {
    &&& ids_ascend(list)
    &&& forall|i: int|
        0 <= i < list.len() ==> (last_with_key(members, (#[trigger] list[i]).0@) matches Some(value)
            && read(value) == Some(list[i].1))
    &&& forall|i: int| 0 <= i < members.len() ==> has_id(list, (#[trigger] members[i]).0@)
}

proof fn lemma_same_ids<T>(a: Seq<(String, T)>, b: Seq<(String, T)>)
    requires
        ids_ascend(a),
        ids_ascend(b),
        forall|i: int| 0 <= i < a.len() ==> has_id(b, (#[trigger] a[i]).0@),
        forall|i: int| 0 <= i < b.len() ==> has_id(a, (#[trigger] b[i]).0@),
    ensures
        a.len() == b.len(),
        forall|i: int| 0 <= i < a.len() ==> (#[trigger] a[i]).0@ == b[i].0@,
    decreases a.len(),
{
    if a.len() == 0 {
        if b.len() > 0 {
            assert(has_id(a, b[0].0@));
        }
    } else {
        assert(has_id(b, a[0].0@));
        let x = a.last().0@;
        let y = b.last().0@;
        assert(has_id(b, a[a.len() - 1].0@));
        assert(has_id(a, b[b.len() - 1].0@));
        let j = choose|j: int| 0 <= j < b.len() && (#[trigger] b[j]).0@ == x;
        let i = choose|i: int| 0 <= i < a.len() && (#[trigger] a[i]).0@ == y;
        lemma_str_lt_irreflexive(x);
        if j < b.len() - 1 {
            assert(str_lt(b[j].0@, b[b.len() - 1].0@));
            if i < a.len() - 1 {
                assert(str_lt(a[i].0@, a[a.len() - 1].0@));
                lemma_str_lt_transitive(x, y, x);
            }
        }
        assert(x == y);
        let a0 = a.drop_last();
        let b0 = b.drop_last();
        assert forall|k: int| 0 <= k < a0.len() implies has_id(b0, (#[trigger] a0[k]).0@) by {
            assert(a0[k] == a[k]);
            assert(has_id(b, a[k].0@));
            let m = choose|m: int| 0 <= m < b.len() && (#[trigger] b[m]).0@ == a[k].0@;
            assert(str_lt(a[k].0@, a[a.len() - 1].0@));
            assert(b0[m] == b[m]);
        }
        assert forall|k: int| 0 <= k < b0.len() implies has_id(a0, (#[trigger] b0[k]).0@) by {
            assert(b0[k] == b[k]);
            assert(has_id(a, b[k].0@));
            let m = choose|m: int| 0 <= m < a.len() && (#[trigger] a[m]).0@ == b[k].0@;
            assert(str_lt(b[k].0@, b[b.len() - 1].0@));
            assert(a0[m] == a[m]);
        }
        assert forall|k: int, l: int| 0 <= k < l < a0.len() implies str_lt(
            #[trigger] a0[k].0@,
            #[trigger] a0[l].0@,
        ) by {
            assert(str_lt(a[k].0@, a[l].0@));
        }
        assert forall|k: int, l: int| 0 <= k < l < b0.len() implies str_lt(
            #[trigger] b0[k].0@,
            #[trigger] b0[l].0@,
        ) by {
            assert(str_lt(b[k].0@, b[l].0@));
        }
        lemma_same_ids(a0, b0);
        assert forall|k: int| 0 <= k < a.len() implies (#[trigger] a[k]).0@ == b[k].0@ by {
            if k < a.len() - 1 {
                assert(a0[k] == a[k]);
                assert(b0[k] == b[k]);
            }
        }
    }
}

/// The members of an object are listed in one way only: two lists of the
/// same members have the same ids and the same items, place by place.
pub proof fn lemma_lists_one_list<T>(
    members: Seq<(String, Json)>,
    read: spec_fn(Json) -> Option<T>,
    a: Seq<(String, T)>,
    b: Seq<(String, T)>,
)
    requires
        lists(members, read, a),
        lists(members, read, b),
    ensures
        a.len() == b.len(),
        forall|i: int| 0 <= i < a.len() ==> (#[trigger] a[i]).0@ == b[i].0@ && a[i].1 == b[i].1,
{
    assert forall|i: int| 0 <= i < a.len() implies has_id(b, (#[trigger] a[i]).0@) by {
        lemma_last_with_key(members, a[i].0@);
        let m = choose|m: int| 0 <= m < members.len() && #[trigger] members[m].0@ == a[i].0@;
        assert(has_id(b, members[m].0@));
    }
    assert forall|i: int| 0 <= i < b.len() implies has_id(a, (#[trigger] b[i]).0@) by {
        lemma_last_with_key(members, b[i].0@);
        let m = choose|m: int| 0 <= m < members.len() && #[trigger] members[m].0@ == b[i].0@;
        assert(has_id(a, members[m].0@));
    }
    lemma_same_ids(a, b);
}

/// What reading the members in order comes to, once `read` has been tried on
/// each of them.
proof fn lemma_ordered_members_list<T>(
    members: Seq<(String, Json)>,
    ordered: Seq<(String, Json)>,
    read: spec_fn(Json) -> Option<T>,
)
    requires
        keys_ascend(ordered),
        forall|k: Seq<char>| #[trigger] lookup(ordered, k) == last_with_key(members, k),
    ensures
        forall|c: int|
            0 <= c < ordered.len() ==> last_with_key(members, (#[trigger] ordered[c]).0@) == Some(
                ordered[c].1,
            ),
        forall|i: int| 0 <= i < members.len() ==> has_key(ordered, (#[trigger] members[i]).0@),
        (forall|c: int| 0 <= c < ordered.len() ==> read((#[trigger] ordered[c]).1) is Some)
            ==> every_member_reads(members, read),
        forall|c: int|
            0 <= c < ordered.len() && read((#[trigger] ordered[c]).1) is None
                ==> !every_member_reads(members, read),
{
    assert forall|c: int| 0 <= c < ordered.len() implies last_with_key(
        members,
        (#[trigger] ordered[c]).0@,
    ) == Some(ordered[c].1) by {
        lemma_lookup_at(ordered, c);
        assert(lookup(ordered, ordered[c].0@) == last_with_key(members, ordered[c].0@));
    }
    assert forall|i: int| 0 <= i < members.len() implies has_key(
        ordered,
        (#[trigger] members[i]).0@,
    ) by {
        lemma_last_with_key(members, members[i].0@);
        assert(lookup(ordered, members[i].0@) == last_with_key(members, members[i].0@));
    }
    if forall|c: int| 0 <= c < ordered.len() ==> read((#[trigger] ordered[c]).1) is Some {
        assert forall|i: int| 0 <= i < members.len() implies (last_with_key(
            members,
            (#[trigger] members[i]).0@,
        ) matches Some(value) && read(value) is Some) by {
            let key = members[i].0@;
            assert(has_key(ordered, key));
            let c = choose|c: int| 0 <= c < ordered.len() && #[trigger] ordered[c].0@ == key;
            assert(last_with_key(members, ordered[c].0@) == Some(ordered[c].1));
        }
    }
    assert forall|c: int|
        0 <= c < ordered.len() && read((#[trigger] ordered[c]).1) is None implies !every_member_reads(
        members,
        read,
    ) by {
        let key = ordered[c].0@;
        assert(last_with_key(members, ordered[c].0@) == Some(ordered[c].1));
        lemma_last_with_key(members, key);
        let i = choose|i: int| 0 <= i < members.len() && #[trigger] members[i].0@ == key;
        assert(last_with_key(members, members[i].0@) == Some(ordered[c].1));
    }
}

/// Reads the list of lights from the object that holds each light under its
/// id. The lights come out in ascending order of their ids; where an id
/// stands twice, its last light stays.
pub fn lights_from_json(json: Json) -> (lights: Option<LightsResponse>)
    ensures
        match lights {
            Some(list) => json matches Json::Object(members) && every_member_reads(
                members@,
                light_reader(),
            ) && lists(members@, light_reader(), list@),
            None => !(json matches Json::Object(members) && every_member_reads(
                members@,
                light_reader(),
            )),
        },
{
    match json {
        Json::Object(members) => {
            let ghost given = members@;
            let ordered = OrderedMembers::from_members(members);
            let count = ordered.len();
            proof {
                lemma_ordered_members_list(given, ordered.members(), light_reader());
            }
            let mut list: Vec<(String, LightResponseItem)> = Vec::new();
            let mut i: usize = 0;
            while i < count
                invariant
                    json is Object,
                    json->Object_0@ == given,
                    count == ordered.members().len(),
                    i <= count,
                    list@.len() == i,
                    forall|c: int|
                        0 <= c < ordered.members().len() && light_reader()(
                            (#[trigger] ordered.members()[c]).1,
                        ) is None ==> !every_member_reads(given, light_reader()),
                    forall|c: int|
                        0 <= c < i ==> list@[c].0@ == (#[trigger] ordered.members()[c]).0@
                            && light_reader()(ordered.members()[c].1) == Some(list@[c].1),
                decreases count - i,
            {
                match LightResponseItem::from_json(ordered.value_at(i)) {
                    Some(light) => {
                        list.push((ordered.key_at(i).clone(), light));
                    },
                    None => {
                        assert(light_reader()(ordered.members()[i as int].1) is None);
                        return None;
                    },
                }
                i += 1;
            }
            proof {
                let sorted = ordered.members();
                assert forall|a: int, b: int| 0 <= a < b < list@.len() implies str_lt(
                    #[trigger] list@[a].0@,
                    #[trigger] list@[b].0@,
                ) by {
                    assert(str_lt(sorted[a].0@, sorted[b].0@));
                }
                assert forall|c: int| 0 <= c < list@.len() implies (last_with_key(
                    given,
                    (#[trigger] list@[c]).0@,
                ) matches Some(value) && light_reader()(value) == Some(list@[c].1)) by {
                    assert(last_with_key(given, sorted[c].0@) == Some(sorted[c].1));
                }
                assert forall|m: int| 0 <= m < given.len() implies has_id(
                    list@,
                    (#[trigger] given[m]).0@,
                ) by {
                    assert(has_key(sorted, given[m].0@));
                    let c = choose|c: int|
                        0 <= c < sorted.len() && #[trigger] sorted[c].0@ == given[m].0@;
                    assert(list@[c].0@ == sorted[c].0@);
                }
                assert forall|c: int| 0 <= c < sorted.len() implies light_reader()(
                    (#[trigger] sorted[c]).1,
                ) is Some by {
                    assert(light_reader()(sorted[c].1) == Some(list@[c].1));
                }
            }
            Some(list)
        },
        _ => None,
    }
}

/// Reads the list of groups from the object that holds each group under its
/// id. The groups come out in ascending order of their ids; where an id
/// stands twice, its last group stays.
pub fn groups_from_json(json: Json) -> (groups: Option<GroupsResponse>)
    ensures
        match groups {
            Some(list) => json matches Json::Object(members) && every_member_reads(
                members@,
                group_reader(),
            ) && lists(members@, group_reader(), group_views(list@)),
            None => !(json matches Json::Object(members) && every_member_reads(
                members@,
                group_reader(),
            )),
        },
{
    match json {
        Json::Object(members) => {
            let ghost given = members@;
            let ordered = OrderedMembers::from_members(members);
            let count = ordered.len();
            proof {
                lemma_ordered_members_list(given, ordered.members(), group_reader());
            }
            let mut list: Vec<(String, GroupResponseItem)> = Vec::new();
            let mut i: usize = 0;
            while i < count
                invariant
                    json is Object,
                    json->Object_0@ == given,
                    count == ordered.members().len(),
                    i <= count,
                    list@.len() == i,
                    forall|c: int|
                        0 <= c < ordered.members().len() && group_reader()(
                            (#[trigger] ordered.members()[c]).1,
                        ) is None ==> !every_member_reads(given, group_reader()),
                    forall|c: int|
                        0 <= c < i ==> list@[c].0@ == (#[trigger] ordered.members()[c]).0@
                            && group_reader()(ordered.members()[c].1) == Some(list@[c].1@),
                decreases count - i,
            {
                match GroupResponseItem::from_json(ordered.value_at(i)) {
                    Some(group) => {
                        list.push((ordered.key_at(i).clone(), group));
                    },
                    None => {
                        assert(group_reader()(ordered.members()[i as int].1) is None);
                        return None;
                    },
                }
                i += 1;
            }
            proof {
                let sorted = ordered.members();
                let views = group_views(list@);
                assert forall|a: int, b: int| 0 <= a < b < views.len() implies str_lt(
                    #[trigger] views[a].0@,
                    #[trigger] views[b].0@,
                ) by {
                    assert(str_lt(sorted[a].0@, sorted[b].0@));
                }
                assert forall|c: int| 0 <= c < views.len() implies (last_with_key(
                    given,
                    (#[trigger] views[c]).0@,
                ) matches Some(value) && group_reader()(value) == Some(views[c].1)) by {
                    assert(last_with_key(given, sorted[c].0@) == Some(sorted[c].1));
                }
                assert forall|m: int| 0 <= m < given.len() implies has_id(
                    views,
                    (#[trigger] given[m]).0@,
                ) by {
                    assert(has_key(sorted, given[m].0@));
                    let c = choose|c: int|
                        0 <= c < sorted.len() && #[trigger] sorted[c].0@ == given[m].0@;
                    assert(views[c].0@ == sorted[c].0@);
                }
                assert forall|c: int| 0 <= c < sorted.len() implies group_reader()(
                    (#[trigger] sorted[c]).1,
                ) is Some by {
                    assert(group_reader()(sorted[c].1) == Some(list@[c].1@));
                }
            }
            Some(list)
        },
        _ => None,
    }
}

/// An update without fields is written as the empty json.
pub proof fn lemma_empty_update_is_empty_object()
    ensures
        (StateChangeRequest { brightness: None, color_mired: None, on: None }).spec_body()
            == "{}"@,
{
    let update = StateChangeRequest { brightness: None, color_mired: None, on: None };
    reveal_strlit("{");
    reveal_strlit("}");
    reveal_strlit("{}");
    assert(update.spec_members() =~= Seq::<Seq<char>>::empty());
    assert(update.spec_body() =~= "{}"@);
}

/// An update of the power state alone is written as an object with the
/// member `on` and no other.
pub proof fn lemma_power_update_has_one_member(flag: bool)
    ensures
        (StateChangeRequest { brightness: None, color_mired: None, on: Some(flag) }).spec_body()
            == if flag {
            "{\"on\":true}"@
        } else {
            "{\"on\":false}"@
        },
{
    let update = StateChangeRequest { brightness: None, color_mired: None, on: Some(flag) };
    reveal_strlit("{");
    reveal_strlit("}");
    reveal_strlit(",");
    reveal_strlit("\"on\":");
    reveal_strlit("true");
    reveal_strlit("false");
    reveal_strlit("{\"on\":true}");
    reveal_strlit("{\"on\":false}");
    assert(update.spec_members() =~= seq!["\"on\":"@ + flag_text(flag)]);
    if flag {
        assert(update.spec_body() =~= "{\"on\":true}"@);
    } else {
        assert(update.spec_body() =~= "{\"on\":false}"@);
    }
}

/// A reply that is an array of any length but one is a JSON error, whatever
/// its items are.
pub proof fn lemma_reply_of_other_length_is_rejected(json: Json)
    requires
        json matches Json::Array(items) && items@.len() != 1,
    ensures
        spec_read_new_user(Some(json)) == Err::<NewUserResult, LuciaError>(LuciaError::JsonError),
{
}

/// A reply is read as a result only if it is an array of exactly one item
/// that is an object with exactly one of the members `error` and `success`.
pub proof fn lemma_result_comes_from_single_item(json: Json)
    requires
        spec_read_new_user(Some(json)) is Ok,
    ensures
        json matches Json::Array(items) && items@.len() == 1 && items@[0] is Object && (
        items@[0].spec_get("error"@) is Some) != (items@[0].spec_get("success"@) is Some),
{
}

/// The body of a request for a new user with the given device label.
pub open spec fn new_user_body(user: Seq<char>) -> Seq<char> {
    object_text(seq!["\"devicetype\":"@ + json_quoted(user), "\"generateclientkey\":true"@])
}

/// What the reply to a request for a new user holds, given how it parsed.
pub open spec fn spec_read_new_user(parsed: Option<Json>) -> Result<NewUserResult, LuciaError> {
    match parsed {
        Some(json) => match NewUserResult::spec_from_reply(json) {
            Some(result) => Ok(result),
            None => Err(LuciaError::JsonError),
        },
        None => Err(LuciaError::JsonError),
    }
}

impl ApiClient {
    /// The URL that all paths are appended to.
    pub closed spec fn spec_base_url(&self) -> Seq<char> {
        self.base_url@
    }

    /// A client for the bridge at `address`, which it reaches over plain HTTP.
    pub fn new(address: BridgeAddress) -> (client: ApiClient)
        ensures
            client.spec_base_url() == "http://"@ + address.spec_host(),
    {
        let mut base_url = "http://".to_owned();
        let host = address.host();
        base_url.append(host.as_str());
        ApiClient { base_url }
    }

    /// The URL that all paths are appended to.
    pub fn base_url(&self) -> (url: &str)
        ensures
            url@ == self.spec_base_url(),
    {
        self.base_url.as_str()
    }

    /// The request that asks the bridge for a new user: the device label and
    /// the wish for a client key, posted to `/api`.
    pub fn post_new_user(&self, user: &str) -> (request: Request)
        ensures
            request@ == (RequestView {
                method: Method::Post,
                url: self.spec_base_url() + "/api"@,
                body: Some(new_user_body(user@)),
            }),
    {
        let mut url = self.base_url.clone();
        url.append("/api");
        let mut label = "\"devicetype\":".to_owned();
        let quoted = json_quote(user);
        label.append(quoted.as_str());
        let mut members: Vec<String> = Vec::new();
        members.push(label);
        members.push("\"generateclientkey\":true".to_owned());
        assert(views(members@) =~= seq![
            "\"devicetype\":"@ + json_quoted(user@),
            "\"generateclientkey\":true"@,
        ]);
        Request { method: Method::Post, url, body: Some(write_object(&members)) }
    }

    /// Reads the reply to a request for a new user. Anything but an array of
    /// exactly one result is a JSON error.
    pub fn read_new_user(body: &[u8]) -> (result: Result<NewUserResult, LuciaError>)
        ensures
            result == spec_read_new_user(json_parse(body@)),
    {
        match Json::parse(body) {
            Ok(json) => match NewUserResult::from_reply(&json) {
                Some(result) => Ok(result),
                None => Err(LuciaError::JsonError),
            },
            Err(error) => Err(error),
        }
    }

    /// The request that lists the lights.
    pub fn get_lights(&self, api_key: &str) -> (request: Request)
        ensures
            request@ == (RequestView {
                method: Method::Get,
                url: self.spec_base_url() + "/api/"@ + api_key@ + "/lights"@,
                body: None,
            }),
    {
        let mut url = self.base_url.clone();
        url.append("/api/");
        url.append(api_key);
        url.append("/lights");
        Request { method: Method::Get, url, body: None }
    }

    /// Reads the reply that lists the lights, in ascending order of their
    /// ids.
    pub fn read_lights(body: &[u8]) -> (lights: Result<LightsResponse, LuciaError>)
        ensures
            match lights {
                Ok(list) => json_parse(body@) matches Some(Json::Object(members))
                    && every_member_reads(members@, light_reader()) && lists(
                    members@,
                    light_reader(),
                    list@,
                ),
                Err(error) => error == LuciaError::JsonError && !(json_parse(body@) matches Some(
                    Json::Object(members),
                ) && every_member_reads(members@, light_reader())),
            },
    {
        match Json::parse(body) {
            Ok(json) => match lights_from_json(json) {
                Some(list) => Ok(list),
                None => Err(LuciaError::JsonError),
            },
            Err(error) => Err(error),
        }
    }

    /// The request that lists the groups.
    pub fn get_groups(&self, api_key: &str) -> (request: Request)
        ensures
            request@ == (RequestView {
                method: Method::Get,
                url: self.spec_base_url() + "/api/"@ + api_key@ + "/groups"@,
                body: None,
            }),
    {
        let mut url = self.base_url.clone();
        url.append("/api/");
        url.append(api_key);
        url.append("/groups");
        Request { method: Method::Get, url, body: None }
    }

    /// Reads the reply that lists the groups, in ascending order of their
    /// ids.
    pub fn read_groups(body: &[u8]) -> (groups: Result<GroupsResponse, LuciaError>)
        ensures
            match groups {
                Ok(list) => json_parse(body@) matches Some(Json::Object(members))
                    && every_member_reads(members@, group_reader()) && lists(
                    members@,
                    group_reader(),
                    group_views(list@),
                ),
                Err(error) => error == LuciaError::JsonError && !(json_parse(body@) matches Some(
                    Json::Object(members),
                ) && every_member_reads(members@, group_reader())),
            },
    {
        match Json::parse(body) {
            Ok(json) => match groups_from_json(json) {
                Some(list) => Ok(list),
                None => Err(LuciaError::JsonError),
            },
            Err(error) => Err(error),
        }
    }

    /// The request that sets the state of the light `id`. Only the fields
    /// that are given are sent.
    pub fn set_light_state(
        &self,
        api_key: &str,
        id: &str,
        brightness: Option<u8>,
        temperature: Option<u16>,
        on: Option<bool>,
    ) -> (request: Request)
        ensures
            request@ == (RequestView {
                method: Method::Put,
                url: self.spec_base_url() + "/api/"@ + api_key@ + "/lights/"@ + id@ + "/state"@,
                body: Some(
                    (StateChangeRequest { brightness, color_mired: temperature, on }).spec_body(),
                ),
            }),
    {
        let mut url = self.base_url.clone();
        url.append("/api/");
        url.append(api_key);
        url.append("/lights/");
        url.append(id);
        url.append("/state");
        let payload = StateChangeRequest::new(brightness, temperature, on);
        Request { method: Method::Put, url, body: Some(payload.to_body()) }
    }

    /// The request that sets the action of the group `id`. Only the fields
    /// that are given are sent.
    pub fn set_group_state(
        &self,
        api_key: &str,
        id: &str,
        brightness: Option<u8>,
        temperature: Option<u16>,
        on: Option<bool>,
    ) -> (request: Request)
        ensures
            request@ == (RequestView {
                method: Method::Put,
                url: self.spec_base_url() + "/api/"@ + api_key@ + "/groups/"@ + id@ + "/action"@,
                body: Some(
                    (StateChangeRequest { brightness, color_mired: temperature, on }).spec_body(),
                ),
            }),
    {
        let mut url = self.base_url.clone();
        url.append("/api/");
        url.append(api_key);
        url.append("/groups/");
        url.append(id);
        url.append("/action");
        let payload = StateChangeRequest::new(brightness, temperature, on);
        Request { method: Method::Put, url, body: Some(payload.to_body()) }
    }
}

} // verus!
