use lucia::common::LuciaError;
use lucia::discovery::BridgeAddress;
use lucia::json::Json;
use lucia::philips_hue::{
    groups_from_json, lights_from_json, ApiClient, ApiError, GroupResponseItem, LightCapabilities,
    LightConfig, LightControls, LightResponseItem, LightState, Method, NewUserResponse,
    NewUserResult, Request, StateChangeRequest, LINK_BUTTON_NOT_PRESSED,
};

const LIGHT: &str = r#"{
    "state": {"on": true, "bri": 254, "hue": 8418, "sat": 140, "effect": "none",
              "xy": [0.4573, 0.41], "ct": 366, "alert": "select", "colormode": "ct",
              "reachable": true},
    "type": "Extended color light",
    "name": "Desk",
    "modelid": "LCT015",
    "capabilities": {"certified": true,
                     "control": {"mindimlevel": 1000, "maxlumen": 806, "colorgamuttype": "C",
                                 "colorgamut": [[0.6915, 0.3083], [0.17, 0.7], [0.1532, 0.0475]],
                                 "ct": {"min": 153, "max": 500}}},
    "config": {"archetype": "sultanbulb", "function": "mixed", "direction": "omnidirectional"}
}"#;

const PLAIN_LIGHT: &str = r#"{
    "state": {"on": false, "bri": 0, "ct": 0, "alert": "none", "colormode": "xy",
              "reachable": false, "hue": null},
    "type": "Dimmable light",
    "name": "Hall",
    "capabilities": {"certified": false, "control": {"mindimlevel": 5000, "maxlumen": 800}},
    "config": {"archetype": "classicbulb", "function": "functional", "direction": "downwards"}
}"#;

fn desk() -> LightResponseItem {
    LightResponseItem {
        state: LightState {
            on: true,
            bri: 254,
            hue: Some(8418),
            sat: Some(140),
            effect: Some("none".to_string()),
            ct: 366,
            alert: "select".to_string(),
            color_mode: "ct".to_string(),
            reachable: true,
        },
        type_: "Extended color light".to_string(),
        name: "Desk".to_string(),
        capabilities: LightCapabilities {
            certified: true,
            control: LightControls {
                min_dim_level: 1000,
                max_lumen: 806,
                color_gamut_type: Some("C".to_string()),
            },
        },
        config: LightConfig {
            archetype: "sultanbulb".to_string(),
            function: "mixed".to_string(),
            direction: "omnidirectional".to_string(),
        },
    }
}

fn hall() -> LightResponseItem {
    LightResponseItem {
        state: LightState {
            on: false,
            bri: 0,
            hue: None,
            sat: None,
            effect: None,
            ct: 0,
            alert: "none".to_string(),
            color_mode: "xy".to_string(),
            reachable: false,
        },
        type_: "Dimmable light".to_string(),
        name: "Hall".to_string(),
        capabilities: LightCapabilities {
            certified: false,
            control: LightControls { min_dim_level: 5000, max_lumen: 800, color_gamut_type: None },
        },
        config: LightConfig {
            archetype: "classicbulb".to_string(),
            function: "functional".to_string(),
            direction: "downwards".to_string(),
        },
    }
}

fn client() -> ApiClient {
    ApiClient::new(BridgeAddress::V4([192, 168, 1, 20]))
}

fn parsed(text: &str) -> Json {
    match Json::parse(text.as_bytes()) {
        Ok(json) => json,
        Err(error) => panic!("no JSON: {:?}", error),
    }
}

#[test]
fn update_without_fields_is_the_empty_object() {
    assert_eq!(StateChangeRequest::new(None, None, None).to_body(), "{}");
}

#[test]
fn update_of_power_alone_has_no_other_member() {
    assert_eq!(StateChangeRequest::new(None, None, Some(false)).to_body(), "{\"on\":false}");
    assert_eq!(StateChangeRequest::new(None, None, Some(true)).to_body(), "{\"on\":true}");
}

#[test]
fn update_sends_the_present_fields_in_order() {
    assert_eq!(StateChangeRequest::new(Some(128), None, None).to_body(), "{\"bri\":128}");
    assert_eq!(StateChangeRequest::new(None, Some(370), None).to_body(), "{\"ct\":370}");
    assert_eq!(
        StateChangeRequest::new(Some(0), Some(65_535), Some(true)).to_body(),
        "{\"bri\":0,\"ct\":65535,\"on\":true}"
    );
    assert_eq!(
        StateChangeRequest::new(Some(255), None, Some(false)).to_body(),
        "{\"bri\":255,\"on\":false}"
    );
}

#[test]
fn update_reads_back_as_the_fields_that_were_set() {
    let body = StateChangeRequest::new(Some(26), Some(500), None).to_body();
    match Json::parse(body.as_bytes()) {
        Ok(object) => {
            assert!(matches!(&object, Json::Object(members) if members.len() == 2));
            assert_eq!(object.integer("bri", 0, 255), Some(26));
            assert_eq!(object.integer("ct", 0, 65_535), Some(500));
            assert_eq!(object.get("on"), None);
        }
        other => panic!("no JSON: {:?}", other),
    }
}

#[test]
fn reply_of_another_length_is_a_json_error() {
    assert_eq!(ApiClient::read_new_user(b"[]"), Err(LuciaError::JsonError));
    assert_eq!(
        ApiClient::read_new_user(
            br#"[{"success":{"username":"abc"}},{"success":{"username":"def"}}]"#
        ),
        Err(LuciaError::JsonError)
    );
    assert_eq!(
        ApiClient::read_new_user(br#"{"success":{"username":"abc"}}"#),
        Err(LuciaError::JsonError)
    );
}

#[test]
fn reply_with_link_button_error_is_read() {
    let reply =
        ApiClient::read_new_user(br#"[{"error":{"type":101,"description":"link button not pressed"}}]"#);
    assert_eq!(
        reply,
        Ok(NewUserResult::Error(ApiError {
            type_: LINK_BUTTON_NOT_PRESSED,
            address: None,
            description: Some("link button not pressed".to_string()),
        }))
    );
}

#[test]
fn reply_with_full_error_record_is_read() {
    let reply = ApiClient::read_new_user(
        br#"[{"error":{"type":101,"address":"","description":"link button not pressed"}}]"#,
    );
    assert_eq!(
        reply,
        Ok(NewUserResult::Error(ApiError {
            type_: 101,
            address: Some(String::new()),
            description: Some("link button not pressed".to_string()),
        }))
    );
}

#[test]
fn reply_with_credential_is_read() {
    assert_eq!(
        ApiClient::read_new_user(br#"[{"success":{"username":"abc","clientkey":"xyz"}}]"#),
        Ok(NewUserResult::Success(NewUserResponse {
            username: "abc".to_string(),
            client_key: Some("xyz".to_string()),
        }))
    );
    assert_eq!(
        ApiClient::read_new_user(br#"[{"success":{"username":"abc"}}]"#),
        Ok(NewUserResult::Success(NewUserResponse { username: "abc".to_string(), client_key: None }))
    );
}

#[test]
fn reply_with_both_or_neither_record_is_rejected() {
    assert_eq!(
        ApiClient::read_new_user(
            br#"[{"success":{"username":"abc"},"error":{"type":101}}]"#
        ),
        Err(LuciaError::JsonError)
    );
    assert_eq!(ApiClient::read_new_user(b"[{}]"), Err(LuciaError::JsonError));
    assert_eq!(ApiClient::read_new_user(br#"[{"other":1}]"#), Err(LuciaError::JsonError));
    assert_eq!(ApiClient::read_new_user(b"[null]"), Err(LuciaError::JsonError));
}

#[test]
fn reply_with_misshapen_record_is_rejected() {
    assert_eq!(
        ApiClient::read_new_user(br#"[{"error":{"type":"101"}}]"#),
        Err(LuciaError::JsonError)
    );
    assert_eq!(
        ApiClient::read_new_user(br#"[{"error":{"type":101.5}}]"#),
        Err(LuciaError::JsonError)
    );
    assert_eq!(
        ApiClient::read_new_user(br#"[{"error":{"type":2147483648}}]"#),
        Err(LuciaError::JsonError)
    );
    assert_eq!(
        ApiClient::read_new_user(br#"[{"error":{"description":"no type"}}]"#),
        Err(LuciaError::JsonError)
    );
    assert_eq!(
        ApiClient::read_new_user(br#"[{"success":{"clientkey":"xyz"}}]"#),
        Err(LuciaError::JsonError)
    );
    assert_eq!(
        ApiClient::read_new_user(br#"[{"success":{"username":7}}]"#),
        Err(LuciaError::JsonError)
    );
    assert_eq!(ApiClient::read_new_user(b"[{\"success\":"), Err(LuciaError::JsonError));
}

#[test]
fn error_type_takes_the_whole_range_of_its_integer() {
    assert_eq!(
        ApiClient::read_new_user(br#"[{"error":{"type":-2147483648}}]"#),
        Ok(NewUserResult::Error(ApiError { type_: i32::MIN, address: None, description: None }))
    );
    assert_eq!(
        ApiClient::read_new_user(br#"[{"error":{"type":2147483647,"address":null}}]"#),
        Ok(NewUserResult::Error(ApiError { type_: i32::MAX, address: None, description: None }))
    );
}

#[test]
fn light_is_read_with_all_its_records() {
    assert_eq!(LightResponseItem::from_json(&parsed(LIGHT)), Some(desk()));
    assert_eq!(LightResponseItem::from_json(&parsed(PLAIN_LIGHT)), Some(hall()));
}

#[test]
fn light_without_a_required_member_is_rejected() {
    let without_name = LIGHT.replace("\"name\": \"Desk\",", "");
    assert_eq!(LightResponseItem::from_json(&parsed(&without_name)), None);
    let without_reachable = LIGHT.replace(",\n              \"reachable\": true", "");
    assert_ne!(without_reachable, LIGHT);
    assert_eq!(LightResponseItem::from_json(&parsed(&without_reachable)), None);
    assert_eq!(LightResponseItem::from_json(&parsed("[]")), None);
}

#[test]
fn light_with_a_member_of_another_type_is_rejected() {
    let wide = LIGHT.replace("\"bri\": 254", "\"bri\": 256");
    assert_eq!(LightResponseItem::from_json(&parsed(&wide)), None);
    let negative = LIGHT.replace("\"bri\": 254", "\"bri\": -1");
    assert_eq!(LightResponseItem::from_json(&parsed(&negative)), None);
    let fraction = LIGHT.replace("\"ct\": 366", "\"ct\": 366.5");
    assert_eq!(LightResponseItem::from_json(&parsed(&fraction)), None);
    let chromaticity = LIGHT.replace("[0.4573, 0.41]", "[0.4573, \"0.41\"]");
    assert_eq!(LightResponseItem::from_json(&parsed(&chromaticity)), None);
    let gamut = LIGHT.replace("[0.17, 0.7]", "0.17");
    assert_eq!(LightResponseItem::from_json(&parsed(&gamut)), None);
    let switch = LIGHT.replace("\"on\": true", "\"on\": 1");
    assert_eq!(LightResponseItem::from_json(&parsed(&switch)), None);
}

#[test]
fn lights_come_in_ascending_order_of_their_ids() {
    let body = format!("{{\"2\": {}, \"10\": {}, \"1\": {}}}", LIGHT, PLAIN_LIGHT, LIGHT);
    let expected = vec![
        ("1".to_string(), desk()),
        ("10".to_string(), hall()),
        ("2".to_string(), desk()),
    ];
    assert_eq!(ApiClient::read_lights(body.as_bytes()), Ok(expected.clone()));
    assert_eq!(ApiClient::read_lights(body.as_bytes()), Ok(expected.clone()));
    assert_eq!(lights_from_json(parsed(&body)), Some(expected));
}

#[test]
fn lights_given_out_of_order_are_put_in_order() {
    let members = vec![
        ("2".to_string(), parsed(LIGHT)),
        ("10".to_string(), parsed(LIGHT)),
        ("2".to_string(), parsed(PLAIN_LIGHT)),
        ("1".to_string(), parsed(LIGHT)),
    ];
    assert_eq!(
        lights_from_json(Json::Object(members)),
        Some(vec![
            ("1".to_string(), desk()),
            ("10".to_string(), desk()),
            ("2".to_string(), hall()),
        ])
    );
    let shadowed = vec![("1".to_string(), Json::Null), ("1".to_string(), parsed(LIGHT))];
    assert_eq!(lights_from_json(Json::Object(shadowed)), Some(vec![("1".to_string(), desk())]));
    let broken = vec![("1".to_string(), parsed(LIGHT)), ("1".to_string(), Json::Null)];
    assert_eq!(lights_from_json(Json::Object(broken)), None);
    assert_eq!(lights_from_json(Json::Array(vec![])), None);
}

#[test]
fn lights_of_an_empty_bridge() {
    assert_eq!(ApiClient::read_lights(b"{}"), Ok(vec![]));
}

#[test]
fn lights_with_one_misshapen_light_are_rejected() {
    let body = format!("{{\"1\": {}, \"2\": {{\"name\": \"broken\"}}}}", LIGHT);
    assert_eq!(ApiClient::read_lights(body.as_bytes()), Err(LuciaError::JsonError));
    assert_eq!(ApiClient::read_lights(b"[]"), Err(LuciaError::JsonError));
    assert_eq!(ApiClient::read_lights(b"{\"1\": "), Err(LuciaError::JsonError));
    assert_eq!(
        ApiClient::read_lights(br#"[{"error":{"type":1,"description":"unauthorized user"}}]"#),
        Err(LuciaError::JsonError)
    );
}

#[test]
fn groups_come_in_ascending_order_of_their_ids() {
    let body = r#"{
        "3": {"name": "Kitchen", "type": "Room", "lights": ["4", "1"],
              "action": {"on": true, "bri": 200, "ct": 300, "alert": "none", "colormode": "ct",
                         "reachable": true}},
        "1": {"name": "Attic", "type": "LightGroup", "lights": [],
              "action": {"on": false, "bri": 1, "hue": 5, "sat": 6, "effect": "none", "xy": [0, 1],
                         "ct": 153, "alert": "select", "colormode": "hs", "reachable": false}}
    }"#;
    let kitchen = GroupResponseItem {
        name: "Kitchen".to_string(),
        type_: "Room".to_string(),
        lights: vec!["4".to_string(), "1".to_string()],
        action: LightState {
            on: true,
            bri: 200,
            hue: None,
            sat: None,
            effect: None,
            ct: 300,
            alert: "none".to_string(),
            color_mode: "ct".to_string(),
            reachable: true,
        },
    };
    let attic = GroupResponseItem {
        name: "Attic".to_string(),
        type_: "LightGroup".to_string(),
        lights: vec![],
        action: LightState {
            on: false,
            bri: 1,
            hue: Some(5),
            sat: Some(6),
            effect: Some("none".to_string()),
            ct: 153,
            alert: "select".to_string(),
            color_mode: "hs".to_string(),
            reachable: false,
        },
    };
    let expected = vec![("1".to_string(), attic), ("3".to_string(), kitchen)];
    assert_eq!(ApiClient::read_groups(body.as_bytes()), Ok(expected.clone()));
    assert_eq!(ApiClient::read_groups(body.as_bytes()), Ok(expected.clone()));
    assert_eq!(groups_from_json(parsed(body)), Some(expected));
}

#[test]
fn groups_with_lights_that_are_no_strings_are_rejected() {
    let body = r#"{"1": {"name": "Attic", "type": "LightGroup", "lights": [1],
                   "action": {"on": false, "bri": 1, "ct": 153, "alert": "select",
                              "colormode": "hs", "reachable": false}}}"#;
    assert_eq!(ApiClient::read_groups(body.as_bytes()), Err(LuciaError::JsonError));
    assert_eq!(ApiClient::read_groups(b"null"), Err(LuciaError::JsonError));
}

#[test]
fn client_reaches_the_bridge_over_plain_http() {
    assert_eq!(client().base_url(), "http://192.168.1.20");
    assert_eq!(ApiClient::new(BridgeAddress::V4([0, 0, 0, 0])).base_url(), "http://0.0.0.0");
    assert_eq!(
        ApiClient::new(BridgeAddress::V4([255, 255, 255, 255])).base_url(),
        "http://255.255.255.255"
    );
    assert_eq!(
        ApiClient::new(BridgeAddress::V6([0xfe80, 0, 0, 0, 0x217, 0x88ff, 0xfe0a, 1])).base_url(),
        "http://[fe80:0:0:0:217:88ff:fe0a:1]"
    );
}

#[test]
fn new_user_is_asked_for_with_a_client_key() {
    assert_eq!(
        client().post_new_user("lucia#windy"),
        Request {
            method: Method::Post,
            url: "http://192.168.1.20/api".to_string(),
            body: Some("{\"devicetype\":\"lucia#windy\",\"generateclientkey\":true}".to_string()),
        }
    );
}

#[test]
fn device_label_is_written_as_a_json_string() {
    let request = client().post_new_user("a \"quoted\" name\\\n\u{1}é");
    assert_eq!(
        request.body,
        Some(
            "{\"devicetype\":\"a \\\"quoted\\\" name\\\\\\n\\u0001é\",\"generateclientkey\":true}"
                .to_string()
        )
    );
    let body = request.body.unwrap_or_default();
    match Json::parse(body.as_bytes()) {
        Ok(object) => {
            assert_eq!(object.text("devicetype"), Some("a \"quoted\" name\\\n\u{1}é".to_string()));
            assert_eq!(object.flag("generateclientkey"), Some(true));
            assert!(matches!(&object, Json::Object(members) if members.len() == 2));
        }
        other => panic!("no JSON: {:?}", other),
    }
}

#[test]
fn lists_are_asked_for_under_the_user_name() {
    assert_eq!(
        client().get_lights("abc"),
        Request { method: Method::Get, url: "http://192.168.1.20/api/abc/lights".to_string(), body: None }
    );
    assert_eq!(
        client().get_groups("abc"),
        Request { method: Method::Get, url: "http://192.168.1.20/api/abc/groups".to_string(), body: None }
    );
}

#[test]
fn state_of_a_light_is_put_under_its_id() {
    assert_eq!(
        client().set_light_state("abc", "7", Some(26), Some(370), Some(true)),
        Request {
            method: Method::Put,
            url: "http://192.168.1.20/api/abc/lights/7/state".to_string(),
            body: Some("{\"bri\":26,\"ct\":370,\"on\":true}".to_string()),
        }
    );
    assert_eq!(
        client().set_light_state("abc", "7", None, None, None),
        Request {
            method: Method::Put,
            url: "http://192.168.1.20/api/abc/lights/7/state".to_string(),
            body: Some("{}".to_string()),
        }
    );
}

#[test]
fn action_of_a_group_is_put_under_its_id() {
    assert_eq!(
        client().set_group_state("abc", "2", None, None, Some(false)),
        Request {
            method: Method::Put,
            url: "http://192.168.1.20/api/abc/groups/2/action".to_string(),
            body: Some("{\"on\":false}".to_string()),
        }
    );
}
