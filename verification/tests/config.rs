use lucia::common::LuciaError;
use lucia::config::{find_config_path, gen_app_name, Config, APP_NAME, FILENAME};
use lucia::json::Json;

fn stored() -> Config {
    Config {
        app_name: "lucia#windy".to_string(),
        user_name: Some("abc".to_string()),
        client_key: None,
        bridge_ip: Some("192.168.1.20".to_string()),
    }
}

#[test]
fn configuration_lives_below_the_home_directory() {
    assert_eq!(find_config_path("/home/windy"), "/home/windy/lucia.json");
    assert_eq!(find_config_path("/home/windy/"), "/home/windy/lucia.json");
    assert_eq!(find_config_path("/"), "/lucia.json");
    assert_eq!(find_config_path(""), "lucia.json");
    assert_eq!(find_config_path("relative"), "relative/lucia.json");
    assert_eq!(find_config_path("/home/zoé"), "/home/zoé/lucia.json");
    assert_eq!(FILENAME, "lucia.json");
}

#[test]
fn application_name_carries_the_user() {
    assert_eq!(gen_app_name(Some("windy")), "lucia#windy");
    assert_eq!(gen_app_name(Some("")), "lucia#");
    assert_eq!(gen_app_name(None), "lucia#unknown");
    assert_eq!(APP_NAME, "lucia");
}

#[test]
fn first_run_has_a_name_and_nothing_else() {
    let expected = Config {
        app_name: "lucia#windy".to_string(),
        user_name: None,
        client_key: None,
        bridge_ip: None,
    };
    assert_eq!(Config::fresh(Some("windy")), expected);
    assert_eq!(Config::load(None, Some("windy")), Ok(expected));
    assert_eq!(Config::load(None, None).map(|config| config.app_name), Ok("lucia#unknown".to_string()));
}

#[test]
fn stored_configuration_is_read() {
    let contents =
        br#"{"app_name":"lucia#windy","user_name":"abc","client_key":null,"bridge_ip":"192.168.1.20"}"#;
    assert_eq!(Config::load(Some(contents), Some("other")), Ok(stored()));
    assert_eq!(
        Config::load(Some(br#"{"app_name":"lucia#x"}"#), None),
        Ok(Config { app_name: "lucia#x".to_string(), user_name: None, client_key: None, bridge_ip: None })
    );
}

#[test]
fn misshapen_configuration_is_a_json_error() {
    assert_eq!(Config::load(Some(b""), None), Err(LuciaError::JsonError));
    assert_eq!(Config::load(Some(b"{}"), None), Err(LuciaError::JsonError));
    assert_eq!(Config::load(Some(b"[]"), None), Err(LuciaError::JsonError));
    assert_eq!(Config::load(Some(br#"{"app_name":1}"#), None), Err(LuciaError::JsonError));
    assert_eq!(
        Config::load(Some(br#"{"app_name":"a","user_name":5}"#), None),
        Err(LuciaError::JsonError)
    );
}

#[test]
fn configuration_is_written_with_all_its_members() {
    assert_eq!(
        stored().persist(),
        "{\"app_name\":\"lucia#windy\",\"user_name\":\"abc\",\"client_key\":null,\"bridge_ip\":\"192.168.1.20\"}"
    );
    assert_eq!(
        Config::fresh(None).persist(),
        "{\"app_name\":\"lucia#unknown\",\"user_name\":null,\"client_key\":null,\"bridge_ip\":null}"
    );
}

#[test]
fn configuration_comes_back_from_what_was_written() {
    let awkward = Config {
        app_name: "lucia#\"w\\indy\"\n".to_string(),
        user_name: Some("tab\there".to_string()),
        client_key: Some("zoé \u{7f} \u{1f}".to_string()),
        bridge_ip: None,
    };
    for config in [stored(), awkward, Config::fresh(None)] {
        let contents = config.persist();
        assert_eq!(Config::load(Some(contents.as_bytes()), None), Ok(config.clone()));
        assert_eq!(
            Json::parse(contents.as_bytes()).ok().and_then(|json| Config::from_json(&json)),
            Some(config)
        );
    }
}

#[test]
fn missing_credential_and_address_are_reported() {
    let fresh = Config::fresh(None);
    assert_eq!(fresh.require_user_name(), Err(LuciaError::MissingConfiguration));
    assert_eq!(fresh.require_bridge_ip(), Err(LuciaError::MissingConfiguration));
    assert_eq!(stored().require_user_name(), Ok(&"abc".to_string()));
    assert_eq!(stored().require_bridge_ip(), Ok(&"192.168.1.20".to_string()));
}
