//! Round trips and exact forms of the persisted documents.

use livenac::codec::{encode_config, encode_stored_token, parse_config, parse_stored_token};
use livenac::config::{Config, Profile};
use livenac::token::StoredToken;

#[test]
fn stored_token_exact_form() {
    let t = StoredToken {
        access_token: String::from("abc"),
        refresh_token: None,
    };
    assert_eq!(
        encode_stored_token(&t),
        "{\"access_token\":\"abc\",\"refresh_token\":null}"
    );
}

#[test]
fn stored_token_round_trip_plain() {
    let t = StoredToken {
        access_token: String::from("abc123"),
        refresh_token: Some(String::from("r456")),
    };
    assert_eq!(parse_stored_token(&encode_stored_token(&t)), Some(t));
}

#[test]
fn stored_token_round_trip_with_escapes() {
    let t = StoredToken {
        access_token: String::from("we\"ird\\tok\"en"),
        refresh_token: Some(String::from("\\\\\"\"")),
    };
    assert_eq!(parse_stored_token(&encode_stored_token(&t)), Some(t));
}

#[test]
fn stored_token_rejects_malformed_documents() {
    assert_eq!(parse_stored_token(""), None);
    assert_eq!(parse_stored_token("{\"access_token\":\"abc\"}"), None);
    assert_eq!(
        parse_stored_token("{\"access_token\":\"abc\",\"refresh_token\":null} "),
        None
    );
    assert_eq!(
        parse_stored_token("{\"access_token\":\"abc,\"refresh_token\":null}"),
        None
    );
}

#[test]
fn default_config_exact_form() {
    let c = Config::default();
    assert_eq!(
        encode_config(&c),
        "{\"client_id\":null,\"client_secret\":null,\"enable_cjk_font\":false,\
         \"font_size\":14,\"emote_size\":14,\"show_timestamps\":false,\
         \"collapse_emotes\":false,\"profiles\":[],\"active_profile_name\":null}"
    );
}

#[test]
fn default_config_round_trip() {
    let c = Config::default();
    assert_eq!(parse_config(&encode_config(&c)), Some(c));
}

#[test]
fn full_config_round_trip_keeps_profile_order() {
    let c = Config {
        client_id: Some(String::from("abc")),
        client_secret: Some(String::from("s3cr3t")),
        enable_cjk_font: true,
        font_size: 18,
        emote_size: 4294967295,
        show_timestamps: true,
        collapse_emotes: false,
        profiles: vec![
            Profile { name: String::from("zeta"), twitch_user_id: Some(String::from("9")) },
            Profile { name: String::from("alpha"), twitch_user_id: None },
            Profile { name: String::from("mid\"dle"), twitch_user_id: Some(String::from("3")) },
        ],
        active_profile_name: Some(String::from("alpha")),
    };
    let parsed = parse_config(&encode_config(&c)).expect("the encoding parses");
    assert_eq!(parsed, c);
    assert_eq!(parsed.profiles[0].name, "zeta");
    assert_eq!(parsed.profiles[1].name, "alpha");
    assert_eq!(parsed.profiles[2].name, "mid\"dle");
}

#[test]
fn config_rejects_malformed_documents() {
    assert_eq!(parse_config(""), None);
    assert_eq!(parse_config("{}"), None);
    assert_eq!(parse_config("{\"client_id\":null}"), None);
    let good = encode_config(&Config::default());
    assert_eq!(parse_config(&format!("{} ", good)), None);
    assert_eq!(parse_config(&good[..good.len() - 1]), None);
}

#[test]
fn config_number_bounds() {
    // A font size beyond u32 is not a well-formed document.
    let doc = "{\"client_id\":null,\"client_secret\":null,\"enable_cjk_font\":false,\
               \"font_size\":4294967296,\"emote_size\":14,\"show_timestamps\":false,\
               \"collapse_emotes\":false,\"profiles\":[],\"active_profile_name\":null}";
    assert_eq!(parse_config(doc), None);
}
