use sel::greeter::Greeter;
use sel::messages::{
    pubkey_storage_script, respond, response_script, script_action, server_uri, str_equal,
    Request, ScriptAction,
};
use sel::text::decimal_string;

#[test]
fn decimal_string_values() {
    assert_eq!(decimal_string(0), "0");
    assert_eq!(decimal_string(9), "9");
    assert_eq!(decimal_string(10), "10");
    assert_eq!(decimal_string(1234567890), "1234567890");
    assert_eq!(decimal_string(u64::MAX), u64::MAX.to_string());
}

#[test]
fn greeter_counts_calls() {
    let mut greeter = Greeter { count: 0 };
    assert_eq!(greeter.say_hello("Brilliant"), "Hello Brilliant! I have been called: 1");
    assert_eq!(greeter.say_hello("Brilliant"), "Hello Brilliant! I have been called: 2");
    assert_eq!(greeter.count, 2);
    let mut late = Greeter { count: 41 };
    assert_eq!(late.say_hello(""), "Hello ! I have been called: 42");
}

#[test]
fn script_action_only_genkey() {
    assert_eq!(script_action("genkey"), ScriptAction::GenerateKey);
    assert_eq!(script_action("genke"), ScriptAction::Ignore);
    assert_eq!(script_action("genkey "), ScriptAction::Ignore);
    assert_eq!(script_action(""), ScriptAction::Ignore);
}

#[test]
fn str_equal_values() {
    assert!(str_equal("", ""));
    assert!(str_equal("é漢", "é漢"));
    assert!(!str_equal("ab", "ac"));
    assert!(!str_equal("ab", "abc"));
}

#[test]
fn pubkey_storage_script_text() {
    assert_eq!(
        pubkey_storage_script("MIGf+/="),
        "window.localStorage.setItem('pubkey', `MIGf+/=`);"
    );
}

#[test]
fn server_uri_text() {
    assert_eq!(server_uri(3000), "http://127.3.6.9:3000");
    assert_eq!(server_uri(0), "http://127.3.6.9:0");
    assert_eq!(server_uri(65535), "http://127.3.6.9:65535");
}

#[test]
fn respond_keeps_id() {
    let res = respond(&Request { id: 7 });
    assert_eq!(res.id, 7);
    assert_eq!(res.data, "pong");
}

#[test]
fn response_script_text() {
    assert_eq!(
        response_script("{\"id\":7,\"data\":\"pong\"}"),
        "window._myPostMessageResponse({\"id\":7,\"data\":\"pong\"});"
    );
}
