use learn_server::ffi_util::{buffer_contents, MAX_SIZE};
use learn_server::handlers::{
    error_reply, get_user_reply, invalid_json_reply, login_reply, root, signup_reply, user_list_reply,
};
use learn_server::routing::{route, Route};

#[test]
fn root_page_text() {
    assert_eq!(root(), "New Apps 9 Learn Server API");
}

#[test]
fn replies_of_the_handlers() {
    assert_eq!(invalid_json_reply(), "invalid json");
    assert_eq!(error_reply("disk full"), "error: disk full");
    assert_eq!(signup_reply(Ok("tok".to_string())), "tok");
    assert_eq!(signup_reply(Err("UNIQUE constraint failed".to_string())), "error: UNIQUE constraint failed");
    assert_eq!(login_reply(Ok(Some("tok".to_string()))), "tok");
    assert_eq!(login_reply(Ok(None)), "invalid credentials");
    assert_eq!(login_reply(Err("e".to_string())), "error: e");
    assert_eq!(get_user_reply(Ok(Some("{\"id\":1}".to_string()))), "{\"id\":1}");
    assert_eq!(get_user_reply(Ok(None)), "not found");
    assert_eq!(get_user_reply(Err("e".to_string())), "error: e");
}

#[test]
fn user_list_reply_is_json() {
    assert_eq!(user_list_reply(Ok(vec![])), "[]");
    assert_eq!(user_list_reply(Ok(vec!["ann".to_string(), "b\"o".to_string()])), "[\"ann\",\"b\\\"o\"]");
    assert_eq!(user_list_reply(Err("locked".to_string())), "error: locked");
}

#[test]
fn routes_of_requests() {
    assert_eq!(route("OPTIONS", "/signup"), Route::Preflight);
    assert_eq!(route("OPTIONS", "/login"), Route::Preflight);
    assert_eq!(route("OPTIONS", "/get_user"), Route::Preflight);
    assert_eq!(route("OPTIONS", "/"), Route::NotFound);
    assert_eq!(route("GET", "/"), Route::Root);
    assert_eq!(route("GET", "/user-list"), Route::UserList);
    assert_eq!(route("POST", "/signup"), Route::Signup);
    assert_eq!(route("POST", "/login"), Route::Login);
    assert_eq!(route("POST", "/get_user"), Route::GetUser);
    assert_eq!(route("GET", "/signup"), Route::NotFound);
    assert_eq!(route("POST", "/"), Route::NotFound);
    assert_eq!(route("DELETE", "/login"), Route::NotFound);
    assert_eq!(route("get", "/"), Route::NotFound);
}

#[test]
fn buffer_contents_of_short_reply() {
    assert_eq!(buffer_contents("ok"), vec![b'o', b'k', 0]);
    assert_eq!(buffer_contents(""), vec![0]);
    assert_eq!(buffer_contents("é"), vec![0xc3, 0xa9, 0]);
}

#[test]
fn buffer_contents_of_long_reply_is_cut() {
    let long = "x".repeat(5000);
    let bytes = buffer_contents(&long);
    assert_eq!(MAX_SIZE, 4095);
    assert_eq!(bytes.len(), 4096);
    assert!(bytes[..4095].iter().all(|b| *b == b'x'));
    assert_eq!(bytes[4095], 0);
    let exact = "y".repeat(4095);
    assert_eq!(buffer_contents(&exact).len(), 4096);
}

#[test]
fn user_list_reply_escapes_like_serde_json() {
    let names = vec![
        "tab\there".to_string(),
        "back\\slash".to_string(),
        "bell\u{7}".to_string(),
        "del\u{7f}é".to_string(),
        "nl\ncr\rff\u{c}bs\u{8}/".to_string(),
    ];
    assert_eq!(
        user_list_reply(Ok(names)),
        "[\"tab\\there\",\"back\\\\slash\",\"bell\\u0007\",\"del\u{7f}é\",\"nl\\ncr\\rff\\fbs\\b/\"]"
    );
    assert_eq!(user_list_reply(Ok(vec!["\u{1f}".to_string()])), "[\"\\u001f\"]");
}
