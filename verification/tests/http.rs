use amble::config::{http_config, HttpConfig};
use amble::daemon::Request;
use amble::http::{
    everywhere_request, http_to_command, listen_address, request_of_body, route, Method, Route,
};
use amble::json::read_object;

fn seen(method: Method, url: &str, key: Option<&str>, auth: &str) -> (u16, String) {
    let r = route(method, url, &key.map(String::from), auth);
    let what = match &r {
        Route::Preflight => "preflight".to_string(),
        Route::Unauthorized => "unauthorized".to_string(),
        Route::List => "list".to_string(),
        Route::Everywhere { cmd } => format!("all {cmd}"),
        Route::OneLight { light, cmd } => format!("{light} {cmd}"),
        Route::NotFound => "nothing".to_string(),
    };
    (r.status(), what)
}

fn parts(r: Request) -> (String, Option<String>, Vec<String>) {
    (r.cmd, r.light, r.args)
}

fn command(light: &str, cmd: &str, body: &str) -> (String, Option<String>, Vec<String>) {
    parts(request_of_body(light, cmd, body.as_bytes()))
}

fn owned(list: &[&str]) -> Vec<String> {
    list.iter().map(|s| s.to_string()).collect()
}

#[test]
fn requests_are_routed() {
    assert_eq!(seen(Method::Get, "/", None, ""), (200, "list".into()));
    assert_eq!(seen(Method::Get, "/lights", None, ""), (200, "list".into()));
    assert_eq!(seen(Method::Post, "/lights", None, ""), (404, "nothing".into()));
    assert_eq!(seen(Method::Post, "/lights/on", None, ""), (200, "all on".into()));
    assert_eq!(seen(Method::Post, "/lights/off", None, ""), (200, "all off".into()));
    assert_eq!(seen(Method::Get, "/lights/on", None, ""), (404, "nothing".into()));
    assert_eq!(seen(Method::Post, "/lights/key/cct", None, ""), (200, "key cct".into()));
    assert_eq!(seen(Method::Post, "/lights//x", None, ""), (200, " x".into()));
    assert_eq!(seen(Method::Post, "/lights/key", None, ""), (404, "nothing".into()));
    assert_eq!(seen(Method::Post, "/lights/a/b/c", None, ""), (404, "nothing".into()));
    assert_eq!(seen(Method::Other, "/lights/a/b", None, ""), (404, "nothing".into()));
    assert_eq!(seen(Method::Options, "/x", Some("k"), ""), (204, "preflight".into()));
}

#[test]
fn the_key_is_asked_for() {
    assert_eq!(seen(Method::Get, "/", Some("k"), ""), (401, "unauthorized".into()));
    assert_eq!(seen(Method::Get, "/", Some("k"), "k"), (401, "unauthorized".into()));
    assert_eq!(seen(Method::Get, "/", Some("k"), "Bearer x"), (401, "unauthorized".into()));
    assert_eq!(seen(Method::Get, "/", Some("k"), "Bearer k"), (200, "list".into()));
    assert_eq!(seen(Method::Post, "/lights/on", Some("k"), "Bearer"), (401, "unauthorized".into()));
}

#[test]
fn fixed_bodies() {
    assert_eq!(Route::Preflight.fixed_body(), Some("".to_string()));
    assert_eq!(
        Route::Unauthorized.fixed_body(),
        Some("{\"error\":\"unauthorized\",\"ok\":false}".to_string())
    );
    assert_eq!(
        Route::NotFound.fixed_body(),
        Some("{\"error\":\"not found\",\"ok\":false}".to_string())
    );
    assert_eq!(Route::List.fixed_body(), None);
}

#[test]
fn bodies_become_arguments() {
    assert_eq!(
        command("key", "brightness", "{\"value\": 50}"),
        ("brightness".into(), Some("key".into()), owned(&["50"]))
    );
    assert_eq!(
        command("all", "brightness", "{\"value\": 50.5}"),
        ("brightness".into(), None, owned(&["50.5"]))
    );
    assert_eq!(
        command("key", "cct", "{\"kelvin\": 3200.0, \"gm\": -4}"),
        ("cct".into(), Some("key".into()), owned(&["80", "3200", "-4"]))
    );
    assert_eq!(
        command("key", "hsl", "{\"hue\": 240, \"brightness\": \"9\"}"),
        ("hsl".into(), Some("key".into()), owned(&["80", "240", "100"]))
    );
    assert_eq!(command("key", "on", "{}"), ("on".into(), Some("key".into()), vec![]));
}

#[test]
fn empty_bodies_have_defaults() {
    assert_eq!(command("k", "brightness", ""), ("brightness".into(), Some("k".into()), owned(&["100"])));
    assert_eq!(
        command("k", "cct", ""),
        ("cct".into(), Some("k".into()), owned(&["80", "5600", "0"]))
    );
    assert_eq!(
        command("k", "hsi", "null"),
        ("hsi".into(), Some("k".into()), owned(&["80", "0", "100"]))
    );
}

#[test]
fn commands_for_all_lights() {
    assert_eq!(parts(everywhere_request("off".into())), ("off".into(), None, vec![]));
}

#[test]
fn the_server_listens() {
    assert_eq!(listen_address(&http_config(None)), "0.0.0.0:2708");
    let http = HttpConfig { port: 80, host: "::1".into(), api_key: None };
    assert_eq!(listen_address(&http_config(Some(http))), "::1:80");
}

#[test]
fn a_body_that_is_no_json_is_empty() {
    let members = read_object(b"{\"value\": 7}").unwrap();
    assert_eq!(parts(http_to_command("k", "brightness", &members)).2, owned(&["7"]));
    for body in ["{\"value\": 7", "seven", "[7]", "7"] {
        assert_eq!(command("k", "brightness", body).2, owned(&["100"]));
    }
    assert_eq!(parts(request_of_body("k", "brightness", b"\xff")).2, owned(&["100"]));
}
