//! The HTTP interface: which request is answered how, and the commands that bodies stand for.

use crate::config::{opt_text, HttpConfig};
use crate::daemon::{
    command_at, law_argument_commands, reply_fields, reply_text, Command, CommandErrorView, Request, RequestView,
};
use crate::json::{
    json_members, json_object, member_views, number_at, number_member, read_object, Member,
    MemberView,
};
use crate::text::{
    decimal, decimal_text, digits_value, join_three, join_two, law_signed_reads_back,
    law_split_first, law_split_whole, law_unsigned_reads_back, same_text, signed_text,
    signed_value, split, split_on, strip_prefix, texts, unsigned_value,
};
use vstd::prelude::*;

verus! {

/// The method of a request.
#[derive(Debug, Clone, Copy, PartialEq, Eq)]
pub enum Method {
    Get,
    Post,
    Options,
    Other,
}

/// How a request is answered.
pub enum Route {
    /// With nothing, for a browser that asks what is allowed.
    Preflight,
    /// Not at all: the key is wrong.
    Unauthorized,
    /// With the lights.
    List,
    /// With what a command for all lights comes to.
    Everywhere { cmd: String },
    /// With what a command for one light comes to, whose arguments are in the body.
    OneLight { light: String, cmd: String },
    /// There is nothing there.
    NotFound,
}

/// How a request is answered, as contracts speak of it.
pub enum RouteView {
    Preflight,
    Unauthorized,
    List,
    Everywhere { cmd: Seq<char> },
    OneLight { light: Seq<char>, cmd: Seq<char> },
    NotFound,
}

impl View for Route {
    type V = RouteView;

    open spec fn view(&self) -> RouteView {
        match *self {
            Route::Preflight => RouteView::Preflight,
            Route::Unauthorized => RouteView::Unauthorized,
            Route::List => RouteView::List,
            Route::Everywhere { cmd } => RouteView::Everywhere { cmd: cmd@ },
            Route::OneLight { light, cmd } => RouteView::OneLight { light: light@, cmd: cmd@ },
            Route::NotFound => RouteView::NotFound,
        }
    }
}

/// What is answered below `/lights/`.
pub open spec fn light_route(method: Method, rest: Seq<char>) -> RouteView {
    let parts = split_on(rest, '/');
    if method != Method::Post {
        RouteView::NotFound
    } else if rest == "on"@ || rest == "off"@ {
        RouteView::Everywhere { cmd: rest }
    } else if parts.len() == 2 {
        RouteView::OneLight { light: parts[0], cmd: parts[1] }
    } else {
        RouteView::NotFound
    }
}

/// How a request is answered: what is allowed is told to everyone, everything else only to who
/// shows the key, where there is one.
pub open spec fn route_of(
    method: Method,
    url: Seq<char>,
    api_key: Option<Seq<char>>,
    auth: Seq<char>,
) -> RouteView {
    if method == Method::Options {
        RouteView::Preflight
    } else if api_key is Some && auth != "Bearer "@ + api_key->0 {
        RouteView::Unauthorized
    } else if method == Method::Get && (url == "/"@ || url == "/lights"@) {
        RouteView::List
    } else if "/lights/"@.is_prefix_of(url) {
        light_route(method, url.skip("/lights/"@.len() as int))
    } else {
        RouteView::NotFound
    }
}

fn below_lights(method: Method, rest: &str) -> (r: Route)
    ensures
        r@ == light_route(method, rest@),
{
    if !matches!(method, Method::Post) {
        return Route::NotFound;
    }
    if same_text(rest, "on") || same_text(rest, "off") {
        return Route::Everywhere { cmd: rest.to_owned() };
    }
    let mut parts = split(rest, '/');
    let ghost all = texts(parts@);
    if parts.len() == 2 {
        let cmd = parts.remove(1);
        assert(all[1] == cmd@);
        let light = parts.remove(0);
        assert(all[0] == light@);
        Route::OneLight { light, cmd }
    } else {
        Route::NotFound
    }
}

/// Finds out how a request is answered. `auth` is the authorization header, or empty.
pub fn route(method: Method, url: &str, api_key: &Option<String>, auth: &str) -> (r: Route)
    ensures
        r@ == route_of(method, url@, opt_text(*api_key), auth@),
{
    if matches!(method, Method::Options) {
        return Route::Preflight;
    }
    if let Some(key) = api_key {
        if !same_text(auth, join_two("Bearer ", key.as_str()).as_str()) {
            return Route::Unauthorized;
        }
    }
    if matches!(method, Method::Get) && (same_text(url, "/") || same_text(url, "/lights")) {
        return Route::List;
    }
    match strip_prefix(url, "/lights/") {
        Some(rest) => {
            assert(url@.skip("/lights/"@.len() as int) =~= rest@);
            below_lights(method, rest.as_str())
        },
        None => Route::NotFound,
    }
}

impl Route {
    /// The status code of the answer.
    pub fn status(&self) -> (r: u16)
        ensures
            r == match *self {
                Route::Preflight => 204u16,
                Route::Unauthorized => 401,
                Route::NotFound => 404,
                _ => 200,
            },
    {
        match self {
            Route::Preflight => 204,
            Route::Unauthorized => 401,
            Route::NotFound => 404,
            _ => 200,
        }
    }

    /// The body of an answer that depends on nothing else.
    pub fn fixed_body(&self) -> (r: Option<String>)
        ensures
            opt_text(r) == match *self {
                Route::Preflight => Some(""@),
                Route::Unauthorized => Some(json_object(reply_fields(Err("unauthorized"@)))),
                Route::NotFound => Some(json_object(reply_fields(Err("not found"@)))),
                _ => None,
            },
    {
        match self {
            Route::Preflight => Some("".to_owned()),
            Route::Unauthorized => Some(reply_text(Err("unauthorized".to_owned()))),
            Route::NotFound => Some(reply_text(Err("not found".to_owned()))),
            _ => None,
        }
    }
}

/// The address that the server listens on.
pub fn listen_address(http: &HttpConfig) -> (r: String)
    ensures
        r@ == http.host@ + ":"@ + decimal_text(http.port as nat),
{
    join_three(http.host.as_str(), ":", decimal(http.port as u64).as_str())
}

/// The text of a number in the body, or a default.
pub open spec fn number_or(
    body: Seq<MemberView>,
    key: Seq<char>,
    default: Seq<char>,
) -> Seq<char> {
    match number_at(body, key) {
        Some(n) => n,
        None => default,
    }
}

/// The arguments that a body stands for.
pub open spec fn body_args(cmd: Seq<char>, body: Seq<MemberView>) -> Seq<Seq<char>> {
    if cmd == "brightness"@ {
        seq![number_or(body, "value"@, "100"@)]
    } else if cmd == "cct"@ {
        seq![
            number_or(body, "brightness"@, "80"@),
            number_or(body, "kelvin"@, "5600"@),
            number_or(body, "gm"@, "0"@),
        ]
    } else if cmd == "hsi"@ || cmd == "hsl"@ {
        seq![
            number_or(body, "brightness"@, "80"@),
            number_or(body, "hue"@, "0"@),
            number_or(body, "saturation"@, "100"@),
        ]
    } else {
        Seq::empty()
    }
}

/// The request that a command for a light with a body stands for.
pub open spec fn http_request(light: Seq<char>, cmd: Seq<char>, body: Seq<MemberView>) -> RequestView {
    RequestView {
        cmd,
        light: if light == "all"@ {
            None
        } else {
            Some(light)
        },
        args: body_args(cmd, body),
    }
}

fn number_member_or(body: &Vec<Member>, key: &str, default: &str) -> (r: String)
    ensures
        r@ == number_or(member_views(body@), key@, default@),
{
    match number_member(body, key) {
        Some(n) => n,
        None => default.to_owned(),
    }
}

/// The request that a command for a light with a body stands for.
pub fn http_to_command(light_key: &str, cmd: &str, body: &Vec<Member>) -> (r: Request)
    ensures
        r@ == http_request(light_key@, cmd@, member_views(body@)),
{
    let light = if same_text(light_key, "all") {
        None
    } else {
        Some(light_key.to_owned())
    };
    let mut args: Vec<String> = Vec::new();
    if same_text(cmd, "brightness") {
        args.push(number_member_or(body, "value", "100"));
    } else if same_text(cmd, "cct") {
        args.push(number_member_or(body, "brightness", "80"));
        args.push(number_member_or(body, "kelvin", "5600"));
        args.push(number_member_or(body, "gm", "0"));
    } else if same_text(cmd, "hsi") || same_text(cmd, "hsl") {
        args.push(number_member_or(body, "brightness", "80"));
        args.push(number_member_or(body, "hue", "0"));
        args.push(number_member_or(body, "saturation", "100"));
    }
    assert(texts(args@) =~= body_args(cmd@, member_views(body@)));
    Request { cmd: cmd.to_owned(), light, args }
}

/// The members of a body: none where it is no JSON.
pub open spec fn body_members(body: Seq<u8>) -> Seq<MemberView> {
    match json_members(body) {
        Some(members) => members,
        None => Seq::empty(),
    }
}

/// The request that a command for a light stands for, given the body as it was received.
pub fn request_of_body(light_key: &str, cmd: &str, body: &[u8]) -> (r: Request)
    ensures
        r@ == http_request(light_key@, cmd@, body_members(body@)),
{
    match read_object(body) {
        Some(members) => http_to_command(light_key, cmd, &members),
        None => {
            let nothing: Vec<Member> = Vec::new();
            assert(member_views(nothing@) =~= Seq::<MemberView>::empty());
            http_to_command(light_key, cmd, &nothing)
        },
    }
}

/// The request of a command for all lights.
pub fn everywhere_request(cmd: String) -> (r: Request)
    ensures
        r@ == (RequestView { cmd: cmd@, light: None, args: Seq::empty() }),
{
    let args: Vec<String> = Vec::new();
    assert(texts(args@) =~= Seq::<Seq<char>>::empty());
    Request { cmd, light: None, args }
}

/// Without the right key nothing is answered but what is allowed: neither the lights are listed
/// nor is any command carried out.
pub proof fn law_key_is_needed(method: Method, url: Seq<char>, key: Seq<char>, auth: Seq<char>)
    requires
        auth != "Bearer "@ + key,
    ensures
        route_of(method, url, Some(key), auth) == if method == Method::Options {
            RouteView::Preflight
        } else {
            RouteView::Unauthorized
        },
{
}

/// Commands are carried out on POST alone.
pub proof fn law_commands_are_posted(
    method: Method,
    url: Seq<char>,
    api_key: Option<Seq<char>>,
    auth: Seq<char>,
)
    requires
        method != Method::Post,
    ensures
        !(route_of(method, url, api_key, auth) is Everywhere),
        !(route_of(method, url, api_key, auth) is OneLight),
{
}

/// With an empty body, brightness is full, white is 80 percent at 5600 kelvin without a shift,
/// and a colour is 80 percent of a saturated red.
pub proof fn law_body_defaults(address: u16)
    ensures
        command_at(address, "brightness"@, body_args("brightness"@, Seq::empty())) == Ok::<
            Command,
            CommandErrorView,
        >(Command::Brightness { address, percent: 100 }),
        command_at(address, "cct"@, body_args("cct"@, Seq::empty())) == Ok::<
            Command,
            CommandErrorView,
        >(Command::Cct { address, percent: 80, kelvin: 5600, gm: 0 }),
        command_at(address, "hsi"@, body_args("hsi"@, Seq::empty())) == Ok::<
            Command,
            CommandErrorView,
        >(Command::Hsi { address, percent: 80, hue: 0, saturation: 100 }),
{
    reveal_strlit("on");
    reveal_strlit("off");
    reveal_strlit("brightness");
    reveal_strlit("cct");
    reveal_strlit("hsi");
    reveal_strlit("hsl");
    reveal_strlit("100");
    reveal_strlit("80");
    reveal_strlit("5600");
    reveal_strlit("0");
    assert("brightness"@.len() == 10 && "cct"@.len() == 3 && "hsi"@.len() == 3);
    assert("on"@.len() == 2 && "off"@.len() == 3);
    assert("cct"@[0] == 'c' && "hsi"@[0] == 'h' && "off"@[0] == 'o');
    lemma_digits_3("100"@);
    lemma_digits_2("80"@);
    lemma_digits_1("0"@);
    assert("5600"@.drop_last() =~= "560"@) by {
        reveal_strlit("560");
    }
    reveal_strlit("560");
    lemma_digits_3("560"@);
    assert(unsigned_value("100"@, 255) == Some(100nat));
    assert(unsigned_value("100"@, 65535) == Some(100nat));
    assert(unsigned_value("80"@, 255) == Some(80nat));
    assert(unsigned_value("5600"@, 65535) == Some(5600nat));
    assert(unsigned_value("0"@, 65535) == Some(0nat));
    assert(unsigned_value("0"@, 127) == Some(0nat));
}

proof fn lemma_digits_1(s: Seq<char>)
    requires
        s.len() == 1,
    ensures
        digits_value(s) == (s[0] as nat - '0' as nat) as nat,
{
    reveal_with_fuel(digits_value, 2);
}

proof fn lemma_digits_2(s: Seq<char>)
    requires
        s.len() == 2,
    ensures
        digits_value(s) == 10 * (s[0] as nat - '0' as nat) as nat + (s[1] as nat - '0' as nat) as nat,
{
    lemma_digits_1(s.drop_last());
}

proof fn lemma_digits_3(s: Seq<char>)
    requires
        s.len() == 3,
    ensures
        digits_value(s) == 10 * (10 * (s[0] as nat - '0' as nat) as nat + (s[1] as nat
            - '0' as nat) as nat) + (s[2] as nat - '0' as nat) as nat,
{
    lemma_digits_2(s.drop_last());
}

/// Whether a request may be answered: there is no key, or it is shown behind the word `Bearer`.
/// Then the lights are listed at two places, and a command is carried out for all lights or, with
/// its light and its name between slashes, for one.
pub proof fn law_routes(
    key: Seq<char>,
    with_key: bool,
    other_auth: Seq<char>,
    light: Seq<char>,
    cmd: Seq<char>,
)
    requires
        !light.contains('/'),
        !cmd.contains('/'),
    ensures
        ({
            let api_key = if with_key {
                Some(key)
            } else {
                None
            };
            let auth = if with_key {
                "Bearer "@ + key
            } else {
                other_auth
            };
            &&& route_of(Method::Get, "/"@, api_key, auth) == RouteView::List
            &&& route_of(Method::Get, "/lights"@, api_key, auth) == RouteView::List
            &&& route_of(Method::Post, "/lights/"@ + "on"@, api_key, auth) == (
            RouteView::Everywhere { cmd: "on"@ })
            &&& route_of(Method::Post, "/lights/"@ + "off"@, api_key, auth) == (
            RouteView::Everywhere { cmd: "off"@ })
            &&& route_of(
                Method::Post,
                "/lights/"@ + (light + seq!['/'] + cmd),
                api_key,
                auth,
            ) == (RouteView::OneLight { light, cmd })
            &&& cmd != "on"@ && cmd != "off"@ ==> route_of(
                Method::Post,
                "/lights/"@ + cmd,
                api_key,
                auth,
            ) == RouteView::NotFound
        }),
{
    let base = "/lights/"@;
    let api_key = if with_key {
        Some(key)
    } else {
        None
    };
    let auth = if with_key {
        "Bearer "@ + key
    } else {
        other_auth
    };
    lemma_below(Method::Post, "on"@, api_key, auth);
    lemma_below(Method::Post, "off"@, api_key, auth);
    let rest = light + seq!['/'] + cmd;
    lemma_below(Method::Post, rest, api_key, auth);
    lemma_below(Method::Post, cmd, api_key, auth);
    law_split_first(light, '/', cmd);
    law_split_whole(cmd, '/');
    assert(split_on(rest, '/') =~= seq![light, cmd]);
    reveal_strlit("on");
    reveal_strlit("off");
    assert(rest[light.len() as int] == '/');
    assert(rest != "on"@) by {
        if rest == "on"@ {
            assert(rest[0] == 'o' && rest[1] == 'n');
        }
    }
    assert(rest != "off"@) by {
        if rest == "off"@ {
            assert(rest[0] == 'o' && rest[1] == 'f' && rest[2] == 'f');
        }
    }
}

/// What is below `/lights/` with the right key.
proof fn lemma_below(method: Method, rest: Seq<char>, api_key: Option<Seq<char>>, auth: Seq<char>)
    requires
        method != Method::Options,
        method != Method::Get,
        api_key is Some ==> auth == "Bearer "@ + api_key->0,
    ensures
        route_of(method, "/lights/"@ + rest, api_key, auth) == light_route(method, rest),
{
    let url = "/lights/"@ + rest;
    assert("/lights/"@.is_prefix_of(url)) by {
        assert(url.take("/lights/"@.len() as int) =~= "/lights/"@);
    }
    assert(url.skip("/lights/"@.len() as int) =~= rest);
}

/// What is nowhere: anything but the two lists and what is below `/lights/`.
pub proof fn law_no_routes(
    method: Method,
    url: Seq<char>,
    api_key: Option<Seq<char>>,
    auth: Seq<char>,
)
    requires
        method != Method::Options,
        api_key is Some ==> auth == "Bearer "@ + api_key->0,
    ensures
        method == Method::Get && url != "/"@ && url != "/lights"@ ==> route_of(
            method,
            url,
            api_key,
            auth,
        ) == RouteView::NotFound,
        method != Method::Get && method != Method::Post ==> route_of(method, url, api_key, auth)
            == RouteView::NotFound,
        method == Method::Post && !"/lights/"@.is_prefix_of(url) ==> route_of(
            method,
            url,
            api_key,
            auth,
        ) == RouteView::NotFound,
        forall|any: Seq<char>| #[trigger]
            route_of(Method::Options, url, api_key, any) == RouteView::Preflight,
{
}

/// The values in a body arrive: those that are there as they are, and for each that is missing
/// its default.
pub proof fn law_body_values(
    address: u16,
    body: Seq<MemberView>,
    value: Option<u8>,
    brightness: Option<u8>,
    kelvin: Option<u16>,
    gm: Option<i8>,
    hue: Option<u16>,
    saturation: Option<u16>,
)
    requires
        number_at(body, "value"@) == (match value {
            Some(n) => Some(decimal_text(n as nat)),
            None => None,
        }),
        number_at(body, "brightness"@) == (match brightness {
            Some(n) => Some(decimal_text(n as nat)),
            None => None,
        }),
        number_at(body, "kelvin"@) == (match kelvin {
            Some(n) => Some(decimal_text(n as nat)),
            None => None,
        }),
        number_at(body, "gm"@) == (match gm {
            Some(n) => Some(signed_text(n as int)),
            None => None,
        }),
        number_at(body, "hue"@) == (match hue {
            Some(n) => Some(decimal_text(n as nat)),
            None => None,
        }),
        number_at(body, "saturation"@) == (match saturation {
            Some(n) => Some(decimal_text(n as nat)),
            None => None,
        }),
    ensures
        command_at(address, "brightness"@, body_args("brightness"@, body)) == Ok::<
            Command,
            CommandErrorView,
        >(
            Command::Brightness {
                address,
                percent: if value is Some {
                    value->0
                } else {
                    100
                },
            },
        ),
        command_at(address, "cct"@, body_args("cct"@, body)) == Ok::<Command, CommandErrorView>(
            Command::Cct {
                address,
                percent: if brightness is Some {
                    brightness->0
                } else {
                    80
                },
                kelvin: if kelvin is Some {
                    kelvin->0
                } else {
                    5600
                },
                gm: if gm is Some {
                    gm->0
                } else {
                    0
                },
            },
        ),
        command_at(address, "hsi"@, body_args("hsi"@, body)) == Ok::<Command, CommandErrorView>(
            Command::Hsi {
                address,
                percent: if brightness is Some {
                    brightness->0
                } else {
                    80
                },
                hue: if hue is Some {
                    hue->0
                } else {
                    0
                },
                saturation: if saturation is Some {
                    saturation->0
                } else {
                    100
                },
            },
        ),
        command_at(address, "hsl"@, body_args("hsl"@, body)) == command_at(
            address,
            "hsi"@,
            body_args("hsi"@, body),
        ),
{
    reveal_strlit("brightness");
    reveal_strlit("cct");
    reveal_strlit("hsi");
    reveal_strlit("hsl");
    assert("brightness"@.len() == 10 && "cct"@.len() == 3 && "hsi"@.len() == 3);
    assert("cct"@[0] == 'c' && "hsi"@[0] == 'h' && "hsl"@[0] == 'h' && "hsl"@.len() == 3);
    law_argument_commands(address, body_args("brightness"@, body));
    law_argument_commands(address, body_args("cct"@, body));
    law_argument_commands(address, body_args("hsi"@, body));
    law_argument_commands(address, body_args("hsl"@, body));
    lemma_default_texts();
    if let Some(n) = value {
        law_unsigned_reads_back(n as nat, 255);
    }
    if let Some(n) = brightness {
        law_unsigned_reads_back(n as nat, 255);
    }
    if let Some(n) = kelvin {
        law_unsigned_reads_back(n as nat, 65535);
    }
    if let Some(n) = gm {
        law_signed_reads_back(n);
    }
    if let Some(n) = hue {
        law_unsigned_reads_back(n as nat, 65535);
    }
    if let Some(n) = saturation {
        law_unsigned_reads_back(n as nat, 65535);
    }
}

/// What the defaults stand for.
proof fn lemma_default_texts()
    ensures
        unsigned_value("100"@, 255) == Some(100nat),
        unsigned_value("100"@, 65535) == Some(100nat),
        unsigned_value("80"@, 255) == Some(80nat),
        unsigned_value("5600"@, 65535) == Some(5600nat),
        unsigned_value("0"@, 65535) == Some(0nat),
        signed_value("0"@) == Some(0int),
{
    reveal_strlit("100");
    reveal_strlit("80");
    reveal_strlit("5600");
    reveal_strlit("560");
    reveal_strlit("0");
    lemma_digits_3("100"@);
    lemma_digits_2("80"@);
    lemma_digits_1("0"@);
    assert("5600"@.drop_last() =~= "560"@);
    lemma_digits_3("560"@);
    assert(unsigned_value("0"@, 127) == Some(0nat));
}

/// A request over HTTP is for the light that is named, or for all of them, and keeps its command;
/// commands without values have no arguments. A body that is no JSON has no members.
pub proof fn law_http_requests(light: Seq<char>, cmd: Seq<char>, body: Seq<MemberView>, raw: Seq<u8>)
    ensures
        http_request("all"@, cmd, body).light is None,
        light != "all"@ ==> http_request(light, cmd, body).light == Some(light),
        http_request(light, cmd, body).cmd == cmd,
        http_request(light, cmd, body).args == body_args(cmd, body),
        cmd != "brightness"@ && cmd != "cct"@ && cmd != "hsi"@ && cmd != "hsl"@ ==> body_args(
            cmd,
            body,
        ) == Seq::<Seq<char>>::empty(),
        json_members(raw) is None ==> body_members(raw) == Seq::<MemberView>::empty(),
        json_members(raw) matches Some(m) ==> body_members(raw) == m,
{
}

/// A path below `/lights/` with more than two parts is nowhere.
pub proof fn law_deep_paths_are_nowhere(
    light: Seq<char>,
    cmd: Seq<char>,
    more: Seq<char>,
    api_key: Option<Seq<char>>,
    auth: Seq<char>,
)
    requires
        !light.contains('/'),
        !cmd.contains('/'),
        api_key is Some ==> auth == "Bearer "@ + api_key->0,
    ensures
        route_of(
            Method::Post,
            "/lights/"@ + (light + seq!['/'] + (cmd + seq!['/'] + more)),
            api_key,
            auth,
        ) == RouteView::NotFound,
{
    let rest = light + seq!['/'] + (cmd + seq!['/'] + more);
    lemma_below(Method::Post, rest, api_key, auth);
    law_split_first(cmd, '/', more);
    law_split_first(light, '/', cmd + seq!['/'] + more);
    reveal_strlit("on");
    reveal_strlit("off");
    assert(rest[light.len() as int] == '/');
    assert(rest != "on"@) by {
        if rest == "on"@ {
            assert(rest[0] == 'o' && rest[1] == 'n');
        }
    }
    assert(rest != "off"@) by {
        if rest == "off"@ {
            assert(rest[0] == 'o' && rest[1] == 'f' && rest[2] == 'f');
        }
    }
}

/// What contracts know of a route is all of it.
pub proof fn law_views_of_routes(route: Route)
    ensures
        route is Preflight <==> route@ is Preflight,
        route is Unauthorized <==> route@ is Unauthorized,
        route is List <==> route@ is List,
        route is NotFound <==> route@ is NotFound,
        route matches Route::Everywhere { cmd } ==> route@ == (RouteView::Everywhere { cmd: cmd@ }),
        route matches Route::OneLight { light, cmd } ==> route@ == (RouteView::OneLight {
            light: light@,
            cmd: cmd@,
        }),
{
}

} // verus!
