use amble::config::{Config, LightConfig};
use amble::controller::MeshController;
use amble::daemon::{
    execute_command_json, invalid_line, invalid_reply, pid_path, read_line, read_reply, reply_line,
    reply_text, request_line, request_text, resolve_targets, socket_path, Command, Line, Reply,
    Request, Step, HELP_TEXT, SENT_REPLY,
};
use amble::json::read_object;
use amble::telink::telink_rgbww_payload;

fn session() -> MeshController {
    let light = |key: &str, address: u16| LightConfig {
        key: key.into(),
        name: key.to_uppercase(),
        mac: "A4".into(),
        address,
    };
    match MeshController::with_random(
        Config {
            net_key: "00".repeat(16),
            app_key: "11".repeat(16),
            relay_hub: "A4".into(),
            lights: vec![light("key", 2), light("back", 5), light("key", 9)],
            http: None,
            mqtt: None,
        },
        0,
    ) {
        Ok(c) => c,
        Err(_) => panic!("keys are valid"),
    }
}

fn request(cmd: &str, light: Option<&str>, args: &[&str]) -> Request {
    Request {
        cmd: cmd.into(),
        light: light.map(String::from),
        args: args.iter().map(|a| a.to_string()).collect(),
    }
}

fn run(cmd: &str, light: Option<&str>, args: &[&str]) -> Result<Command, String> {
    execute_command_json(&session(), &request(cmd, light, args)).map_err(|e| e.message())
}

#[test]
fn paths_follow_the_temporary_directory() {
    assert_eq!(socket_path(None), "/tmpamaran-light.sock");
    assert_eq!(socket_path(Some("/var/t/".into())), "/var/t/amaran-light.sock");
    assert_eq!(pid_path(None), "/tmpamaran-light.pid");
    assert_eq!(pid_path(Some("/var/t/".into())), "/var/t/amaran-light.pid");
}

#[test]
fn lights_are_resolved() {
    let c = session();
    assert_eq!(resolve_targets(&c, None).ok(), Some(0xffff));
    assert_eq!(resolve_targets(&c, Some("all")).ok(), Some(0xffff));
    assert_eq!(resolve_targets(&c, Some("key")).ok(), Some(2));
    assert_eq!(resolve_targets(&c, Some("back")).ok(), Some(5));
    match resolve_targets(&c, Some("fill")) {
        Ok(_) => panic!("there is no such light"),
        Err(e) => {
            assert_eq!(e.message(), "unknown light: \"fill\". known: key, back, key");
        }
    }
}

#[test]
fn commands_are_read() {
    assert_eq!(run("on", Some("back"), &[]), Ok(Command::OnOff { address: 5, on: true }));
    assert_eq!(run("off", None, &["x"]), Ok(Command::OnOff { address: 0xffff, on: false }));
    assert_eq!(
        run("brightness", Some("key"), &["50"]),
        Ok(Command::Brightness { address: 2, percent: 50 })
    );
    assert_eq!(
        run("cct", None, &["80", "5600", "-3"]),
        Ok(Command::Cct { address: 0xffff, percent: 80, kelvin: 5600, gm: -3 })
    );
    assert_eq!(
        run("cct", None, &["80", "5600", "x"]),
        Ok(Command::Cct { address: 0xffff, percent: 80, kelvin: 5600, gm: 0 })
    );
    for name in ["hsi", "hsl"] {
        assert_eq!(
            run(name, None, &["80", "240", "100"]),
            Ok(Command::Hsi { address: 0xffff, percent: 80, hue: 240, saturation: 100 })
        );
    }
    assert_eq!(
        run("rgb", None, &["255", "0", "7", "50"]),
        Ok(Command::Rgb { address: 0xffff, percent: 50, r: 255, g: 0, b: 7 })
    );
    for args in [vec!["1", "2", "3"], vec!["1", "2", "3", "x"]] {
        assert_eq!(
            run("rgb", Some("key"), &args),
            Ok(Command::Rgb { address: 2, percent: 100, r: 1, g: 2, b: 3 })
        );
    }
    assert_eq!(run("ping", None, &[]), Ok(Command::Ping));
    assert_eq!(run("stop", None, &[]), Ok(Command::Stop));
    assert_eq!(run("lights", None, &[]), Ok(Command::Lights));
    assert_eq!(run("help", None, &[]), Ok(Command::Help));
}

#[test]
fn wrong_commands_are_refused() {
    let says = |r: Result<Command, String>, text: &str| assert_eq!(r, Err(text.to_string()));
    says(run("brightness", None, &[]), "brightness requires a number 0-100");
    says(run("brightness", None, &["256"]), "brightness requires a number 0-100");
    says(run("cct", None, &[]), "cct requires brightness");
    says(run("cct", None, &["a", "b"]), "cct requires brightness");
    says(run("cct", None, &["80"]), "cct requires kelvin");
    says(run("cct", None, &["80", "65536"]), "cct requires kelvin");
    says(run("hsi", None, &[]), "hsi requires brightness");
    says(run("hsi", None, &["80"]), "hsi requires hue");
    says(run("hsl", None, &["80", "1"]), "hsi requires saturation");
    says(run("rgb", None, &[]), "rgb requires red");
    says(run("rgb", None, &["256", "0", "0"]), "rgb requires red");
    says(run("rgb", None, &["255"]), "rgb requires green");
    says(run("rgb", None, &["255", "0", "x"]), "rgb requires blue");
    says(run("dance", None, &[]), "unknown command: dance");
    says(run("", None, &[]), "unknown command: ");
    says(run("dance", Some("fill"), &[]), "unknown light: \"fill\". known: key, back, key");
}

#[test]
fn commands_start() {
    let c = session();
    let job = |cmd: Command| match cmd.start(&c) {
        Step::Send(job) => (job.dst, job.params),
        _ => panic!("nothing is sent"),
    };
    assert_eq!(
        job(Command::OnOff { address: 5, on: true }),
        (5, vec![0x8d, 0, 0, 0, 0, 0, 0, 0, 1, 0x8c])
    );
    assert_eq!(
        job(Command::Brightness { address: 5, percent: 50 }),
        (5, vec![0x0c, 0, 0, 0, 0, 0, 0, 0, 0x7d, 0x8f])
    );
    assert_eq!(
        job(Command::Cct { address: 5, percent: 80, kelvin: 5600, gm: 0 }),
        (5, vec![0xae, 0, 0, 0, 0, 0x40, 0x01, 0x23, 0xc8, 0x82])
    );
    assert_eq!(
        job(Command::Hsi { address: 5, percent: 75, hue: 240, saturation: 100 }),
        (5, vec![0xf3, 0, 0, 0, 0, 0, 0x19, 0x9e, 0xbb, 0x81])
    );
    assert_eq!(
        job(Command::Rgb { address: 0xffff, percent: 100, r: 255, g: 0, b: 0 }),
        (0xffff, telink_rgbww_payload(1000, 0, 0, 0, 0, 1000).to_vec())
    );
    assert_eq!(
        job(Command::Rgb { address: 5, percent: 33, r: 1, g: 128, b: 254 }),
        (5, telink_rgbww_payload(3, 501, 996, 0, 0, 330).to_vec())
    );
    assert!(matches!(Command::Ping.start(&c), Step::Reply(t) if t == "pong"));
    assert!(matches!(Command::Help.start(&c), Step::Reply(t) if t == HELP_TEXT));
    assert!(matches!(Command::Stop.start(&c), Step::Stop));
    assert!(matches!(Command::Lights.start(&c), Step::ListLights));
}

#[test]
fn documented_shifts_are_told_apart() {
    let c = session();
    let sent = |gm: &str| match execute_command_json(&c, &request("cct", None, &["80", "5600", gm])) {
        Ok(command) => match command.start(&c) {
            Step::Send(job) => job.params,
            _ => panic!("nothing is sent"),
        },
        Err(e) => panic!("{}", e.message()),
    };
    assert_ne!(sent("10"), sent("50"));
    assert_ne!(sent("-10"), sent("-50"));
    assert_eq!(sent("127"), sent("50"));
}

fn line(text: &str) -> (String, Option<String>, Vec<String>) {
    match read_line(text) {
        Line::Run(r) => (r.cmd, r.light, r.args),
        Line::Blank => panic!("blank"),
        Line::Invalid => panic!("invalid"),
    }
}

#[test]
fn lines_are_read() {
    assert!(matches!(read_line(" \n"), Line::Blank));
    assert!(matches!(read_line("on\n"), Line::Invalid));
    assert!(matches!(read_line("{\"cmd\":"), Line::Invalid));
    assert_eq!(
        line(" {\"cmd\": \"cct\", \"args\": [\"80\", 5600, \"0\"], \"light\": \"key\"}\n"),
        ("cct".into(), Some("key".into()), vec!["80".into(), "0".into()])
    );
    assert_eq!(line("{\"cmd\":\"on\",\"light\":null}"), ("on".into(), None, vec![]));
    assert_eq!(line("{\"cmd\":1,\"args\":\"x\"}"), ("".into(), None, vec![]));
    assert_eq!(line("[1]"), ("".into(), None, vec![]));
}

#[test]
fn requests_read_back() {
    for (cmd, light, args) in [
        ("on", None, vec![]),
        ("cct", Some("key"), vec!["80", "5600", "-3"]),
        ("we \"ird\"\\", Some("l\n\u{1f4a1}"), vec!["", "\u{0}"]),
    ] {
        let text = request_text(request(cmd, light, &args));
        assert_ne!(text, cmd);
        assert_eq!(
            line(&text),
            (
                cmd.to_string(),
                light.map(String::from),
                args.iter().map(|a| a.to_string()).collect()
            )
        );
    }
    assert_eq!(
        request_text(request("on", None, &[])),
        "{\"args\":[],\"cmd\":\"on\",\"light\":null}"
    );
}

#[test]
fn replies_are_written_and_read() {
    assert_eq!(reply_text(Ok("pong".into())), "{\"ok\":true,\"result\":\"pong\"}");
    assert_eq!(reply_text(Err("no".into())), "{\"error\":\"no\",\"ok\":false}");
    assert_eq!(invalid_reply(), "{\"error\":\"invalid json\"}");
    assert!(matches!(read_reply(&reply_text(Ok("ok".into()))), Some(Reply::Silent)));
    assert!(matches!(read_reply(&reply_text(Ok("pong".into()))), Some(Reply::Says(t)) if t == "pong"));
    assert!(matches!(
        read_reply(&reply_text(Err("no".into()))),
        Some(Reply::Failed(t)) if t == "\"no\""
    ));
    assert!(matches!(read_reply(&invalid_reply()), Some(Reply::Failed(t)) if t == "\"invalid json\""));
    assert!(matches!(read_reply("{\"result\": 1}\n"), Some(Reply::Says(t)) if t == "1"));
    assert!(matches!(read_reply("{}"), Some(Reply::Silent)));
    assert!(read_reply("").is_none());
}

#[test]
fn objects_are_read() {
    let m = read_object(b"{\"a\": 50, \"b\": [1.5, \"x\"], \"a\": -2}").unwrap();
    assert_eq!(m.len(), 2);
    assert_eq!(m[0].key, "a");
    assert_eq!(m[0].number, Some("-2".to_string()));
    assert_eq!(m[0].shown, "-2");
    let list = m[1].list.as_ref().unwrap();
    assert_eq!(list[0].number, Some("1.5".to_string()));
    assert_eq!(list[1].text, Some("x".to_string()));
    assert!(read_object(b"\xff").is_none());
}

#[test]
fn lines_read_back() {
    for (cmd, light, args) in [
        ("rgb", None, vec!["255", "0", "0", "100"]),
        (" ", Some(" key\n"), vec!["\n", " }"]),
    ] {
        let text = request_line(request(cmd, light, &args));
        assert!(text.ends_with("}\n"));
        assert_eq!(text.matches('\n').count(), 1);
        assert_eq!(
            line(&text),
            (
                cmd.to_string(),
                light.map(String::from),
                args.iter().map(|a| a.to_string()).collect()
            )
        );
    }
    assert!(matches!(read_reply(&reply_line(Ok(SENT_REPLY.into()))), Some(Reply::Silent)));
    assert!(matches!(read_reply(&reply_line(Ok(" x ".into()))), Some(Reply::Says(t)) if t == " x "));
    assert!(matches!(read_reply(&reply_line(Err("no".into()))), Some(Reply::Failed(t)) if t == "\"no\""));
    assert_eq!(reply_line(Err("no".into())), "{\"error\":\"no\",\"ok\":false}\n");
    assert!(matches!(read_reply(&invalid_line()), Some(Reply::Failed(_))));
}

#[test]
fn a_documented_colour_is_sent() {
    let text = request_line(request("rgb", None, &["255", "0", "0", "100"]));
    let req = match read_line(&text) {
        Line::Run(req) => req,
        _ => panic!("this is a request"),
    };
    let c = session();
    let command = match execute_command_json(&c, &req) {
        Ok(command) => command,
        Err(e) => panic!("{}", e.message()),
    };
    match command.start(&c) {
        Step::Send(job) => {
            assert_eq!((job.dst, job.opcode, job.retries), (0xffff, 0x26, 3));
            assert_eq!(job.params.len(), 10);
            assert_eq!(job.params[9], 0x84);
        }
        _ => panic!("nothing is sent"),
    }
}
