use amble::cli::{
    cli_request, is_relay_hub, light_line, line_of_light, parse_line, read_prompt, stop_request,
    CliCommand, Prompt,
};
use amble::config::{known_keys, Config, LightConfig};
use amble::controller::MeshController;
use amble::daemon::{execute_command_json, Command, Request};

fn owned(list: &[&str]) -> Vec<String> {
    list.iter().map(|s| s.to_string()).collect()
}

fn parts(r: Request) -> (String, Option<String>, Vec<String>) {
    (r.cmd, r.light, r.args)
}

fn config() -> Config {
    Config {
        net_key: "00".repeat(16),
        app_key: "11".repeat(16),
        relay_hub: "a4:01".into(),
        lights: vec![
            LightConfig { key: "key".into(), name: "K".into(), mac: "A4:01".into(), address: 2 },
            LightConfig { key: "back".into(), name: "B".into(), mac: "A4:02".into(), address: 3 },
        ],
        http: None,
        mqtt: None,
    }
}

#[test]
fn lines_are_parsed() {
    let known = known_keys(&config().lights);
    assert_eq!(known, vec!["key", "back"]);
    let of = |words: &[&str]| parts(parse_line(&owned(words), &known));
    assert_eq!(of(&["on"]), ("on".into(), None, vec![]));
    assert_eq!(of(&["on", "key"]), ("on".into(), Some("key".into()), vec![]));
    assert_eq!(of(&["on", "all"]), ("on".into(), Some("all".into()), vec![]));
    assert_eq!(of(&["on", "fill"]), ("on".into(), None, owned(&["fill"])));
    assert_eq!(
        of(&["cct", "80", "5600", "back"]),
        ("cct".into(), Some("back".into()), owned(&["80", "5600"]))
    );
    assert_eq!(of(&["key"]), ("".into(), Some("key".into()), vec![]));
    assert_eq!(of(&["key", "on"]), ("key".into(), None, owned(&["on"])));
    assert_eq!(of(&[]), ("".into(), None, vec![]));
}

#[test]
fn the_prompt_is_read() {
    let known = known_keys(&config().lights);
    assert!(matches!(read_prompt(" \n", &known), Prompt::Blank));
    assert!(matches!(read_prompt("exit\n", &known), Prompt::Leave));
    assert!(matches!(read_prompt(" quit ", &known), Prompt::Leave));
    assert!(matches!(read_prompt("help", &known), Prompt::Help));
    match read_prompt("  brightness  50 key\n", &known) {
        Prompt::Run(r) => {
            assert_eq!(parts(r), ("brightness".into(), Some("key".into()), owned(&["50"])));
        }
        _ => panic!("this is a request"),
    }
    assert!(matches!(read_prompt("help me", &known), Prompt::Run(_)));
}

#[test]
fn commands_become_requests() {
    let of = |c: CliCommand| parts(cli_request(c, Some("key".into())));
    let expected = |cmd: &str, args: &[&str]| (cmd.to_string(), Some("key".to_string()), owned(args));
    assert_eq!(of(CliCommand::On), expected("on", &[]));
    assert_eq!(of(CliCommand::Off), expected("off", &[]));
    assert_eq!(of(CliCommand::Brightness { value: 7 }), expected("brightness", &["7"]));
    assert_eq!(
        of(CliCommand::Cct { brightness: 80, kelvin: 5600, gm: -5 }),
        expected("cct", &["80", "5600", "-5"])
    );
    assert_eq!(
        of(CliCommand::Hsi { brightness: 1, hue: 2, saturation: 3 }),
        expected("hsi", &["1", "2", "3"])
    );
    assert_eq!(
        of(CliCommand::Rgb { r: 255, g: 0, b: 10, brightness: 100 }),
        expected("rgb", &["255", "0", "10", "100"])
    );
    assert_eq!(of(CliCommand::Status), expected("status", &[]));
    assert_eq!(of(CliCommand::Battery), expected("battery", &[]));
    assert_eq!(of(CliCommand::Query { cmd_type: "0a".into() }), expected("query", &["0a"]));
    assert_eq!(parts(stop_request()), ("stop".into(), None, vec![]));
}

#[test]
fn values_arrive() {
    let c = match MeshController::with_random(config(), 0) {
        Ok(c) => c,
        Err(_) => panic!("keys are valid"),
    };
    let of = |command: CliCommand| {
        execute_command_json(&c, &cli_request(command, Some("back".into())))
            .map_err(|e| e.message())
    };
    assert_eq!(
        of(CliCommand::Cct { brightness: 255, kelvin: 65535, gm: -128 }),
        Ok(Command::Cct { address: 3, percent: 255, kelvin: 65535, gm: -128 })
    );
    assert_eq!(
        of(CliCommand::Brightness { value: 0 }),
        Ok(Command::Brightness { address: 3, percent: 0 })
    );
    assert_eq!(of(CliCommand::Off), Ok(Command::OnOff { address: 3, on: false }));
    assert_eq!(of(CliCommand::Status), Err("unknown command: status".to_string()));
    assert_eq!(
        of(CliCommand::Rgb { r: 1, g: 2, b: 255, brightness: 4 }),
        Ok(Command::Rgb { address: 3, percent: 4, r: 1, g: 2, b: 255 })
    );
}

#[test]
fn the_hub_is_marked() {
    let c = config();
    assert!(is_relay_hub(&c, &c.lights[0]));
    assert!(!is_relay_hub(&c, &c.lights[1]));
}

#[test]
fn lights_are_shown() {
    let c = config();
    assert_eq!(light_line(&c, &c.lights[0]), "  key      K  (addr 2, MAC A4:01)  ← relay hub");
    assert_eq!(light_line(&c, &c.lights[1]), "  back     B  (addr 3, MAC A4:02)");
    let long = LightConfig {
        key: "longer than".into(),
        name: "L".into(),
        mac: "m".into(),
        address: 65535,
    };
    assert_eq!(
        line_of_light(&long, false),
        format!("  {:<8} {}  (addr {}, MAC {})", "longer than", "L", 65535, "m")
    );
}
