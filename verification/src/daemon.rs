//! The daemon: requests, what they ask of the lights, and the replies.

use crate::config::{find_light, known_keys, light_position, light_views, opt_text, LightView};
use crate::controller::{
    law_permille, light_job, permille, to_permille, JobView, MeshController, SendJob, Session,
};
use crate::json::{
    field_views, find_member, holds_fields, in_braces, json_members, json_object,
    lemma_strings_in_texts, list_at, lookup, member_views, read_object, scalar_field, strings_in,
    strings_member, text_at, text_field, text_member, text_value, write_object, Field,
    FieldValueView, Member, MemberView, Scalar, ScalarView,
};
use crate::pdu::ALL_NODES;
use crate::telink::{
    at_most, brightness_fields, cct_fields, cct_steps, command_fields, field, hsi_fields,
    law_brightness_bytes, law_brightness_reads_back, law_cct_reads_back, law_colour_bytes,
    law_command_bytes, law_command_reads_back, law_emitter_bytes, law_first_byte_sums_the_rest,
    law_hsi_reads_back, law_rgbww_reads_back, law_white_bytes, payload, rgbww_fields, shift_value,
    BIT_12, BIT_22, BIT_32, BIT_42, BIT_45, BIT_46, BIT_52, BIT_53, BIT_62, BIT_64, BIT_72,
};
use crate::text::{
    chars_of, join_list, join_two, joined, law_line_trims_to_text, law_trimming, parse_i8,
    parse_u16, parse_u8, same_text, signed_value, texts, trim, trimmed, unsigned_value,
    white_space,
};
use vstd::prelude::*;
use vstd::string::StringExecFns;
use vstd::utf8::encode_utf8;

verus! {

/// The commands that the daemon and the prompt understand.
pub const HELP_TEXT: &'static str = "commands:
  on [light]                  turn light on
  off [light]                 turn light off
  brightness <0-100> [light]  set brightness
  cct <b> <kelvin> [gm] [light]  set CCT (kelvin 2500-10000, GM -50..+50)
  hsi <b> <hue> <sat> [light]    set HSI (hue 0-360, sat 0-100)
  rgb <r> <g> <b> [br] [light]   set RGB (r, g, b 0-255, br 0-100)
  lights                      list configured lights
  help                        show this help
  exit / quit                 leave the REPL

light target (optional, default = all):  use the key from lights.json, e.g. key, back, fill
";

/// What a client is told where a message was sent.
pub const SENT_REPLY: &'static str = "ok";

/// The directory for temporary files, by the environment or by default.
pub open spec fn temp_dir(tmp: Option<Seq<char>>) -> Seq<char> {
    match tmp {
        Some(t) => t,
        None => "/tmp"@,
    }
}

/// The path of the daemon's socket: the directory for temporary files with the name right behind
/// it.
pub fn socket_path(tmp: Option<String>) -> (r: String)
    ensures
        r@ == temp_dir(opt_text(tmp)) + "amaran-light.sock"@,
{
    match tmp {
        Some(t) => join_two(t.as_str(), "amaran-light.sock"),
        None => join_two("/tmp", "amaran-light.sock"),
    }
}

/// The path of the file with the daemon's process identifier.
pub fn pid_path(tmp: Option<String>) -> (r: String)
    ensures
        r@ == temp_dir(opt_text(tmp)) + "amaran-light.pid"@,
{
    match tmp {
        Some(t) => join_two(t.as_str(), "amaran-light.pid"),
        None => join_two("/tmp", "amaran-light.pid"),
    }
}

/// A request: a command, the light it is for, and its arguments.
pub struct Request {
    pub cmd: String,
    pub light: Option<String>,
    pub args: Vec<String>,
}

/// A request as contracts speak of it.
pub struct RequestView {
    pub cmd: Seq<char>,
    pub light: Option<Seq<char>>,
    pub args: Seq<Seq<char>>,
}

impl View for Request {
    type V = RequestView;

    open spec fn view(&self) -> RequestView {
        RequestView {
            cmd: self.cmd@,
            light: opt_text(self.light),
            args: texts(self.args@),
        }
    }
}

/// The request in the members of a JSON object. What is missing or of another kind counts as
/// nothing.
pub open spec fn requested(members: Seq<MemberView>) -> RequestView {
    RequestView {
        cmd: match text_at(members, "cmd"@) {
            Some(t) => t,
            None => ""@,
        },
        light: text_at(members, "light"@),
        args: match list_at(members, "args"@) {
            Some(items) => strings_in(items),
            None => Seq::empty(),
        },
    }
}

/// Reads a request from the members of a JSON object.
pub fn request_of(members: &Vec<Member>) -> (r: Request)
    ensures
        r@ == requested(member_views(members@)),
{
    let cmd = match text_member(members, "cmd") {
        Some(t) => t,
        None => "".to_owned(),
    };
    Request {
        cmd,
        light: text_member(members, "light"),
        args: strings_member(members, "args"),
    }
}

/// The members that a request is written as.
pub open spec fn request_fields(req: RequestView) -> Seq<(Seq<char>, FieldValueView)> {
    seq![
        ("cmd"@, text_value(req.cmd)),
        ("args"@, FieldValueView::One(ScalarView::List(req.args))),
        ("light"@, FieldValueView::One(ScalarView::Text(req.light))),
    ]
}

proof fn lemma_request_keys()
    ensures
        "cmd"@ != "args"@,
        "cmd"@ != "light"@,
        "args"@ != "light"@,
{
    reveal_strlit("cmd");
    reveal_strlit("args");
    reveal_strlit("light");
    assert("cmd"@.len() == 3);
    assert("args"@.len() == 4);
    assert("light"@.len() == 5);
}

/// Writes a request, such that it reads back as the same request.
pub fn request_text(req: Request) -> (r: String)
    ensures
        r@ == json_object(request_fields(req@)),
        json_members(encode_utf8(r@)) matches Some(members) && requested(members) == req@,
        in_braces(r@),
{
    let ghost view = req@;
    let mut fields: Vec<Field> = Vec::new();
    fields.push(text_field("cmd", req.cmd));
    fields.push(scalar_field("args", Scalar::List(req.args)));
    fields.push(scalar_field("light", Scalar::Text(req.light)));
    let ghost written = field_views(fields@);
    proof {
        lemma_request_keys();
        assert(written =~= request_fields(view));
        assert(written[0].0 == "cmd"@ && written[1].0 == "args"@ && written[2].0 == "light"@);
    }
    let r = write_object(&fields);
    proof {
        let members = json_members(encode_utf8(r@))->0;
        assert(holds_fields(Some(members), written));
        assert(lookup(members, written[0].0) is Some);
        assert(lookup(members, written[1].0) is Some);
        assert(lookup(members, written[2].0) is Some);
        lemma_strings_in_texts(view.args);
        assert(requested(members).args =~= view.args);
    }
    r
}

/// An argument that a command needs.
#[derive(Debug, Clone, Copy, PartialEq, Eq)]
pub enum Argument {
    Brightness,
    CctBrightness,
    CctKelvin,
    HsiBrightness,
    HsiHue,
    HsiSaturation,
    RgbRed,
    RgbGreen,
    RgbBlue,
}

/// Why a request is refused.
pub enum CommandError {
    UnknownLight { key: String, known: Vec<String> },
    Missing(Argument),
    UnknownCommand(String),
}

/// Why a request is refused, as contracts speak of it.
pub enum CommandErrorView {
    UnknownLight { key: Seq<char>, known: Seq<Seq<char>> },
    Missing(Argument),
    UnknownCommand(Seq<char>),
}

impl View for CommandError {
    type V = CommandErrorView;

    open spec fn view(&self) -> CommandErrorView {
        match *self {
            CommandError::UnknownLight { key, known } => CommandErrorView::UnknownLight {
                key: key@,
                known: texts(known@),
            },
            CommandError::Missing(a) => CommandErrorView::Missing(a),
            CommandError::UnknownCommand(cmd) => CommandErrorView::UnknownCommand(cmd@),
        }
    }
}

/// What is said where an argument is missing or wrong.
pub open spec fn argument_message(a: Argument) -> Seq<char> {
    match a {
        Argument::Brightness => "brightness requires a number 0-100"@,
        Argument::CctBrightness => "cct requires brightness"@,
        Argument::CctKelvin => "cct requires kelvin"@,
        Argument::HsiBrightness => "hsi requires brightness"@,
        Argument::HsiHue => "hsi requires hue"@,
        Argument::HsiSaturation => "hsi requires saturation"@,
        Argument::RgbRed => "rgb requires red"@,
        Argument::RgbGreen => "rgb requires green"@,
        Argument::RgbBlue => "rgb requires blue"@,
    }
}

/// The words of an error.
pub open spec fn error_message(e: CommandErrorView) -> Seq<char> {
    match e {
        CommandErrorView::UnknownLight { key, known } => "unknown light: \""@ + key
            + "\". known: "@ + joined(known, ", "@),
        CommandErrorView::Missing(a) => argument_message(a),
        CommandErrorView::UnknownCommand(cmd) => "unknown command: "@ + cmd,
    }
}

impl CommandError {
    /// The error in words.
    pub fn message(&self) -> (r: String)
        ensures
            r@ == error_message(self@),
    {
        match self {
            CommandError::UnknownLight { key, known } => {
                let mut r = "unknown light: \"".to_owned();
                r.append(key.as_str());
                r.append("\". known: ");
                r.append(join_list(known, ", ").as_str());
                r
            },
            CommandError::Missing(a) => match a {
                Argument::Brightness => "brightness requires a number 0-100".to_owned(),
                Argument::CctBrightness => "cct requires brightness".to_owned(),
                Argument::CctKelvin => "cct requires kelvin".to_owned(),
                Argument::HsiBrightness => "hsi requires brightness".to_owned(),
                Argument::HsiHue => "hsi requires hue".to_owned(),
                Argument::HsiSaturation => "hsi requires saturation".to_owned(),
                Argument::RgbRed => "rgb requires red".to_owned(),
                Argument::RgbGreen => "rgb requires green".to_owned(),
                Argument::RgbBlue => "rgb requires blue".to_owned(),
            },
            CommandError::UnknownCommand(cmd) => join_two("unknown command: ", cmd.as_str()),
        }
    }
}

/// The address that a request is for: all nodes where it names no light or `all`, or else the
/// address of the first light with the key.
pub open spec fn target_address(lights: Seq<LightView>, light: Option<Seq<char>>) -> Result<
    u16,
    CommandErrorView,
> {
    match light {
        None => Ok(ALL_NODES),
        Some(key) => if key == "all"@ {
            Ok(ALL_NODES)
        } else if light_position(lights, key) < lights.len() {
            Ok(lights[light_position(lights, key)].address)
        } else {
            Err(
                CommandErrorView::UnknownLight {
                    key,
                    known: Seq::new(lights.len(), |i: int| lights[i].key),
                },
            )
        },
    }
}

/// Finds the address that a request is for.
pub fn resolve_targets(ctrl: &MeshController, light_key: Option<&str>) -> (r: Result<
    u16,
    CommandError,
>)
    ensures
        match r {
            Ok(a) => target_address(
                ctrl@.lights,
                match light_key {
                    Some(k) => Some(k@),
                    None => None,
                },
            ) == Ok::<u16, CommandErrorView>(a),
            Err(e) => target_address(
                ctrl@.lights,
                match light_key {
                    Some(k) => Some(k@),
                    None => None,
                },
            ) == Err::<u16, CommandErrorView>(e@),
        },
{
    match light_key {
        None => Ok(ALL_NODES),
        Some(key) => {
            if same_text(key, "all") {
                return Ok(ALL_NODES);
            }
            let lights = ctrl.known_lights();
            assert(ctrl@.lights == light_views(lights@));
            match find_light(lights, key) {
                Some(i) => Ok(lights[i].address),
                None => {
                    let known = known_keys(lights);
                    assert(texts(known@) =~= Seq::new(
                        ctrl@.lights.len(),
                        |i: int| ctrl@.lights[i].key,
                    ));
                    Err(CommandError::UnknownLight { key: key.to_owned(), known })
                },
            }
        },
    }
}

/// What a request asks for.
#[derive(Debug, Clone, Copy, PartialEq, Eq)]
pub enum Command {
    OnOff { address: u16, on: bool },
    Brightness { address: u16, percent: u8 },
    Cct { address: u16, percent: u8, kelvin: u16, gm: i8 },
    Hsi { address: u16, percent: u8, hue: u16, saturation: u16 },
    Rgb { address: u16, percent: u8, r: u8, g: u8, b: u8 },
    Ping,
    Stop,
    Lights,
    Help,
}

/// The unsigned number that the argument at `i` stands for.
pub open spec fn unsigned_arg(args: Seq<Seq<char>>, i: int, max: nat) -> Option<nat> {
    if i < args.len() {
        unsigned_value(args[i], max)
    } else {
        None
    }
}

/// The signed number that the argument at `i` stands for.
pub open spec fn signed_arg(args: Seq<Seq<char>>, i: int) -> Option<int> {
    if i < args.len() {
        signed_value(args[i])
    } else {
        None
    }
}

/// What a request for the address `address` comes to.
pub open spec fn command_at(address: u16, cmd: Seq<char>, args: Seq<Seq<char>>) -> Result<
    Command,
    CommandErrorView,
> {
    if cmd == "on"@ {
        Ok(Command::OnOff { address, on: true })
    } else if cmd == "off"@ {
        Ok(Command::OnOff { address, on: false })
    } else if cmd == "brightness"@ {
        match unsigned_arg(args, 0, 255) {
            Some(b) => Ok(Command::Brightness { address, percent: b as u8 }),
            None => Err(CommandErrorView::Missing(Argument::Brightness)),
        }
    } else if cmd == "cct"@ {
        match (unsigned_arg(args, 0, 255), unsigned_arg(args, 1, 65535)) {
            (Some(b), Some(k)) => Ok(
                Command::Cct {
                    address,
                    percent: b as u8,
                    kelvin: k as u16,
                    gm: match signed_arg(args, 2) {
                        Some(g) => g as i8,
                        None => 0,
                    },
                },
            ),
            (None, _) => Err(CommandErrorView::Missing(Argument::CctBrightness)),
            (Some(_), None) => Err(CommandErrorView::Missing(Argument::CctKelvin)),
        }
    } else if cmd == "hsi"@ || cmd == "hsl"@ {
        match (
            unsigned_arg(args, 0, 255),
            unsigned_arg(args, 1, 65535),
            unsigned_arg(args, 2, 65535),
        ) {
            (Some(b), Some(h), Some(s)) => Ok(
                Command::Hsi {
                    address,
                    percent: b as u8,
                    hue: h as u16,
                    saturation: s as u16,
                },
            ),
            (None, _, _) => Err(CommandErrorView::Missing(Argument::HsiBrightness)),
            (Some(_), None, _) => Err(CommandErrorView::Missing(Argument::HsiHue)),
            (Some(_), Some(_), None) => Err(CommandErrorView::Missing(Argument::HsiSaturation)),
        }
    } else if cmd == "rgb"@ {
        match (
            unsigned_arg(args, 0, 255),
            unsigned_arg(args, 1, 255),
            unsigned_arg(args, 2, 255),
        ) {
            (Some(r), Some(g), Some(b)) => Ok(
                Command::Rgb {
                    address,
                    percent: match unsigned_arg(args, 3, 255) {
                        Some(p) => p as u8,
                        None => 100,
                    },
                    r: r as u8,
                    g: g as u8,
                    b: b as u8,
                },
            ),
            (None, _, _) => Err(CommandErrorView::Missing(Argument::RgbRed)),
            (Some(_), None, _) => Err(CommandErrorView::Missing(Argument::RgbGreen)),
            (Some(_), Some(_), None) => Err(CommandErrorView::Missing(Argument::RgbBlue)),
        }
    } else if cmd == "ping"@ {
        Ok(Command::Ping)
    } else if cmd == "stop"@ {
        Ok(Command::Stop)
    } else if cmd == "lights"@ {
        Ok(Command::Lights)
    } else if cmd == "help"@ {
        Ok(Command::Help)
    } else {
        Err(CommandErrorView::UnknownCommand(cmd))
    }
}

/// What a request comes to. An unknown light is reported before anything else.
pub open spec fn command_of(lights: Seq<LightView>, req: RequestView) -> Result<
    Command,
    CommandErrorView,
> {
    match target_address(lights, req.light) {
        Ok(address) => command_at(address, req.cmd, req.args),
        Err(e) => Err(e),
    }
}

fn arg_u8(args: &Vec<String>, i: usize) -> (r: Option<u8>)
    ensures
        r is Some <==> unsigned_arg(texts(args@), i as int, 255) is Some,
        r matches Some(n) ==> unsigned_arg(texts(args@), i as int, 255) == Some(n as nat),
{
    if i < args.len() {
        parse_u8(args[i].as_str())
    } else {
        None
    }
}

fn arg_u16(args: &Vec<String>, i: usize) -> (r: Option<u16>)
    ensures
        r is Some <==> unsigned_arg(texts(args@), i as int, 65535) is Some,
        r matches Some(n) ==> unsigned_arg(texts(args@), i as int, 65535) == Some(n as nat),
{
    if i < args.len() {
        parse_u16(args[i].as_str())
    } else {
        None
    }
}

fn arg_i8(args: &Vec<String>, i: usize) -> (r: Option<i8>)
    ensures
        r is Some <==> signed_arg(texts(args@), i as int) is Some,
        r matches Some(n) ==> signed_arg(texts(args@), i as int) == Some(n as int),
{
    if i < args.len() {
        parse_i8(args[i].as_str())
    } else {
        None
    }
}

/// The outcome of reading a request, as contracts speak of it.
pub open spec fn outcome_view(r: Result<Command, CommandError>) -> Result<
    Command,
    CommandErrorView,
> {
    match r {
        Ok(c) => Ok(c),
        Err(e) => Err(e@),
    }
}

fn command_for(address: u16, cmd: &str, args: &Vec<String>) -> (r: Result<Command, CommandError>)
    ensures
        outcome_view(r) == command_at(address, cmd@, texts(args@)),
{
    if same_text(cmd, "on") {
        Ok(Command::OnOff { address, on: true })
    } else if same_text(cmd, "off") {
        Ok(Command::OnOff { address, on: false })
    } else if same_text(cmd, "brightness") {
        match arg_u8(args, 0) {
            Some(percent) => Ok(Command::Brightness { address, percent }),
            None => Err(CommandError::Missing(Argument::Brightness)),
        }
    } else if same_text(cmd, "cct") {
        match (arg_u8(args, 0), arg_u16(args, 1)) {
            (Some(percent), Some(kelvin)) => {
                let gm: i8 = match arg_i8(args, 2) {
                    Some(g) => g,
                    None => 0,
                };
                Ok(Command::Cct { address, percent, kelvin, gm })
            },
            (None, _) => Err(CommandError::Missing(Argument::CctBrightness)),
            (Some(_), None) => Err(CommandError::Missing(Argument::CctKelvin)),
        }
    } else if same_text(cmd, "hsi") || same_text(cmd, "hsl") {
        match (arg_u8(args, 0), arg_u16(args, 1), arg_u16(args, 2)) {
            (Some(percent), Some(hue), Some(saturation)) => Ok(
                Command::Hsi { address, percent, hue, saturation },
            ),
            (None, _, _) => Err(CommandError::Missing(Argument::HsiBrightness)),
            (Some(_), None, _) => Err(CommandError::Missing(Argument::HsiHue)),
            (Some(_), Some(_), None) => Err(CommandError::Missing(Argument::HsiSaturation)),
        }
    } else if same_text(cmd, "rgb") {
        match (arg_u8(args, 0), arg_u8(args, 1), arg_u8(args, 2)) {
            (Some(r), Some(g), Some(b)) => {
                let percent: u8 = match arg_u8(args, 3) {
                    Some(p) => p,
                    None => 100,
                };
                Ok(Command::Rgb { address, percent, r, g, b })
            },
            (None, _, _) => Err(CommandError::Missing(Argument::RgbRed)),
            (Some(_), None, _) => Err(CommandError::Missing(Argument::RgbGreen)),
            (Some(_), Some(_), None) => Err(CommandError::Missing(Argument::RgbBlue)),
        }
    } else if same_text(cmd, "ping") {
        Ok(Command::Ping)
    } else if same_text(cmd, "stop") {
        Ok(Command::Stop)
    } else if same_text(cmd, "lights") {
        Ok(Command::Lights)
    } else if same_text(cmd, "help") {
        Ok(Command::Help)
    } else {
        Err(CommandError::UnknownCommand(cmd.to_owned()))
    }
}

/// Finds out what a request asks for.
pub fn execute_command_json(ctrl: &MeshController, req: &Request) -> (r: Result<
    Command,
    CommandError,
>)
    ensures
        outcome_view(r) == command_of(ctrl@.lights, req@),
{
    let light = match &req.light {
        Some(l) => Some(l.as_str()),
        None => None,
    };
    match resolve_targets(ctrl, light) {
        Ok(address) => command_for(address, req.cmd.as_str(), &req.args),
        Err(e) => Err(e),
    }
}

/// How a command is carried out.
pub enum Step {
    /// Send a message, then reply [`SENT_REPLY`].
    Send(SendJob),
    /// Reply at once.
    Reply(String),
    /// Disconnect, remove the socket and the process identifier, and end.
    Stop,
    /// Reply with the lights.
    ListLights,
}

/// How a command is carried out, as contracts speak of it.
pub enum StepView {
    Send(JobView),
    Reply(Seq<char>),
    Stop,
    ListLights,
}

impl View for Step {
    type V = StepView;

    open spec fn view(&self) -> StepView {
        match *self {
            Step::Send(job) => StepView::Send(job@),
            Step::Reply(text) => StepView::Reply(text@),
            Step::Stop => StepView::Stop,
            Step::ListLights => StepView::ListLights,
        }
    }
}

/// The level in thousandths that a colour component of at most 255 stands for.
pub open spec fn level(component: u8) -> u16 {
    (component * 1000 / 255) as u16
}

fn to_level(component: u8) -> (r: u16)
    ensures
        r == level(component),
{
    (component as u32 * 1000 / 255) as u16
}

/// How a command is carried out in a session.
pub open spec fn step_of(session: Session, command: Command) -> StepView {
    match command {
        Command::OnOff { address, on } => StepView::Send(
            light_job(
                session,
                address,
                payload(
                    command_fields(
                        0x8c,
                        if on {
                            1
                        } else {
                            0
                        },
                    ),
                ),
            ),
        ),
        Command::Brightness { address, percent } => StepView::Send(
            light_job(session, address, payload(brightness_fields(permille(percent)))),
        ),
        Command::Cct { address, percent, kelvin, gm } => StepView::Send(
            light_job(session, address, payload(cct_fields(kelvin, permille(percent), gm))),
        ),
        Command::Hsi { address, percent, hue, saturation } => StepView::Send(
            light_job(session, address, payload(hsi_fields(hue, saturation, permille(percent)))),
        ),
        Command::Rgb { address, percent, r, g, b } => StepView::Send(
            light_job(
                session,
                address,
                payload(rgbww_fields(level(r), level(g), level(b), 0, 0, permille(percent))),
            ),
        ),
        Command::Ping => StepView::Reply("pong"@),
        Command::Stop => StepView::Stop,
        Command::Lights => StepView::ListLights,
        Command::Help => StepView::Reply(HELP_TEXT@),
    }
}

impl Command {
    /// Starts a command.
    pub fn start(&self, ctrl: &MeshController) -> (r: Step)
        ensures
            r@ == step_of(ctrl@, *self),
            r matches Step::Send(job) ==> job@.fits(),
    {
        match self {
            Command::OnOff { address, on } => Step::Send(ctrl.set_on_off(*address, *on)),
            Command::Brightness { address, percent } => Step::Send(
                ctrl.set_brightness(*address, *percent),
            ),
            Command::Cct { address, percent, kelvin, gm } => Step::Send(
                ctrl.set_cct(*address, *percent, *kelvin, *gm),
            ),
            Command::Hsi { address, percent, hue, saturation } => Step::Send(
                ctrl.set_hsi(*address, *percent, *hue, *saturation),
            ),
            Command::Rgb { address, percent, r, g, b } => Step::Send(
                ctrl.set_rgbww(
                    *address,
                    to_level(*r),
                    to_level(*g),
                    to_level(*b),
                    0,
                    0,
                    to_permille(*percent),
                ),
            ),
            Command::Ping => Step::Reply("pong".to_owned()),
            Command::Stop => Step::Stop,
            Command::Lights => Step::ListLights,
            Command::Help => Step::Reply(HELP_TEXT.to_owned()),
        }
    }
}

/// What a client has sent in one line.
pub enum Line {
    /// Nothing but white space.
    Blank,
    /// No JSON.
    Invalid,
    /// A request.
    Run(Request),
}

/// What a client has sent in one line, as contracts speak of it.
pub enum LineView {
    Blank,
    Invalid,
    Run(RequestView),
}

impl View for Line {
    type V = LineView;

    open spec fn view(&self) -> LineView {
        match *self {
            Line::Blank => LineView::Blank,
            Line::Invalid => LineView::Invalid,
            Line::Run(req) => LineView::Run(req@),
        }
    }
}

/// What a line means to the daemon.
pub open spec fn line_meaning(line: Seq<char>) -> LineView {
    if trimmed(line).len() == 0 {
        LineView::Blank
    } else {
        match json_members(encode_utf8(trimmed(line))) {
            Some(members) => LineView::Run(requested(members)),
            None => LineView::Invalid,
        }
    }
}

/// Reads one line of a client.
pub fn read_line(line: &str) -> (r: Line)
    ensures
        r@ == line_meaning(line@),
{
    let text = trim(line);
    if chars_of(text.as_str()).len() == 0 {
        return Line::Blank;
    }
    match read_object(text.as_str().as_bytes()) {
        Some(members) => Line::Run(request_of(&members)),
        None => Line::Invalid,
    }
}

/// The line that a client sends for a request. The daemon reads the same request from it.
pub fn request_line(req: Request) -> (r: String)
    ensures
        r@ == json_object(request_fields(req@)).push('\n'),
        line_meaning(r@) == LineView::Run(req@),
{
    let mut r = request_text(req);
    let ghost text = r@;
    r.push('\n');
    proof {
        law_line_trims_to_text(text);
    }
    r
}

/// The characters of a result or of an error.
pub open spec fn text_outcome(outcome: Result<String, String>) -> Result<Seq<char>, Seq<char>> {
    match outcome {
        Ok(t) => Ok(t@),
        Err(t) => Err(t@),
    }
}

/// The members of a reply.
pub open spec fn reply_fields(outcome: Result<Seq<char>, Seq<char>>) -> Seq<
    (Seq<char>, FieldValueView),
> {
    match outcome {
        Ok(text) => seq![
            ("ok"@, FieldValueView::One(ScalarView::Flag(true))),
            ("result"@, text_value(text)),
        ],
        Err(text) => seq![
            ("ok"@, FieldValueView::One(ScalarView::Flag(false))),
            ("error"@, text_value(text)),
        ],
    }
}

proof fn lemma_reply_keys()
    ensures
        "ok"@ != "result"@,
        "ok"@ != "error"@,
        "result"@ != "error"@,
{
    reveal_strlit("ok");
    reveal_strlit("result");
    reveal_strlit("error");
    assert("ok"@.len() == 2);
    assert("result"@.len() == 6);
    assert("error"@.len() == 5);
}

/// What a client makes of a reply.
pub enum ReplyView {
    /// It failed: the error as JSON text.
    Failed(Seq<char>),
    /// It succeeded with a result that is not [`SENT_REPLY`].
    Says(Seq<char>),
    /// There is nothing to show.
    Silent,
}

/// What a client makes of the members of a reply.
pub open spec fn understood(members: Seq<MemberView>) -> ReplyView {
    match lookup(members, "error"@) {
        Some(e) => ReplyView::Failed(e.shown),
        None => match lookup(members, "result"@) {
            Some(m) => {
                let said = match m.text {
                    Some(t) => t,
                    None => m.shown,
                };
                if said == SENT_REPLY@ {
                    ReplyView::Silent
                } else {
                    ReplyView::Says(said)
                }
            },
            None => ReplyView::Silent,
        },
    }
}

/// The reply to a request: what it came to or why it failed. A client reads back the result, or
/// that there was an error.
pub fn reply_text(outcome: Result<String, String>) -> (r: String)
    ensures
        r@ == json_object(reply_fields(text_outcome(outcome))),
        json_members(encode_utf8(r@)) matches Some(members) && match outcome {
            Ok(t) => understood(members) == if t@ == SENT_REPLY@ {
                ReplyView::Silent
            } else {
                ReplyView::Says(t@)
            },
            Err(t) => understood(members) is Failed && text_at(members, "error"@) == Some(t@),
        },
        in_braces(r@),
{
    let ghost wanted = reply_fields(text_outcome(outcome));
    let mut fields: Vec<Field> = Vec::new();
    match outcome {
        Ok(t) => {
            fields.push(scalar_field("ok", Scalar::Flag(true)));
            fields.push(text_field("result", t));
        },
        Err(t) => {
            fields.push(scalar_field("ok", Scalar::Flag(false)));
            fields.push(text_field("error", t));
        },
    }
    let ghost written = field_views(fields@);
    proof {
        lemma_reply_keys();
        assert(written =~= wanted);
    }
    let r = write_object(&fields);
    proof {
        let members = json_members(encode_utf8(r@))->0;
        assert(holds_fields(Some(members), written));
        assert(lookup(members, written[0].0) is Some);
        assert(lookup(members, written[1].0) is Some);
        if written[1].0 == "result"@ {
            assert(lookup(members, "error"@) is None);
        }
    }
    r
}

/// The reply to a line that is no JSON.
pub fn invalid_reply() -> (r: String)
    ensures
        r@ == json_object(seq![("error"@, text_value("invalid json"@))]),
        json_members(encode_utf8(r@)) matches Some(members) && understood(members) is Failed,
        in_braces(r@),
{
    let mut fields: Vec<Field> = Vec::new();
    fields.push(text_field("error", "invalid json".to_owned()));
    let ghost written = field_views(fields@);
    assert(written =~= seq![("error"@, text_value("invalid json"@))]);
    let r = write_object(&fields);
    proof {
        let members = json_members(encode_utf8(r@))->0;
        assert(holds_fields(Some(members), written));
        assert(lookup(members, written[0].0) is Some);
    }
    r
}

/// What a client shows of a reply.
pub enum Reply {
    Failed(String),
    Says(String),
    Silent,
}

impl View for Reply {
    type V = ReplyView;

    open spec fn view(&self) -> ReplyView {
        match *self {
            Reply::Failed(t) => ReplyView::Failed(t@),
            Reply::Says(t) => ReplyView::Says(t@),
            Reply::Silent => ReplyView::Silent,
        }
    }
}

/// Finds out what to show of the members of a reply.
pub fn reply_of(members: &Vec<Member>) -> (r: Reply)
    ensures
        r@ == understood(member_views(members@)),
{
    if let Some(e) = find_member(members, "error") {
        return Reply::Failed(e.shown.clone());
    }
    match find_member(members, "result") {
        Some(m) => {
            let said = match &m.text {
                Some(t) => t.clone(),
                None => m.shown.clone(),
            };
            if same_text(said.as_str(), SENT_REPLY) {
                Reply::Silent
            } else {
                Reply::Says(said)
            }
        },
        None => Reply::Silent,
    }
}

/// What a line means to a client: nothing where it is no JSON.
pub open spec fn reply_meaning(line: Seq<char>) -> Option<ReplyView> {
    match json_members(encode_utf8(trimmed(line))) {
        Some(members) => Some(understood(members)),
        None => None,
    }
}

/// The line that the daemon replies with to a request: a client reads the result in it, or that
/// there was an error.
pub fn reply_line(outcome: Result<String, String>) -> (r: String)
    ensures
        r@ == json_object(reply_fields(text_outcome(outcome))).push('\n'),
        match outcome {
            Ok(t) => reply_meaning(r@) == Some(
                if t@ == SENT_REPLY@ {
                    ReplyView::Silent
                } else {
                    ReplyView::Says(t@)
                },
            ),
            Err(t) => {
                &&& reply_meaning(r@) matches Some(reply) && reply is Failed
                &&& json_members(encode_utf8(trimmed(r@))) matches Some(members) && text_at(
                    members,
                    "error"@,
                ) == Some(t@)
            },
        },
{
    let mut r = reply_text(outcome);
    let ghost text = r@;
    r.push('\n');
    proof {
        law_line_trims_to_text(text);
    }
    r
}

/// The line that the daemon replies with to a line that is no JSON: a client reads an error in
/// it.
pub fn invalid_line() -> (r: String)
    ensures
        r@ == json_object(seq![("error"@, text_value("invalid json"@))]).push('\n'),
        reply_meaning(r@) matches Some(reply) && reply is Failed,
{
    let mut r = invalid_reply();
    let ghost text = r@;
    r.push('\n');
    proof {
        law_line_trims_to_text(text);
    }
    r
}

/// Reads the line that a daemon replied with: nothing where it is no JSON.
pub fn read_reply(line: &str) -> (r: Option<Reply>)
    ensures
        match r {
            Some(reply) => reply_meaning(line@) == Some(reply@),
            None => reply_meaning(line@) is None,
        },
{
    let text = trim(line);
    match read_object(text.as_str().as_bytes()) {
        Some(members) => Some(reply_of(&members)),
        None => None,
    }
}

/// What a light reads in the message of a command: the address is that of the command, the
/// payload is the one of its kind, and the values in it are those of the command, as far as the
/// light can take them.
pub proof fn law_values_reach_the_light(session: Session, command: Command)
    ensures
        step_of(session, command) matches StepView::Send(job) ==> {
            let p = job.params;
            let kind = field(p, BIT_72 as nat, 256);
            let intensity = field(p, BIT_62 as nat, 1024);
            match command {
                Command::OnOff { address, on } => {
                    &&& job.dst == address
                    &&& kind == 0x8c
                    &&& field(p, BIT_64 as nat, 256) == if on {
                        1nat
                    } else {
                        0
                    }
                },
                Command::Brightness { address, percent } => {
                    &&& job.dst == address
                    &&& kind == 0x8f
                    &&& intensity == at_most(10 * percent, 1000)
                },
                Command::Cct { address, percent, kelvin, gm } => {
                    &&& job.dst == address
                    &&& kind == 0x82
                    &&& intensity == at_most(10 * percent, 1000)
                    &&& field(p, BIT_52 as nat, 1024) + 1000 * field(p, BIT_42 as nat, 2)
                        == cct_steps(kelvin)
                    &&& field(p, BIT_45 as nat, 128) == shift_value(gm)
                    &&& 800 <= kelvin <= 20000 ==> -5 <= 10 * (field(p, BIT_52 as nat, 1024) + 1000
                        * field(p, BIT_42 as nat, 2)) - kelvin <= 5
                },
                Command::Hsi { address, percent, hue, saturation } => {
                    &&& job.dst == address
                    &&& kind == 0x81
                    &&& intensity == at_most(10 * percent, 1000)
                    &&& field(p, BIT_53 as nat, 512) == at_most(hue as int, 360)
                    &&& field(p, BIT_46 as nat, 128) == at_most(saturation as int, 100)
                },
                Command::Rgb { address, percent, r, g, b } => {
                    &&& job.dst == address
                    &&& kind == 0x84
                    &&& field(p, BIT_62 as nat, 1024) == level(r)
                    &&& field(p, BIT_52 as nat, 1024) == level(g)
                    &&& field(p, BIT_42 as nat, 1024) == level(b)
                    &&& field(p, BIT_22 as nat, 1024) == 0
                    &&& field(p, BIT_32 as nat, 1024) == 0
                    &&& field(p, BIT_12 as nat, 1024) == at_most(10 * percent, 1000)
                },
                _ => false,
            }
        },
{
    match command {
        Command::OnOff { on, .. } => {
            law_command_reads_back(
                0x8c,
                if on {
                    1
                } else {
                    0
                },
            );
        },
        Command::Brightness { percent, .. } => {
            law_brightness_reads_back(permille(percent));
        },
        Command::Cct { percent, kelvin, gm, .. } => {
            law_cct_reads_back(kelvin, permille(percent), gm);
        },
        Command::Hsi { percent, hue, saturation, .. } => {
            law_hsi_reads_back(hue, saturation, permille(percent));
        },
        Command::Rgb { percent, r, g, b, .. } => {
            law_rgbww_reads_back(level(r), level(g), level(b), 0, 0, permille(percent));
        },
        _ => {},
    }
}

/// Levels span the whole scale, and different components have different levels.
pub proof fn law_levels_span_the_scale(a: u8, b: u8)
    ensures
        level(0) == 0,
        level(255) == 1000,
        a < b ==> level(a) < level(b),
{
}

/// An unknown light is answered with the key and the keys of all lights, whatever the command
/// is, and nothing is sent.
pub proof fn law_unknown_light_refused(lights: Seq<LightView>, req: RequestView, key: Seq<char>)
    requires
        req.light == Some(key),
        key != "all"@,
        forall|i: int| 0 <= i < lights.len() ==> (#[trigger] lights[i]).key != key,
    ensures
        command_of(lights, req) == Err::<Command, CommandErrorView>(
            CommandErrorView::UnknownLight {
                key,
                known: Seq::new(lights.len(), |i: int| lights[i].key),
            },
        ),
{
    lemma_position_of_absent(lights, key);
}

proof fn lemma_position_of_absent(lights: Seq<LightView>, key: Seq<char>)
    requires
        forall|i: int| 0 <= i < lights.len() ==> (#[trigger] lights[i]).key != key,
    ensures
        light_position(lights, key) == lights.len(),
    decreases lights.len(),
{
    if lights.len() > 0 {
        assert(lights[0].key != key);
        assert forall|i: int| 0 <= i < lights.drop_first().len() implies (
        #[trigger] lights.drop_first()[i]).key != key by {
            assert(lights[i + 1].key != key);
        }
        lemma_position_of_absent(lights.drop_first(), key);
    }
}

/// A request for a light with a key of its own goes to the address of that light alone.
pub proof fn law_light_is_addressed(lights: Seq<LightView>, i: int)
    requires
        0 <= i < lights.len(),
        lights[i].key != "all"@,
        forall|j: int| 0 <= j < i ==> (#[trigger] lights[j]).key != lights[i].key,
    ensures
        target_address(lights, Some(lights[i].key)) == Ok::<u16, CommandErrorView>(
            lights[i].address,
        ),
{
    lemma_position_at(lights, i);
}

proof fn lemma_position_at(lights: Seq<LightView>, i: int)
    requires
        0 <= i < lights.len(),
        forall|j: int| 0 <= j < i ==> (#[trigger] lights[j]).key != lights[i].key,
    ensures
        light_position(lights, lights[i].key) == i,
    decreases lights.len(),
{
    if i > 0 {
        assert(lights[0].key != lights[i].key);
        let rest = lights.drop_first();
        assert forall|j: int| 0 <= j < i - 1 implies (#[trigger] rest[j]).key != rest[i - 1].key by {
            assert(lights[j + 1].key != lights[i].key);
        }
        lemma_position_at(rest, i - 1);
    }
}

/// A request without a light, or for `all`, never fails for want of a light.
pub proof fn law_all_is_default(lights: Seq<LightView>)
    ensures
        target_address(lights, None) == Ok::<u16, CommandErrorView>(ALL_NODES),
        target_address(lights, Some("all"@)) == Ok::<u16, CommandErrorView>(ALL_NODES),
{
}

/// Where temporary files go: where the environment says, or else to `/tmp`.
pub proof fn law_temporary_files(dir: Seq<char>)
    ensures
        temp_dir(Some(dir)) == dir,
        temp_dir(None) == "/tmp"@,
{
}

/// What a request is read from: three members, by their names. A command that is missing is an
/// empty one; arguments that are missing are none.
pub proof fn law_requests(members: Seq<MemberView>)
    ensures
        ({
            let req = requested(members);
            &&& text_at(members, "cmd"@) matches Some(t) ==> req.cmd == t
            &&& text_at(members, "cmd"@) is None ==> req.cmd == ""@
            &&& req.light == text_at(members, "light"@)
            &&& list_at(members, "args"@) matches Some(items) ==> req.args == strings_in(items)
            &&& list_at(members, "args"@) is None ==> req.args == Seq::<Seq<char>>::empty()
        }),
{
}

proof fn lemma_command_names()
    ensures
        "on"@.len() == 2,
        "off"@.len() == 3 && "off"@[0] == 'o',
        "brightness"@.len() == 10,
        "cct"@.len() == 3 && "cct"@[0] == 'c',
        "hsi"@.len() == 3 && "hsi"@[0] == 'h' && "hsi"@[2] == 'i',
        "hsl"@.len() == 3 && "hsl"@[0] == 'h' && "hsl"@[2] == 'l',
        "rgb"@.len() == 3 && "rgb"@[0] == 'r',
        "ping"@.len() == 4 && "ping"@[0] == 'p',
        "stop"@.len() == 4 && "stop"@[0] == 's',
        "lights"@.len() == 6,
        "help"@.len() == 4 && "help"@[0] == 'h',
{
    reveal_strlit("on");
    reveal_strlit("off");
    reveal_strlit("brightness");
    reveal_strlit("cct");
    reveal_strlit("hsi");
    reveal_strlit("hsl");
    reveal_strlit("rgb");
    reveal_strlit("ping");
    reveal_strlit("stop");
    reveal_strlit("lights");
    reveal_strlit("help");
}

/// Commands without arguments, whatever arguments they come with; and what is no command.
pub proof fn law_plain_commands(address: u16, cmd: Seq<char>, args: Seq<Seq<char>>)
    ensures
        command_at(address, "on"@, args) == Ok::<Command, CommandErrorView>(
            Command::OnOff { address, on: true },
        ),
        command_at(address, "off"@, args) == Ok::<Command, CommandErrorView>(
            Command::OnOff { address, on: false },
        ),
        command_at(address, "ping"@, args) == Ok::<Command, CommandErrorView>(Command::Ping),
        command_at(address, "stop"@, args) == Ok::<Command, CommandErrorView>(Command::Stop),
        command_at(address, "lights"@, args) == Ok::<Command, CommandErrorView>(Command::Lights),
        command_at(address, "help"@, args) == Ok::<Command, CommandErrorView>(Command::Help),
        cmd != "on"@ && cmd != "off"@ && cmd != "brightness"@ && cmd != "cct"@ && cmd != "hsi"@ && cmd
            != "hsl"@ && cmd != "rgb"@ && cmd != "ping"@ && cmd != "stop"@ && cmd != "lights"@ && cmd
            != "help"@ ==> command_at(address, cmd, args) == Err::<Command, CommandErrorView>(
            CommandErrorView::UnknownCommand(cmd),
        ),
{
    lemma_command_names();
}

/// Commands with arguments: each argument is the number that its text stands for, in its range;
/// the first that is missing or wrong is named. A shift is zero and the brightness of an RGB
/// colour full where they are missing or wrong.
pub proof fn law_argument_commands(address: u16, args: Seq<Seq<char>>)
    ensures
        ({
            let u = |i: int, max: nat|
                if i < args.len() {
                    unsigned_value(args[i], max)
                } else {
                    None::<nat>
                };
            let missing = |a: Argument|
                Err::<Command, CommandErrorView>(CommandErrorView::Missing(a));
            let gm = if args.len() > 2 && signed_value(args[2]) is Some {
                signed_value(args[2])->0
            } else {
                0
            };
            &&& command_at(address, "brightness"@, args) == if u(0, 255) is Some {
                Ok(Command::Brightness { address, percent: u(0, 255)->0 as u8 })
            } else {
                missing(Argument::Brightness)
            }
            &&& command_at(address, "cct"@, args) == if u(0, 255) is None {
                missing(Argument::CctBrightness)
            } else if u(1, 65535) is None {
                missing(Argument::CctKelvin)
            } else {
                Ok(
                    Command::Cct {
                        address,
                        percent: u(0, 255)->0 as u8,
                        kelvin: u(1, 65535)->0 as u16,
                        gm: gm as i8,
                    },
                )
            }
            &&& command_at(address, "hsi"@, args) == if u(0, 255) is None {
                missing(Argument::HsiBrightness)
            } else if u(1, 65535) is None {
                missing(Argument::HsiHue)
            } else if u(2, 65535) is None {
                missing(Argument::HsiSaturation)
            } else {
                Ok(
                    Command::Hsi {
                        address,
                        percent: u(0, 255)->0 as u8,
                        hue: u(1, 65535)->0 as u16,
                        saturation: u(2, 65535)->0 as u16,
                    },
                )
            }
            &&& command_at(address, "hsl"@, args) == command_at(address, "hsi"@, args)
            &&& command_at(address, "rgb"@, args) == if u(0, 255) is None {
                missing(Argument::RgbRed)
            } else if u(1, 255) is None {
                missing(Argument::RgbGreen)
            } else if u(2, 255) is None {
                missing(Argument::RgbBlue)
            } else {
                Ok(
                    Command::Rgb {
                        address,
                        percent: if u(3, 255) is Some {
                            u(3, 255)->0 as u8
                        } else {
                            100
                        },
                        r: u(0, 255)->0 as u8,
                        g: u(1, 255)->0 as u8,
                        b: u(2, 255)->0 as u8,
                    },
                )
            }
        }),
{
    lemma_command_names();
}

/// A request is for the address that its light stands for; where there is none, that is what is
/// reported.
pub proof fn law_requests_have_targets(lights: Seq<LightView>, req: RequestView)
    ensures
        target_address(lights, None) == Ok::<u16, CommandErrorView>(0xffff),
        target_address(lights, Some("all"@)) == Ok::<u16, CommandErrorView>(0xffff),
        target_address(lights, req.light) matches Ok(a) ==> command_of(lights, req) == command_at(
            a,
            req.cmd,
            req.args,
        ),
        target_address(lights, req.light) matches Err(e) ==> command_of(lights, req) == Err::<
            Command,
            CommandErrorView,
        >(e),
{
}

/// What errors say.
pub proof fn law_error_words(key: Seq<char>, known: Seq<Seq<char>>, cmd: Seq<char>)
    ensures
        error_message(CommandErrorView::UnknownLight { key, known }) == "unknown light: \""@ + key
            + "\". known: "@ + joined(known, ", "@),
        error_message(CommandErrorView::UnknownCommand(cmd)) == "unknown command: "@ + cmd,
        error_message(CommandErrorView::Missing(Argument::Brightness))
            == "brightness requires a number 0-100"@,
        error_message(CommandErrorView::Missing(Argument::CctBrightness))
            == "cct requires brightness"@,
        error_message(CommandErrorView::Missing(Argument::CctKelvin)) == "cct requires kelvin"@,
        error_message(CommandErrorView::Missing(Argument::HsiBrightness))
            == "hsi requires brightness"@,
        error_message(CommandErrorView::Missing(Argument::HsiHue)) == "hsi requires hue"@,
        error_message(CommandErrorView::Missing(Argument::HsiSaturation))
            == "hsi requires saturation"@,
        error_message(CommandErrorView::Missing(Argument::RgbRed)) == "rgb requires red"@,
        error_message(CommandErrorView::Missing(Argument::RgbGreen)) == "rgb requires green"@,
        error_message(CommandErrorView::Missing(Argument::RgbBlue)) == "rgb requires blue"@,
{
}

/// What is done at once: a ping is answered, the help is shown, the daemon is stopped, the lights
/// are listed. Every other command is one message, with the vendor opcode, three attempts and the
/// IV index of the session.
pub proof fn law_steps(session: Session, command: Command)
    ensures
        step_of(session, Command::Ping) == StepView::Reply("pong"@),
        step_of(session, Command::Help) == StepView::Reply(HELP_TEXT@),
        step_of(session, Command::Stop) == StepView::Stop,
        step_of(session, Command::Lights) == StepView::ListLights,
        step_of(session, command) matches StepView::Send(job) ==> {
            &&& job.opcode == 0x26
            &&& job.retries == 3
            &&& job.iv_index == session.iv_index
            &&& job.attempt == 0
            &&& job.params.len() == 10
        },
        command is OnOff || command is Brightness || command is Cct || command is Hsi || command is Rgb
            ==> step_of(session, command) is Send,
{
    if let StepView::Send(job) = step_of(session, command) {
        match command {
            Command::OnOff { on, .. } => {
                law_first_byte_sums_the_rest(
                    command_fields(
                        0x8c,
                        if on {
                            1
                        } else {
                            0
                        },
                    ),
                );
            },
            Command::Brightness { percent, .. } => {
                law_first_byte_sums_the_rest(brightness_fields(permille(percent)));
            },
            Command::Cct { percent, kelvin, gm, .. } => {
                law_first_byte_sums_the_rest(cct_fields(kelvin, permille(percent), gm));
            },
            Command::Hsi { percent, hue, saturation, .. } => {
                law_first_byte_sums_the_rest(hsi_fields(hue, saturation, permille(percent)));
            },
            Command::Rgb { percent, r, g, b, .. } => {
                law_first_byte_sums_the_rest(
                    rgbww_fields(level(r), level(g), level(b), 0, 0, permille(percent)),
                );
            },
            _ => {},
        }
    }
}

/// What a light reads in the bytes of a command: its kind in the last byte, and the values of the
/// command, a percentage as ten times as many thousandths.
pub proof fn law_commands_in_bytes(
    session: Session,
    address: u16,
    on: bool,
    percent: u8,
    kelvin: u16,
    gm: i8,
    hue: u16,
    saturation: u16,
)
    ensures
        ({
            let bright = if percent <= 100 {
                10 * percent
            } else {
                1000
            };
            &&& step_of(session, Command::OnOff { address, on }) matches StepView::Send(j) && {
                &&& j.dst == address
                &&& j.params[9] == 0x8c
                &&& j.params[8] == if on {
                    1u8
                } else {
                    0u8
                }
            }
            &&& step_of(session, Command::Brightness { address, percent }) matches StepView::Send(
                j,
            ) && {
                &&& j.dst == address
                &&& j.params[9] == 0x8f
                &&& 4 * j.params[8] + j.params[7] / 64 == bright
            }
            &&& step_of(session, Command::Cct { address, percent, kelvin, gm }) matches StepView::Send(
                j,
            ) && {
                let p = j.params;
                let tens = (p[7] % 64) * 16 + p[6] / 16 + 1000 * (p[5] / 4 % 2);
                let shift = (p[6] % 16) * 8 + p[5] / 32;
                &&& j.dst == address
                &&& p[9] == 0x82
                &&& 4 * p[8] + p[7] / 64 == bright
                &&& 800 <= kelvin <= 20000 ==> -5 <= 10 * tens - kelvin <= 5
                &&& kelvin < 800 ==> tens == 80
                &&& kelvin > 20000 ==> tens == 2000
                &&& -10 <= gm <= 50 ==> shift == gm + 10
                &&& -50 <= gm < -10 ==> shift == gm + 138
            }
            &&& step_of(
                session,
                Command::Hsi { address, percent, hue, saturation },
            ) matches StepView::Send(j) && {
                let p = j.params;
                let h = (p[7] % 64) * 8 + p[6] / 32;
                let s = (p[6] % 32) * 4 + p[5] / 64;
                &&& j.dst == address
                &&& p[9] == 0x81
                &&& 4 * p[8] + p[7] / 64 == bright
                &&& hue <= 360 ==> h == hue
                &&& hue > 360 ==> h == 360
                &&& saturation <= 100 ==> s == saturation
                &&& saturation > 100 ==> s == 100
            }
        }),
{
    law_command_bytes(
        0x8c,
        if on {
            1
        } else {
            0
        },
    );
    law_permille(percent);
    law_brightness_bytes(permille(percent));
    law_white_bytes(kelvin, permille(percent), gm);
    law_colour_bytes(hue, saturation, permille(percent));
}

/// What a light reads in the bytes of an RGB colour: each component in thousandths of full scale,
/// within one of the exact value and never above it, no white, and the brightness.
pub proof fn law_rgb_in_bytes(session: Session, address: u16, percent: u8, r: u8, g: u8, b: u8)
    ensures
        step_of(session, Command::Rgb { address, percent, r, g, b }) matches StepView::Send(j) && {
            let p = j.params;
            let red = 4 * p[8] + p[7] / 64;
            let green = (p[7] % 64) * 16 + p[6] / 16;
            let blue = (p[6] % 16) * 64 + p[5] / 4;
            &&& j.dst == address
            &&& p[9] == 0x84
            &&& 255 * red <= 1000 * r < 255 * red + 255
            &&& 255 * green <= 1000 * g < 255 * green + 255
            &&& 255 * blue <= 1000 * b < 255 * blue + 255
            &&& (p[5] % 4) * 256 + p[4] == 0
            &&& 4 * p[3] + p[2] / 64 == 0
            &&& percent <= 100 ==> (p[2] % 64) * 16 + p[1] / 16 == 10 * percent
            &&& percent > 100 ==> (p[2] % 64) * 16 + p[1] / 16 == 1000
        },
{
    law_permille(percent);
    law_emitter_bytes(level(r), level(g), level(b), 0, 0, permille(percent));
}

/// What a line means to the daemon: with nothing but white space nothing; otherwise the text
/// between the white space is read as JSON.
pub proof fn law_lines(before: Seq<char>, text: Seq<char>, after: Seq<char>)
    requires
        forall|i: int| 0 <= i < before.len() ==> white_space(#[trigger] before[i]),
        forall|i: int| 0 <= i < after.len() ==> white_space(#[trigger] after[i]),
        text.len() > 0 ==> !white_space(text[0]) && !white_space(text.last()),
    ensures
        ({
            let line = before + text + after;
            let read = json_members(encode_utf8(text));
            &&& text.len() == 0 ==> line_meaning(line) == LineView::Blank
            &&& text.len() > 0 && read is None ==> line_meaning(line) == LineView::Invalid
            &&& text.len() > 0 && read is Some ==> line_meaning(line) == LineView::Run(
                requested(read->0),
            )
            &&& read is None ==> reply_meaning(line) is None
            &&& read is Some ==> reply_meaning(line) == Some(understood(read->0))
        }),
{
    law_trimming(before, text, after);
}

/// What a client makes of a reply: an error comes first, as it stands; then a result, a string as
/// its text and anything else as it stands, unless it says `ok`.
pub proof fn law_replies(members: Seq<MemberView>)
    ensures
        SENT_REPLY@ == "ok"@,
        lookup(members, "error"@) matches Some(e) ==> understood(members) == ReplyView::Failed(
            e.shown,
        ),
        lookup(members, "error"@) is None && lookup(members, "result"@) is None ==> understood(members)
            == ReplyView::Silent,
        lookup(members, "error"@) is None ==> (lookup(members, "result"@) matches Some(m) ==> {
            let said = if m.text is Some {
                m.text->0
            } else {
                m.shown
            };
            &&& said == "ok"@ ==> understood(members) == ReplyView::Silent
            &&& said != "ok"@ ==> understood(members) == ReplyView::Says(said)
        }),
{
}

/// What is written: a request as its command, its arguments and its light or `null`; a reply as
/// whether it is one and what it says.
pub proof fn law_written_members(req: RequestView, text: Seq<char>)
    ensures
        request_fields(req) == seq![
            ("cmd"@, FieldValueView::One(ScalarView::Text(Some(req.cmd)))),
            ("args"@, FieldValueView::One(ScalarView::List(req.args))),
            ("light"@, FieldValueView::One(ScalarView::Text(req.light))),
        ],
        reply_fields(Ok(text)) == seq![
            ("ok"@, FieldValueView::One(ScalarView::Flag(true))),
            ("result"@, FieldValueView::One(ScalarView::Text(Some(text)))),
        ],
        reply_fields(Err(text)) == seq![
            ("ok"@, FieldValueView::One(ScalarView::Flag(false))),
            ("error"@, FieldValueView::One(ScalarView::Text(Some(text)))),
        ],
{
}

/// What the help says.
pub proof fn law_help()
    ensures
        HELP_TEXT@ == "commands:
  on [light]                  turn light on
  off [light]                 turn light off
  brightness <0-100> [light]  set brightness
  cct <b> <kelvin> [gm] [light]  set CCT (kelvin 2500-10000, GM -50..+50)
  hsi <b> <hue> <sat> [light]    set HSI (hue 0-360, sat 0-100)
  rgb <r> <g> <b> [br] [light]   set RGB (r, g, b 0-255, br 0-100)
  lights                      list configured lights
  help                        show this help
  exit / quit                 leave the REPL

light target (optional, default = all):  use the key from lights.json, e.g. key, back, fill
"@,
{
}

/// What contracts know of a request, a refusal, a step, a line and a reply is all of it.
pub proof fn law_views_of_requests(req: Request, e: CommandError, step: Step, line: Line, reply: Reply)
    ensures
        req@.cmd == req.cmd@ && req@.light == opt_text(req.light) && req@.args == texts(req.args@),
        match e {
            CommandError::UnknownLight { key, known } => e@ == (CommandErrorView::UnknownLight {
                key: key@,
                known: texts(known@),
            }),
            CommandError::Missing(a) => e@ == CommandErrorView::Missing(a),
            CommandError::UnknownCommand(cmd) => e@ == CommandErrorView::UnknownCommand(cmd@),
        },
        match step {
            Step::Send(job) => step@ == StepView::Send(job@),
            Step::Reply(text) => step@ == StepView::Reply(text@),
            Step::Stop => step@ is Stop,
            Step::ListLights => step@ is ListLights,
        },
        match line {
            Line::Blank => line@ is Blank,
            Line::Invalid => line@ is Invalid,
            Line::Run(r) => line@ == LineView::Run(r@),
        },
        match reply {
            Reply::Failed(t) => reply@ == ReplyView::Failed(t@),
            Reply::Says(t) => reply@ == ReplyView::Says(t@),
            Reply::Silent => reply@ is Silent,
        },
        outcome_view(Err(e)) == Err::<Command, CommandErrorView>(e@),
        forall|c: Command| #[trigger] outcome_view(Ok(c)) == Ok::<Command, CommandErrorView>(c),
        text_outcome(Ok(req.cmd)) == Ok::<Seq<char>, Seq<char>>(req.cmd@),
        text_outcome(Err(req.cmd)) == Err::<Seq<char>, Seq<char>>(req.cmd@),
{
}

} // verus!
