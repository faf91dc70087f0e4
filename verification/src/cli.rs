//! The command line and the prompt: what is typed, as requests.

use crate::config::{opt_text, Config, LightConfig, LightView};
use crate::daemon::{command_at, Command, CommandErrorView, Request, RequestView};
use crate::text::{
    decimal, decimal_text, has_text, law_signed_reads_back, law_unsigned_reads_back, pad_right,
    padded_right, same_text, signed_decimal, signed_text, split_whitespace, texts, trim, trimmed,
    uppercase, words,
};
use vstd::prelude::*;
use vstd::string::StringExecFns;

verus! {

/// Whether the last word of a line names a target: a known light, or all of them.
pub open spec fn ends_with_target(parts: Seq<Seq<char>>, known: Seq<Seq<char>>) -> bool {
    parts.len() > 0 && (known.contains(parts.last()) || parts.last() == "all"@)
}

/// The request in the words of a line: the command, its arguments, and the light where the last
/// word names one.
pub open spec fn typed(parts: Seq<Seq<char>>, known: Seq<Seq<char>>) -> RequestView {
    let rest = if ends_with_target(parts, known) {
        parts.drop_last()
    } else {
        parts
    };
    RequestView {
        cmd: if rest.len() > 0 {
            rest[0]
        } else {
            ""@
        },
        light: if ends_with_target(parts, known) {
            Some(parts.last())
        } else {
            None
        },
        args: if rest.len() > 0 {
            rest.skip(1)
        } else {
            Seq::empty()
        },
    }
}

/// Reads a request from the words of a line.
pub fn parse_line(parts: &Vec<String>, known_keys: &Vec<String>) -> (r: Request)
    ensures
        r@ == typed(texts(parts@), texts(known_keys@)),
{
    let ghost all = texts(parts@);
    let ghost known = texts(known_keys@);
    let mut count: usize = parts.len();
    let mut light: Option<String> = None;
    if count > 0 {
        let last = &parts[count - 1];
        assert(all.last() == last@);
        if has_text(known_keys, last.as_str()) || same_text(last.as_str(), "all") {
            light = Some(last.clone());
            count = count - 1;
        }
    }
    let ghost rest = all.take(count as int);
    assert(rest =~= if ends_with_target(all, known) {
        all.drop_last()
    } else {
        all
    });
    let cmd = if count > 0 {
        parts[0].clone()
    } else {
        "".to_owned()
    };
    let mut args: Vec<String> = Vec::new();
    let mut i: usize = 1;
    while i < count
        invariant
            1 <= i,
            count <= parts@.len(),
            i <= count || args@.len() == 0,
            args@.len() == i - 1,
            forall|k: int| 0 <= k < args@.len() ==> (#[trigger] args@[k])@ == parts@[k + 1]@,
        decreases count - i,
    {
        args.push(parts[i].clone());
        i = i + 1;
    }
    assert(texts(args@) =~= typed(all, known).args);
    Request { cmd, light, args }
}

/// What was typed at the prompt.
pub enum Prompt {
    /// Nothing.
    Blank,
    /// To leave.
    Leave,
    /// To see the help.
    Help,
    /// A request.
    Run(Request),
}

/// What was typed at the prompt, as contracts speak of it.
pub enum PromptView {
    Blank,
    Leave,
    Help,
    Run(RequestView),
}

impl View for Prompt {
    type V = PromptView;

    open spec fn view(&self) -> PromptView {
        match *self {
            Prompt::Blank => PromptView::Blank,
            Prompt::Leave => PromptView::Leave,
            Prompt::Help => PromptView::Help,
            Prompt::Run(req) => PromptView::Run(req@),
        }
    }
}

/// What a line without white space around it asks for.
pub open spec fn prompted(line: Seq<char>, known: Seq<Seq<char>>) -> PromptView {
    if line == ""@ {
        PromptView::Blank
    } else if line == "exit"@ || line == "quit"@ {
        PromptView::Leave
    } else if line == "help"@ {
        PromptView::Help
    } else {
        PromptView::Run(typed(words(line), known))
    }
}

/// Reads a line that was typed at the prompt.
pub fn read_prompt(line: &str, known_keys: &Vec<String>) -> (r: Prompt)
    ensures
        r@ == prompted(trimmed(line@), texts(known_keys@)),
{
    let text = trim(line);
    let s = text.as_str();
    if same_text(s, "") {
        Prompt::Blank
    } else if same_text(s, "exit") || same_text(s, "quit") {
        Prompt::Leave
    } else if same_text(s, "help") {
        Prompt::Help
    } else {
        Prompt::Run(parse_line(&split_whitespace(s), known_keys))
    }
}

/// A command of the command line that goes to the lights.
pub enum CliCommand {
    On,
    Off,
    Brightness { value: u8 },
    Cct { brightness: u8, kelvin: u16, gm: i8 },
    Hsi { brightness: u8, hue: u16, saturation: u16 },
    Rgb { r: u8, g: u8, b: u8, brightness: u8 },
    Status,
    Battery,
    Query { cmd_type: String },
}

/// The name of a command in a request.
pub open spec fn cli_name(command: CliCommand) -> Seq<char> {
    match command {
        CliCommand::On => "on"@,
        CliCommand::Off => "off"@,
        CliCommand::Brightness { .. } => "brightness"@,
        CliCommand::Cct { .. } => "cct"@,
        CliCommand::Hsi { .. } => "hsi"@,
        CliCommand::Rgb { .. } => "rgb"@,
        CliCommand::Status => "status"@,
        CliCommand::Battery => "battery"@,
        CliCommand::Query { .. } => "query"@,
    }
}

/// The arguments of a command in a request.
pub open spec fn cli_args(command: CliCommand) -> Seq<Seq<char>> {
    match command {
        CliCommand::Brightness { value } => seq![decimal_text(value as nat)],
        CliCommand::Cct { brightness, kelvin, gm } => seq![
            decimal_text(brightness as nat),
            decimal_text(kelvin as nat),
            signed_text(gm as int),
        ],
        CliCommand::Hsi { brightness, hue, saturation } => seq![
            decimal_text(brightness as nat),
            decimal_text(hue as nat),
            decimal_text(saturation as nat),
        ],
        CliCommand::Rgb { r, g, b, brightness } => seq![
            decimal_text(r as nat),
            decimal_text(g as nat),
            decimal_text(b as nat),
            decimal_text(brightness as nat),
        ],
        CliCommand::Query { cmd_type } => seq![cmd_type@],
        _ => Seq::empty(),
    }
}

/// The request that a command for a light makes.
pub fn cli_request(command: CliCommand, light: Option<String>) -> (r: Request)
    ensures
        r@ == (RequestView {
            cmd: cli_name(command),
            light: opt_text(light),
            args: cli_args(command),
        }),
{
    let ghost wanted = cli_args(command);
    let mut args: Vec<String> = Vec::new();
    let cmd = match command {
        CliCommand::On => "on",
        CliCommand::Off => "off",
        CliCommand::Brightness { value } => {
            args.push(decimal(value as u64));
            "brightness"
        },
        CliCommand::Cct { brightness, kelvin, gm } => {
            args.push(decimal(brightness as u64));
            args.push(decimal(kelvin as u64));
            args.push(signed_decimal(gm as i64));
            "cct"
        },
        CliCommand::Hsi { brightness, hue, saturation } => {
            args.push(decimal(brightness as u64));
            args.push(decimal(hue as u64));
            args.push(decimal(saturation as u64));
            "hsi"
        },
        CliCommand::Rgb { r, g, b, brightness } => {
            args.push(decimal(r as u64));
            args.push(decimal(g as u64));
            args.push(decimal(b as u64));
            args.push(decimal(brightness as u64));
            "rgb"
        },
        CliCommand::Status => "status",
        CliCommand::Battery => "battery",
        CliCommand::Query { cmd_type } => {
            args.push(cmd_type);
            "query"
        },
    };
    assert(texts(args@) =~= wanted);
    Request { cmd: cmd.to_owned(), light, args }
}

/// The request that stops the daemon.
pub fn stop_request() -> (r: Request)
    ensures
        r@ == (RequestView { cmd: "stop"@, light: None, args: Seq::empty() }),
{
    let args: Vec<String> = Vec::new();
    assert(texts(args@) =~= Seq::<Seq<char>>::empty());
    Request { cmd: "stop".to_owned(), light: None, args }
}

/// Whether a light is the relay hub, going by the addresses in upper case.
pub fn is_relay_hub(config: &Config, light: &LightConfig) -> (r: bool)
    ensures
        r == (uppercase(light.mac@) == uppercase(config.relay_hub@)),
{
    let a = light.mac.as_str().to_uppercase();
    let b = config.relay_hub.as_str().to_uppercase();
    same_text(a.as_str(), b.as_str())
}

/// The line that shows a light in the list of lights.
pub open spec fn listed(light: LightView, hub: bool) -> Seq<char> {
    "  "@ + padded_right(light.key, 8) + " "@ + light.name + "  (addr "@ + decimal_text(
        light.address as nat,
    ) + ", MAC "@ + light.mac + ")"@ + if hub {
        "  ← relay hub"@
    } else {
        ""@
    }
}

/// The line that shows a light, given whether it is the relay hub.
pub fn line_of_light(light: &LightConfig, hub: bool) -> (r: String)
    ensures
        r@ == listed(light@, hub),
{
    let mut r = "  ".to_owned();
    r.append(pad_right(light.key.as_str(), 8).as_str());
    r.append(" ");
    r.append(light.name.as_str());
    r.append("  (addr ");
    r.append(decimal(light.address as u64).as_str());
    r.append(", MAC ");
    r.append(light.mac.as_str());
    r.append(")");
    r.append(
        if hub {
            "  ← relay hub"
        } else {
            ""
        },
    );
    r
}

/// The line that shows a light in the list of lights.
pub fn light_line(config: &Config, light: &LightConfig) -> (r: String)
    ensures
        r@ == listed(light@, uppercase(light.mac@) == uppercase(config.relay_hub@)),
{
    line_of_light(light, is_relay_hub(config, light))
}

/// Nothing that is typed gets lost: the command, the arguments and the light, in this order, are
/// the words of the line.
pub proof fn law_line_is_kept(parts: Seq<Seq<char>>, known: Seq<Seq<char>>)
    requires
        parts.len() > 0,
        !(parts.len() == 1 && ends_with_target(parts, known)),
    ensures
        ({
            let req = typed(parts, known);
            parts == seq![req.cmd] + req.args + match req.light {
                Some(light) => seq![light],
                None => Seq::empty(),
            }
        }),
{
    let req = typed(parts, known);
    if ends_with_target(parts, known) {
        assert(parts =~= seq![req.cmd] + req.args + seq![parts.last()]);
    } else {
        assert(parts =~= seq![req.cmd] + req.args + Seq::<Seq<char>>::empty());
    }
}

/// The light of a typed request is one that the daemon knows, or all of them.
pub proof fn law_typed_light_is_known(parts: Seq<Seq<char>>, known: Seq<Seq<char>>)
    ensures
        typed(parts, known).light matches Some(light) ==> known.contains(light) || light == "all"@,
{
}

/// What a command of the command line comes to at the daemon: commands that set something are
/// carried out with the values given, the others are unknown to it.
pub open spec fn cli_outcome(command: CliCommand, address: u16) -> Result<
    Command,
    CommandErrorView,
> {
    match command {
        CliCommand::On => Ok(Command::OnOff { address, on: true }),
        CliCommand::Off => Ok(Command::OnOff { address, on: false }),
        CliCommand::Brightness { value } => Ok(Command::Brightness { address, percent: value }),
        CliCommand::Cct { brightness, kelvin, gm } => Ok(
            Command::Cct { address, percent: brightness, kelvin, gm },
        ),
        CliCommand::Hsi { brightness, hue, saturation } => Ok(
            Command::Hsi { address, percent: brightness, hue, saturation },
        ),
        CliCommand::Rgb { r, g, b, brightness } => Ok(
            Command::Rgb { address, percent: brightness, r, g, b },
        ),
        _ => Err(CommandErrorView::UnknownCommand(cli_name(command))),
    }
}

/// The values of a command of the command line arrive at the daemon as they were given.
pub proof fn law_cli_values_arrive(command: CliCommand, address: u16)
    ensures
        command_at(address, cli_name(command), cli_args(command)) == cli_outcome(command, address),
{
    lemma_names_apart();
    match command {
        CliCommand::Brightness { value } => {
            law_unsigned_reads_back(value as nat, 255);
        },
        CliCommand::Cct { brightness, kelvin, gm } => {
            law_unsigned_reads_back(brightness as nat, 255);
            law_unsigned_reads_back(kelvin as nat, 65535);
            law_signed_reads_back(gm);
        },
        CliCommand::Hsi { brightness, hue, saturation } => {
            law_unsigned_reads_back(brightness as nat, 255);
            law_unsigned_reads_back(hue as nat, 65535);
            law_unsigned_reads_back(saturation as nat, 65535);
        },
        CliCommand::Rgb { r, g, b, brightness } => {
            law_unsigned_reads_back(r as nat, 255);
            law_unsigned_reads_back(g as nat, 255);
            law_unsigned_reads_back(b as nat, 255);
            law_unsigned_reads_back(brightness as nat, 255);
        },
        _ => {},
    }
}

/// The names of the commands differ in length or in their first two characters.
proof fn lemma_names_apart()
    ensures
        "on"@.len() == 2,
        "off"@.len() == 3 && "off"@[0] == 'o',
        "brightness"@.len() == 10,
        "cct"@.len() == 3 && "cct"@[0] == 'c',
        "hsi"@.len() == 3 && "hsi"@[0] == 'h',
        "hsl"@.len() == 3 && "hsl"@[0] == 'h',
        "ping"@.len() == 4,
        "stop"@.len() == 4,
        "lights"@.len() == 6 && "lights"@[0] == 'l',
        "help"@.len() == 4,
        "rgb"@.len() == 3 && "rgb"@[0] == 'r',
        "status"@.len() == 6 && "status"@[0] == 's',
        "battery"@.len() == 7,
        "query"@.len() == 5,
{
    reveal_strlit("on");
    reveal_strlit("off");
    reveal_strlit("brightness");
    reveal_strlit("cct");
    reveal_strlit("hsi");
    reveal_strlit("hsl");
    reveal_strlit("ping");
    reveal_strlit("stop");
    reveal_strlit("lights");
    reveal_strlit("help");
    reveal_strlit("rgb");
    reveal_strlit("status");
    reveal_strlit("battery");
    reveal_strlit("query");
}

/// Which light a line is for: its last word, where that is the key of a light or `all`; otherwise
/// none. What is before it is the command and its arguments.
pub proof fn law_typed_targets(words: Seq<Seq<char>>, last: Seq<char>, known: Seq<Seq<char>>)
    ensures
        ({
            let named = last == "all"@ || exists|i: int|
                0 <= i < known.len() && #[trigger] known[i] == last;
            let req = typed(words.push(last), known);
            &&& named ==> req.light == Some(last)
            &&& !named ==> req.light is None
            &&& named && words.len() > 0 ==> req.cmd == words[0] && req.args == words.skip(1)
            &&& named && words.len() == 0 ==> req.cmd == ""@ && req.args == Seq::<
                Seq<char>,
            >::empty()
            &&& !named && words.len() > 0 ==> req.cmd == words[0] && req.args == words.skip(1).push(
                last,
            )
            &&& !named && words.len() == 0 ==> req.cmd == last && req.args == Seq::<
                Seq<char>,
            >::empty()
        }),
        typed(Seq::empty(), known) == (RequestView {
            cmd: ""@,
            light: None,
            args: Seq::empty(),
        }),
{
    let all = words.push(last);
    assert(all.drop_last() =~= words);
    assert(all.last() == last);
    if known.contains(last) {
        let i = choose|i: int| 0 <= i < known.len() && known[i] == last;
        assert(known[i] == last);
    }
    if words.len() > 0 {
        assert(all.skip(1) =~= words.skip(1).push(last));
    } else {
        assert(all.skip(1) =~= Seq::<Seq<char>>::empty());
    }
}

/// What is done with a line at the prompt: nothing with an empty one, `exit` and `quit` leave,
/// `help` shows the help, and everything else is a request made of its words.
pub proof fn law_prompts(line: Seq<char>, known: Seq<Seq<char>>)
    ensures
        prompted(""@, known) == PromptView::Blank,
        prompted("exit"@, known) == PromptView::Leave,
        prompted("quit"@, known) == PromptView::Leave,
        prompted("help"@, known) == PromptView::Help,
        line != ""@ && line != "exit"@ && line != "quit"@ && line != "help"@ ==> prompted(
            line,
            known,
        ) == PromptView::Run(typed(words(line), known)),
{
    reveal_strlit("");
    reveal_strlit("exit");
    reveal_strlit("quit");
    reveal_strlit("help");
    assert(""@.len() == 0 && "exit"@.len() == 4 && "quit"@.len() == 4 && "help"@.len() == 4);
    assert("exit"@[0] == 'e' && "quit"@[0] == 'q' && "help"@[0] == 'h');
}

/// What the commands of the command line are called, and what they send along.
pub proof fn law_cli_requests(
    value: u8,
    kelvin: u16,
    gm: i8,
    hue: u16,
    r: u8,
    g: u8,
    b: u8,
    cmd_type: String,
)
    ensures
        cli_name(CliCommand::On) == "on"@,
        cli_name(CliCommand::Off) == "off"@,
        cli_name(CliCommand::Brightness { value }) == "brightness"@,
        cli_name(CliCommand::Cct { brightness: value, kelvin, gm }) == "cct"@,
        cli_name(CliCommand::Hsi { brightness: value, hue, saturation: kelvin }) == "hsi"@,
        cli_name(CliCommand::Rgb { r, g, b, brightness: value }) == "rgb"@,
        cli_name(CliCommand::Status) == "status"@,
        cli_name(CliCommand::Battery) == "battery"@,
        cli_name(CliCommand::Query { cmd_type }) == "query"@,
        cli_args(CliCommand::On) == Seq::<Seq<char>>::empty(),
        cli_args(CliCommand::Off) == Seq::<Seq<char>>::empty(),
        cli_args(CliCommand::Status) == Seq::<Seq<char>>::empty(),
        cli_args(CliCommand::Battery) == Seq::<Seq<char>>::empty(),
        cli_args(CliCommand::Query { cmd_type }) == seq![cmd_type@],
        cli_args(CliCommand::Brightness { value }).len() == 1,
        cli_args(CliCommand::Cct { brightness: value, kelvin, gm }).len() == 3,
        cli_args(CliCommand::Hsi { brightness: value, hue, saturation: kelvin }).len() == 3,
        cli_args(CliCommand::Rgb { r, g, b, brightness: value }).len() == 4,
{
}

/// What the daemon makes of the commands of the command line, value by value.
pub proof fn law_cli_commands(
    address: u16,
    percent: u8,
    kelvin: u16,
    gm: i8,
    hue: u16,
    saturation: u16,
    r: u8,
    g: u8,
    b: u8,
)
    ensures
        ({
            let said = |c: CliCommand| command_at(address, cli_name(c), cli_args(c));
            &&& said(CliCommand::On) == Ok::<Command, CommandErrorView>(
                Command::OnOff { address, on: true },
            )
            &&& said(CliCommand::Off) == Ok::<Command, CommandErrorView>(
                Command::OnOff { address, on: false },
            )
            &&& said(CliCommand::Brightness { value: percent }) == Ok::<Command, CommandErrorView>(
                Command::Brightness { address, percent },
            )
            &&& said(CliCommand::Cct { brightness: percent, kelvin, gm }) == Ok::<
                Command,
                CommandErrorView,
            >(Command::Cct { address, percent, kelvin, gm })
            &&& said(CliCommand::Hsi { brightness: percent, hue, saturation }) == Ok::<
                Command,
                CommandErrorView,
            >(Command::Hsi { address, percent, hue, saturation })
            &&& said(CliCommand::Rgb { r, g, b, brightness: percent }) == Ok::<
                Command,
                CommandErrorView,
            >(Command::Rgb { address, percent, r, g, b })
        }),
{
    law_cli_values_arrive(CliCommand::On, address);
    law_cli_values_arrive(CliCommand::Off, address);
    law_cli_values_arrive(CliCommand::Brightness { value: percent }, address);
    law_cli_values_arrive(CliCommand::Cct { brightness: percent, kelvin, gm }, address);
    law_cli_values_arrive(CliCommand::Hsi { brightness: percent, hue, saturation }, address);
    law_cli_values_arrive(CliCommand::Rgb { r, g, b, brightness: percent }, address);
}

/// The line of a light, piece by piece.
pub proof fn law_listed_lights(light: LightView)
    ensures
        listed(light, true) == "  "@ + padded_right(light.key, 8) + " "@ + light.name + "  (addr "@
            + decimal_text(light.address as nat) + ", MAC "@ + light.mac + ")"@
            + "  ← relay hub"@,
        listed(light, false) == "  "@ + padded_right(light.key, 8) + " "@ + light.name + "  (addr "@
            + decimal_text(light.address as nat) + ", MAC "@ + light.mac + ")"@ + ""@,
{
}

/// What contracts know of what was typed is all of it.
pub proof fn law_views_of_prompts(prompt: Prompt)
    ensures
        match prompt {
            Prompt::Blank => prompt@ is Blank,
            Prompt::Leave => prompt@ is Leave,
            Prompt::Help => prompt@ is Help,
            Prompt::Run(req) => prompt@ == PromptView::Run(req@),
        },
{
}

} // verus!
