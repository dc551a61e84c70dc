//! `kwybarsctl`: its command line, and the rules and messages of switching
//! the active config to another file.
use crate::text::{decimal, decimal_text, same_text, starts_with, strip_prefix_text};
use vstd::prelude::*;
use vstd::string::StrSliceExecFns;
use vstd::string::StringExecFns;

verus! {

/// What `kwybarsctl` is asked to do.
#[derive(Debug, Clone, PartialEq, Eq)]
pub enum Command {
    /// Point the active config path (`active`, or the default one) at
    /// `target`.
    SwitchConfig { target: String, active: Option<String> },
    /// Print the help text.
    Help,
}

/// A command as values.
pub enum CommandModel {
    SwitchConfig { target: Seq<char>, active: Option<Seq<char>> },
    Help,
}

/// `o` with each text taken by its characters.
pub open spec fn text_option(o: Option<String>) -> Option<Seq<char>> {
    match o {
        Some(s) => Some(s@),
        None => None,
    }
}

impl View for Command {
    type V = CommandModel;

    open spec fn view(&self) -> CommandModel {
        match self {
            Command::SwitchConfig { target, active } => CommandModel::SwitchConfig {
                target: target@,
                active: text_option(*active),
            },
            Command::Help => CommandModel::Help,
        }
    }
}

/// Why `kwybarsctl` gives up: a command line it cannot read (the message
/// ends with the help text), or a target or active path it cannot use.
#[derive(Debug, Clone, PartialEq, Eq)]
pub enum ControlError {
    Usage(String),
    InvalidTarget(String),
}

/// An error as values.
pub enum ControlErrorModel {
    Usage(Seq<char>),
    InvalidTarget(Seq<char>),
}

impl View for ControlError {
    type V = ControlErrorModel;

    open spec fn view(&self) -> ControlErrorModel {
        match self {
            ControlError::Usage(m) => ControlErrorModel::Usage(m@),
            ControlError::InvalidTarget(m) => ControlErrorModel::InvalidTarget(m@),
        }
    }
}

impl ControlError {
    /// The message of the error, whichever its kind.
    pub fn message(&self) -> (r: &str)
        ensures
            r@ == match self@ {
                ControlErrorModel::Usage(m) => m,
                ControlErrorModel::InvalidTarget(m) => m,
            },
    {
        match self {
            ControlError::Usage(m) => m.as_str(),
            ControlError::InvalidTarget(m) => m.as_str(),
        }
    }
}

/// The help text of `kwybarsctl`.
pub open spec fn control_usage() -> Seq<char> {
    "Usage:\n  kwybarsctl switch-config [--active <path>] <target-config.toml>\n  kwybarsctl --help\n\nCommands:\n  switch-config         Atomically switch the watched config path to another config file\n\nOptions:\n  -a, --active <path>   Active config path to update (default: normal Kwybars config path)\n  -h, --help            Show this help message"@
}

/// The help text of `kwybarsctl`.
pub fn usage() -> (r: String)
    ensures
        r@ == control_usage(),
{
    String::from_str(
        "Usage:\n  kwybarsctl switch-config [--active <path>] <target-config.toml>\n  kwybarsctl --help\n\nCommands:\n  switch-config         Atomically switch the watched config path to another config file\n\nOptions:\n  -a, --active <path>   Active config path to update (default: normal Kwybars config path)\n  -h, --help            Show this help message",
    )
}

/// The message of a command line that cannot be read: the reason, a blank
/// line, and the help text.
pub open spec fn usage_message(reason: Seq<char>) -> Seq<char> {
    reason + "\n\n"@ + control_usage()
}

fn usage_error(reason: String) -> (e: ControlError)
    ensures
        e@ == ControlErrorModel::Usage(usage_message(reason@)),
{
    let mut m = reason;
    m.append("\n\n");
    let u = usage();
    m.append(u.as_str());
    ControlError::Usage(m)
}

/// Whether `arg` asks for help inside `switch-config`.
pub open spec fn is_help_flag(arg: Seq<char>) -> bool {
    arg == "-h"@ || arg == "--help"@
}

/// Whether `arg` is an option that takes the next argument as the active
/// path.
pub open spec fn is_active_flag(arg: Seq<char>) -> bool {
    arg == "-a"@ || arg == "--active"@
}

/// The reason given when `-a`, `--active` or `--active=` has no path.
pub open spec fn missing_active_reason() -> Seq<char> {
    "missing value for --active"@
}

/// The command that the arguments of `switch-config` give, read from
/// position `i` on after `active` and `target` were read before it, or the
/// message it is refused with. A help flag gives help at once; `--active`
/// sets the active path (a later one replacing an earlier one); any other
/// argument is the target, and a second one is refused.
pub open spec fn parse_switch_from(
    args: Seq<Seq<char>>,
    i: nat,
    active: Option<Seq<char>>,
    target: Option<Seq<char>>,
) -> Result<CommandModel, Seq<char>>
    decreases args.len() - i,
{
    if i >= args.len() {
        match target {
            Some(t) => Ok(CommandModel::SwitchConfig { target: t, active }),
            None => Err(usage_message("missing target config path"@)),
        }
    } else {
        let arg = args[i as int];
        if is_help_flag(arg) {
            Ok(CommandModel::Help)
        } else if is_active_flag(arg) {
            if i + 1 < args.len() {
                parse_switch_from(args, i + 2, Some(args[i + 1int]), target)
            } else {
                Err(usage_message(missing_active_reason()))
            }
        } else if starts_with(arg, "--active="@) {
            let path = arg.skip("--active="@.len() as int);
            if path.len() == 0 {
                Err(usage_message(missing_active_reason()))
            } else {
                parse_switch_from(args, i + 1, Some(path), target)
            }
        } else if target is Some {
            Err(usage_message("unexpected extra argument: "@ + arg))
        } else {
            parse_switch_from(args, i + 1, active, Some(arg))
        }
    }
}

/// The command that the arguments after `switch-config` give.
pub open spec fn parse_switch(args: Seq<Seq<char>>) -> Result<CommandModel, Seq<char>> {
    parse_switch_from(args, 0, None, None)
}

/// The command that the `kwybarsctl` command line `args` (program name left
/// out) gives, or the message it is refused with: no argument, or a first
/// argument `-h`, `--help` or `help`, asks for help; `switch-config` reads
/// the rest; any other command is refused.
pub open spec fn parse_command(args: Seq<Seq<char>>) -> Result<CommandModel, Seq<char>> {
    if args.len() == 0 {
        Ok(CommandModel::Help)
    } else {
        let first = args[0];
        if first == "-h"@ || first == "--help"@ || first == "help"@ {
            Ok(CommandModel::Help)
        } else if first == "switch-config"@ {
            parse_switch(args.drop_first())
        } else {
            Err(usage_message("unknown command: "@ + first))
        }
    }
}

/// `r` is what `expected` says: the same command, or a usage error with
/// the same message.
pub open spec fn command_matches(
    r: Result<Command, ControlError>,
    expected: Result<CommandModel, Seq<char>>,
) -> bool {
    match (r, expected) {
        (Ok(c), Ok(m)) => c@ == m,
        (Err(e), Err(msg)) => e@ == ControlErrorModel::Usage(msg),
        _ => false,
    }
}

/// Reads the `kwybarsctl` command line `args`, the program name left out.
pub fn parse_args(args: Vec<String>) -> (r: Result<Command, ControlError>)
    ensures
        command_matches(r, parse_command(args.deep_view())),
{
    let ghost model = args.deep_view();
    if args.len() == 0 {
        return Ok(Command::Help);
    }
    let mut rest = args;
    let command = rest.remove(0);
    assert(rest.deep_view() =~= model.drop_first());
    assert(command@ == model[0]);
    let c: &str = command.as_str();
    if same_text(c, "-h") || same_text(c, "--help") || same_text(c, "help") {
        Ok(Command::Help)
    } else if same_text(c, "switch-config") {
        parse_switch_config(rest)
    } else {
        let mut reason = String::from_str("unknown command: ");
        reason.append(c);
        Err(usage_error(reason))
    }
}

/// Reads the arguments after `switch-config`.
pub fn parse_switch_config(args: Vec<String>) -> (r: Result<Command, ControlError>)
    ensures
        command_matches(r, parse_switch(args.deep_view())),
{
    let ghost model = args.deep_view();
    let n = args.len();
    let mut active: Option<String> = None;
    let mut target: Option<String> = None;
    let mut i: usize = 0;
    while i < n
        invariant
            n == args@.len(),
            model == args.deep_view(),
            model.len() == n,
            i <= n,
            parse_switch(model) == parse_switch_from(
                model,
                i as nat,
                text_option(active),
                text_option(target),
            ),
        decreases n - i,
    {
        let arg: &str = args[i].as_str();
        assert(arg@ == model[i as int]);
        if same_text(arg, "-h") || same_text(arg, "--help") {
            return Ok(Command::Help);
        } else if same_text(arg, "-a") || same_text(arg, "--active") {
            if i + 1 >= n {
                return Err(usage_error(String::from_str("missing value for --active")));
            }
            active = Some(args[i + 1].clone());
            i = i + 2;
        } else {
            match strip_prefix_text(arg, "--active=") {
                Some(path) => {
                    if path.unicode_len() == 0 {
                        return Err(usage_error(String::from_str("missing value for --active")));
                    }
                    active = Some(path);
                    i = i + 1;
                },
                None => {
                    if target.is_some() {
                        let mut reason = String::from_str("unexpected extra argument: ");
                        reason.append(arg);
                        return Err(usage_error(reason));
                    }
                    target = Some(args[i].clone());
                    i = i + 1;
                },
            }
        }
    }
    match target {
        Some(t) => Ok(Command::SwitchConfig { target: t, active }),
        None => Err(usage_error(String::from_str("missing target config path"))),
    }
}


/// Whether `arg` is read as an option by `switch-config`.
pub open spec fn is_switch_option(arg: Seq<char>) -> bool {
    is_help_flag(arg) || is_active_flag(arg) || starts_with(arg, "--active="@)
}

/// The active path may come before or after the target, in either of its
/// forms: `--active a t`, `t --active a`, `--active=a t` and `t --active=a`
/// (the last two for a non-empty `a`) all switch the active path `a` to the
/// target `t`, for any `t` that is no option.
pub proof fn lemma_switch_order_free(a: Seq<char>, t: Seq<char>)
    requires
        !is_switch_option(t),
    ensures
        parse_switch(seq!["--active"@, a, t]) == Ok::<CommandModel, Seq<char>>(
            CommandModel::SwitchConfig { target: t, active: Some(a) },
        ),
        parse_switch(seq![t, "--active"@, a]) == Ok::<CommandModel, Seq<char>>(
            CommandModel::SwitchConfig { target: t, active: Some(a) },
        ),
        a.len() > 0 ==> parse_switch(seq!["--active="@ + a, t]) == Ok::<CommandModel, Seq<char>>(
            CommandModel::SwitchConfig { target: t, active: Some(a) },
        ),
        a.len() > 0 ==> parse_switch(seq![t, "--active="@ + a]) == Ok::<CommandModel, Seq<char>>(
            CommandModel::SwitchConfig { target: t, active: Some(a) },
        ),
{
    reveal_strlit("-h");
    reveal_strlit("--help");
    reveal_strlit("-a");
    reveal_strlit("--active");
    reveal_strlit("--active=");
    let flag = "--active"@;
    assert(is_active_flag(flag));
    assert(!is_help_flag(flag));
    let joined = "--active="@ + a;
    if a.len() > 0 {
        assert(joined.len() > 9);
        assert(!is_help_flag(joined));
        assert(!is_active_flag(joined));
        assert(joined.subrange(0, 9) =~= "--active="@);
        assert(joined.skip(9) =~= a);
    }
    let done = Ok::<CommandModel, Seq<char>>(CommandModel::SwitchConfig { target: t, active: Some(a) });
    let s1 = seq![flag, a, t];
    assert(s1[0] == flag && s1[1] == a && s1[2] == t);
    assert(parse_switch_from(s1, 3, Some(a), Some(t)) == done);
    assert(parse_switch_from(s1, 2, Some(a), None) == done);
    assert(parse_switch_from(s1, 0, None, None) == done);
    let s2 = seq![t, flag, a];
    assert(s2[0] == t && s2[1] == flag && s2[2] == a);
    assert(parse_switch_from(s2, 3, Some(a), Some(t)) == done);
    assert(parse_switch_from(s2, 1, None, Some(t)) == done);
    assert(parse_switch_from(s2, 0, None, None) == done);
    if a.len() > 0 {
        let s3 = seq![joined, t];
        assert(s3[0] == joined && s3[1] == t);
        assert(parse_switch_from(s3, 2, Some(a), Some(t)) == done);
        assert(parse_switch_from(s3, 1, Some(a), None) == done);
        assert(parse_switch_from(s3, 0, None, None) == done);
        let s4 = seq![t, joined];
        assert(s4[0] == t && s4[1] == joined);
        assert(parse_switch_from(s4, 2, Some(a), Some(t)) == done);
        assert(parse_switch_from(s4, 1, None, Some(t)) == done);
        assert(parse_switch_from(s4, 0, None, None) == done);
    }
}

/// A help flag in the arguments of `switch-config` gives help as soon as it
/// is met, whatever was read before it: an active path, a target, or both.
pub proof fn lemma_switch_help_wins(
    args: Seq<Seq<char>>,
    i: nat,
    active: Option<Seq<char>>,
    target: Option<Seq<char>>,
)
    requires
        i < args.len(),
        args[i as int] == "-h"@ || args[i as int] == "--help"@,
    ensures
        parse_switch_from(args, i, active, target) == Ok::<CommandModel, Seq<char>>(
            CommandModel::Help,
        ),
{
}

/// Help after arguments that are all accepted: `t --help`, `t -h` and
/// `--active a t -h` give help, for any `t` that is no option and any `a`.
pub proof fn lemma_switch_help_after_target(a: Seq<char>, t: Seq<char>)
    requires
        !is_switch_option(t),
    ensures
        parse_switch(seq![t, "--help"@]) == Ok::<CommandModel, Seq<char>>(CommandModel::Help),
        parse_switch(seq![t, "-h"@]) == Ok::<CommandModel, Seq<char>>(CommandModel::Help),
        parse_switch(seq!["--active"@, a, t, "-h"@]) == Ok::<CommandModel, Seq<char>>(
            CommandModel::Help,
        ),
{
    reveal_strlit("-h");
    reveal_strlit("--help");
    reveal_strlit("-a");
    reveal_strlit("--active");
    let help = Ok::<CommandModel, Seq<char>>(CommandModel::Help);
    let s1 = seq![t, "--help"@];
    assert(s1[0] == t && s1[1] == "--help"@);
    lemma_switch_help_wins(s1, 1, None, Some(t));
    assert(parse_switch_from(s1, 0, None, None) == help);
    let s2 = seq![t, "-h"@];
    assert(s2[0] == t && s2[1] == "-h"@);
    lemma_switch_help_wins(s2, 1, None, Some(t));
    assert(parse_switch_from(s2, 0, None, None) == help);
    let s3 = seq!["--active"@, a, t, "-h"@];
    assert(s3[0] == "--active"@ && s3[1] == a && s3[2] == t && s3[3] == "-h"@);
    assert(is_active_flag(s3[0]) && !is_help_flag(s3[0]));
    lemma_switch_help_wins(s3, 3, Some(a), Some(t));
    assert(parse_switch_from(s3, 2, Some(a), None) == help);
    assert(parse_switch_from(s3, 0, None, None) == help);
}

/// What the first argument decides: none, `-h`, `--help` or `help` give
/// help whatever follows; `switch-config` reads the rest as its arguments;
/// any other command `x` is refused, naming it, with the help text.
pub proof fn lemma_command_first_argument(x: Seq<char>, rest: Seq<Seq<char>>)
    ensures
        parse_command(Seq::<Seq<char>>::empty()) == Ok::<CommandModel, Seq<char>>(
            CommandModel::Help,
        ),
        parse_command(seq!["-h"@] + rest) == Ok::<CommandModel, Seq<char>>(CommandModel::Help),
        parse_command(seq!["--help"@] + rest) == Ok::<CommandModel, Seq<char>>(CommandModel::Help),
        parse_command(seq!["help"@] + rest) == Ok::<CommandModel, Seq<char>>(CommandModel::Help),
        parse_command(seq!["switch-config"@] + rest) == parse_switch(rest),
        x != "-h"@ && x != "--help"@ && x != "help"@ && x != "switch-config"@ ==> parse_command(
            seq![x] + rest,
        ) == Err::<CommandModel, Seq<char>>("unknown command: "@ + x + "\n\n"@ + control_usage()),
{
    reveal_strlit("-h");
    reveal_strlit("--help");
    reveal_strlit("help");
    reveal_strlit("switch-config");
    assert((seq!["-h"@] + rest)[0] == "-h"@);
    assert((seq!["--help"@] + rest)[0] == "--help"@);
    assert((seq!["help"@] + rest)[0] == "help"@);
    assert((seq!["switch-config"@] + rest)[0] == "switch-config"@);
    assert((seq!["switch-config"@] + rest).drop_first() =~= rest);
    assert((seq![x] + rest)[0] == x);
}

/// The arguments of `switch-config` one kind at a time: nothing is refused
/// for want of a target; a lone argument `t` that is no option is the
/// target, with the default active path; a second such argument `u` is
/// refused, naming it; `-a` or `--active=` without a path is refused; and a
/// later active path replaces an earlier one.
pub proof fn lemma_switch_arguments(t: Seq<char>, u: Seq<char>, a1: Seq<char>, a2: Seq<char>)
    requires
        !is_switch_option(t),
        !is_switch_option(u),
    ensures
        parse_switch(Seq::<Seq<char>>::empty()) == Err::<CommandModel, Seq<char>>(
            "missing target config path"@ + "\n\n"@ + control_usage(),
        ),
        parse_switch(seq![t]) == Ok::<CommandModel, Seq<char>>(
            CommandModel::SwitchConfig { target: t, active: None },
        ),
        parse_switch(seq![t, u]) == Err::<CommandModel, Seq<char>>(
            "unexpected extra argument: "@ + u + "\n\n"@ + control_usage(),
        ),
        parse_switch(seq![t, "-a"@]) == Err::<CommandModel, Seq<char>>(
            "missing value for --active"@ + "\n\n"@ + control_usage(),
        ),
        parse_switch(seq!["--active="@, t]) == Err::<CommandModel, Seq<char>>(
            "missing value for --active"@ + "\n\n"@ + control_usage(),
        ),
        parse_switch(seq!["-a"@, a1, "--active"@, a2, t]) == Ok::<CommandModel, Seq<char>>(
            CommandModel::SwitchConfig { target: t, active: Some(a2) },
        ),
{
    reveal_strlit("-h");
    reveal_strlit("--help");
    reveal_strlit("-a");
    reveal_strlit("--active");
    reveal_strlit("--active=");
    let s1 = seq![t];
    assert(s1[0] == t);
    assert(parse_switch_from(s1, 1, None, Some(t)) == Ok::<CommandModel, Seq<char>>(
        CommandModel::SwitchConfig { target: t, active: None },
    ));
    let s2 = seq![t, u];
    assert(s2[0] == t && s2[1] == u);
    assert(parse_switch_from(s2, 1, None, Some(t)) == Err::<CommandModel, Seq<char>>(
        "unexpected extra argument: "@ + u + "\n\n"@ + control_usage(),
    ));
    assert("-a"@[1] != "-h"@[1]);
    let s3 = seq![t, "-a"@];
    assert(s3[0] == t && s3[1] == "-a"@);
    assert(is_active_flag(s3[1]) && !is_help_flag(s3[1]));
    assert(parse_switch_from(s3, 1, None, Some(t)) == Err::<CommandModel, Seq<char>>(
        "missing value for --active"@ + "\n\n"@ + control_usage(),
    ));
    let s4 = seq!["--active="@, t];
    assert(s4[0] == "--active="@);
    assert(!is_help_flag(s4[0]) && !is_active_flag(s4[0]));
    assert(s4[0].subrange(0, 9) =~= "--active="@);
    assert(s4[0].skip(9).len() == 0);
    assert("--active"@[2] != "--help"@[2]);
    let s5 = seq!["-a"@, a1, "--active"@, a2, t];
    assert(s5[0] == "-a"@ && s5[1] == a1 && s5[2] == "--active"@ && s5[3] == a2 && s5[4] == t);
    assert(is_active_flag(s5[0]) && !is_help_flag(s5[0]));
    assert(is_active_flag(s5[2]) && !is_help_flag(s5[2]));
    let done = Ok::<CommandModel, Seq<char>>(CommandModel::SwitchConfig { target: t, active: Some(a2) });
    assert(parse_switch_from(s5, 5, Some(a2), Some(t)) == done);
    assert(parse_switch_from(s5, 4, Some(a2), None) == done);
    assert(parse_switch_from(s5, 2, Some(a1), None) == done);
}

/// The error for a target path that does not exist; `path` as displayed.
pub fn target_missing_error(path: &str) -> (e: ControlError)
    ensures
        e@ == ControlErrorModel::InvalidTarget("target config does not exist: "@ + path@),
{
    let mut m = String::from_str("target config does not exist: ");
    m.append(path);
    ControlError::InvalidTarget(m)
}

/// The error for a target that is no regular file; `path` is its canonical
/// path as displayed.
pub fn target_not_file_error(path: &str) -> (e: ControlError)
    ensures
        e@ == ControlErrorModel::InvalidTarget("target config is not a file: "@ + path@),
{
    let mut m = String::from_str("target config is not a file: ");
    m.append(path);
    ControlError::InvalidTarget(m)
}

/// The error for an active path without a parent directory.
pub fn no_parent_error(active: &str) -> (e: ControlError)
    ensures
        e@ == ControlErrorModel::InvalidTarget(
            "active config path has no parent directory: "@ + active@,
        ),
{
    let mut m = String::from_str("active config path has no parent directory: ");
    m.append(active);
    ControlError::InvalidTarget(m)
}

/// The report when the active path already leads to the target.
pub fn already_active_message(target: &str) -> (r: String)
    ensures
        r@ == "active config already points to "@ + target@,
{
    let mut m = String::from_str("active config already points to ");
    m.append(target);
    m
}

/// The report after the active path was pointed at the target.
pub fn switched_message(active: &str, target: &str) -> (r: String)
    ensures
        r@ == "switched active config "@ + active@ + " -> "@ + target@,
{
    let mut m = String::from_str("switched active config ");
    m.append(active);
    m.append(" -> ");
    m.append(target);
    m
}

/// The name, in the active path's directory, of the link that process
/// `pid` makes before it moves it over the active path.
pub fn temp_link_name(pid: u32) -> (r: String)
    ensures
        r@ == ".kwybarsctl-"@ + decimal(pid as nat) + ".tmp"@,
{
    let mut m = String::from_str(".kwybarsctl-");
    let digits = decimal_text(pid as u64);
    m.append(digits.as_str());
    m.append(".tmp");
    m
}

/// The name of the backup copy of the active file whose name is
/// `file_name` (`config.toml` when it has no name that is valid text):
/// that name with `.bak` appended.
pub fn backup_file_name(file_name: Option<&str>) -> (r: String)
    ensures
        r@ == match file_name {
            Some(name) => name@,
            None => "config.toml"@,
        } + ".bak"@,
{
    let mut m = match file_name {
        Some(name) => String::from_str(name),
        None => String::from_str("config.toml"),
    };
    m.append(".bak");
    m
}

/// Whether the file at the active path is backed up before it is replaced
/// by a link: only a regular file that is no symbolic link is.
pub fn should_back_up(is_symlink: bool, is_file: bool) -> (r: bool)
    ensures
        r == (!is_symlink && is_file),
{
    !is_symlink && is_file
}

} // verus!
