//! The standard command line of the Kwybars programs:
//! `[--config <path>]` and `[--help]`.
use crate::text::{same_text, starts_with, strip_prefix_text};
use vstd::prelude::*;
use vstd::string::StrSliceExecFns;
use vstd::string::StringExecFns;

verus! {

/// What the command line asks for.
#[derive(Debug, Clone, PartialEq, Eq)]
pub struct CliOptions {
    pub config_path: Option<String>,
    pub show_help: bool,
}

/// The options as values: the config path's characters and the help flag.
pub struct CliModel {
    pub config_path: Option<Seq<char>>,
    pub show_help: bool,
}

/// The options that an empty command line gives.
pub open spec fn no_options() -> CliModel {
    CliModel { config_path: None, show_help: false }
}

impl View for CliOptions {
    type V = CliModel;

    open spec fn view(&self) -> CliModel {
        CliModel {
            config_path: match self.config_path {
                Some(p) => Some(p@),
                None => None,
            },
            show_help: self.show_help,
        }
    }
}

impl Default for CliOptions {
    fn default() -> (r: CliOptions)
        ensures
            r@ == no_options(),
    {
        CliOptions { config_path: None, show_help: false }
    }
}

/// A command line that cannot be read, with the reason.
#[derive(Debug, Clone, PartialEq, Eq)]
pub struct CliArgError {
    message: String,
}

impl View for CliArgError {
    type V = Seq<char>;

    closed spec fn view(&self) -> Seq<char> {
        self.message@
    }
}

impl CliArgError {
    /// The error with the reason `message`.
    pub fn new(message: String) -> (r: CliArgError)
        ensures
            r@ == message@,
    {
        CliArgError { message }
    }

    /// The reason.
    pub fn message(&self) -> (r: &str)
        ensures
            r@ == self@,
    {
        self.message.as_str()
    }
}

/// The reason given when `-c`, `--config` or `--config=` has no path.
pub open spec fn missing_config_message() -> Seq<char> {
    "missing value for --config"@
}

/// The reason given for an argument that is no option.
pub open spec fn unknown_argument_message(arg: Seq<char>) -> Seq<char> {
    "unknown argument: "@ + arg
}

/// Whether `arg` asks for help.
pub open spec fn is_help_flag(arg: Seq<char>) -> bool {
    arg == "-h"@ || arg == "--help"@
}

/// Whether `arg` is an option that takes the next argument as its path.
pub open spec fn is_config_flag(arg: Seq<char>) -> bool {
    arg == "-c"@ || arg == "--config"@
}

/// The options after reading `args` from position `i` on, having read
/// `acc` from the arguments before: a help flag sets `show_help`, a config
/// option sets the path (a later one replacing an earlier one), anything
/// else is refused with its reason.
pub open spec fn parse_cli_from(args: Seq<Seq<char>>, i: nat, acc: CliModel) -> Result<
    CliModel,
    Seq<char>,
>
    decreases args.len() - i,
{
    if i >= args.len() {
        Ok(acc)
    } else {
        let arg = args[i as int];
        if is_help_flag(arg) {
            parse_cli_from(args, i + 1, CliModel { config_path: acc.config_path, show_help: true })
        } else if is_config_flag(arg) {
            if i + 1 < args.len() {
                parse_cli_from(
                    args,
                    i + 2,
                    CliModel { config_path: Some(args[i + 1int]), show_help: acc.show_help },
                )
            } else {
                Err(missing_config_message())
            }
        } else if starts_with(arg, "--config="@) {
            let path = arg.skip("--config="@.len() as int);
            if path.len() == 0 {
                Err(missing_config_message())
            } else {
                parse_cli_from(
                    args,
                    i + 1,
                    CliModel { config_path: Some(path), show_help: acc.show_help },
                )
            }
        } else {
            Err(unknown_argument_message(arg))
        }
    }
}

/// The options that the command line `args` (program name left out) gives,
/// or the reason it is refused.
pub open spec fn parse_cli(args: Seq<Seq<char>>) -> Result<CliModel, Seq<char>> {
    parse_cli_from(args, 0, no_options())
}

/// Reads the command line `args`, the program name left out.
pub fn parse_from_iter(args: Vec<String>) -> (r: Result<CliOptions, CliArgError>)
    ensures
        match (r, parse_cli(args.deep_view())) {
            (Ok(options), Ok(model)) => options@ == model,
            (Err(e), Err(reason)) => e@ == reason,
            _ => false,
        },
{
    let ghost model = args.deep_view();
    let mut options = CliOptions::default();
    let n = args.len();
    let mut i: usize = 0;
    while i < n
        invariant
            n == args@.len(),
            model == args.deep_view(),
            model.len() == n,
            i <= n,
            parse_cli(model) == parse_cli_from(model, i as nat, options@),
        decreases n - i,
    {
        let arg: &str = args[i].as_str();
        assert(arg@ == model[i as int]);
        if same_text(arg, "-h") || same_text(arg, "--help") {
            options.show_help = true;
            i = i + 1;
        } else if same_text(arg, "-c") || same_text(arg, "--config") {
            if i + 1 >= n {
                return Err(CliArgError::new(String::from_str("missing value for --config")));
            }
            options.config_path = Some(args[i + 1].clone());
            i = i + 2;
        } else {
            match strip_prefix_text(arg, "--config=") {
                Some(path) => {
                    if path.unicode_len() == 0 {
                        return Err(CliArgError::new(String::from_str("missing value for --config")));
                    }
                    options.config_path = Some(path);
                    i = i + 1;
                },
                None => {
                    let mut reason = String::from_str("unknown argument: ");
                    reason.append(arg);
                    return Err(CliArgError::new(reason));
                },
            }
        }
    }
    Ok(options)
}

/// The help text for the program `binary_name`.
pub open spec fn cli_usage(binary_name: Seq<char>) -> Seq<char> {
    "Usage: "@ + binary_name + " [--config <path>]\n       "@ + binary_name
        + " [--help]\n\nOptions:\n  -c, --config <path>  Load config.toml from a specific path\n  -h, --help           Show this help message"@
}

/// The help text for the program `binary_name`.
pub fn usage(binary_name: &str) -> (r: String)
    ensures
        r@ == cli_usage(binary_name@),
{
    let mut r = String::from_str("Usage: ");
    r.append(binary_name);
    r.append(" [--config <path>]\n       ");
    r.append(binary_name);
    r.append(
        " [--help]\n\nOptions:\n  -c, --config <path>  Load config.toml from a specific path\n  -h, --help           Show this help message",
    );
    r
}


/// The options `earlier` after reading more arguments that gave `later`:
/// a path from `later` replaces the earlier one, and help stays asked for.
pub open spec fn merge_options(earlier: CliModel, later: CliModel) -> CliModel {
    CliModel {
        config_path: if later.config_path is Some {
            later.config_path
        } else {
            earlier.config_path
        },
        show_help: earlier.show_help || later.show_help,
    }
}

/// Whether reading `args` from position `i` on stops at a final `-c` or
/// `--config` that still waits for its path.
pub open spec fn waits_for_value(args: Seq<Seq<char>>, i: nat) -> bool
    decreases args.len() - i,
{
    if i >= args.len() {
        false
    } else {
        let arg = args[i as int];
        if is_help_flag(arg) {
            waits_for_value(args, i + 1)
        } else if is_config_flag(arg) {
            if i + 1 < args.len() {
                waits_for_value(args, i + 2)
            } else {
                true
            }
        } else if starts_with(arg, "--config="@) {
            if arg.skip("--config="@.len() as int).len() == 0 {
                false
            } else {
                waits_for_value(args, i + 1)
            }
        } else {
            false
        }
    }
}

/// Reading past a first part of the arguments is reading the rest.
proof fn lemma_parse_shift(a: Seq<Seq<char>>, b: Seq<Seq<char>>, j: nat, acc: CliModel)
    ensures
        parse_cli_from(a + b, a.len() + j, acc) == parse_cli_from(b, j, acc),
    decreases b.len() - j,
{
    let ab = a + b;
    if j < b.len() {
        let arg = b[j as int];
        assert(ab[(a.len() + j) as int] == arg);
        if is_help_flag(arg) {
            lemma_parse_shift(a, b, j + 1, CliModel { config_path: acc.config_path, show_help: true });
        } else if is_config_flag(arg) {
            if j + 1 < b.len() {
                assert(ab[(a.len() + j + 1) as int] == b[j + 1int]);
                lemma_parse_shift(
                    a,
                    b,
                    j + 2,
                    CliModel { config_path: Some(b[j + 1int]), show_help: acc.show_help },
                );
            }
        } else if starts_with(arg, "--config="@) {
            let path = arg.skip("--config="@.len() as int);
            if path.len() != 0 {
                lemma_parse_shift(
                    a,
                    b,
                    j + 1,
                    CliModel { config_path: Some(path), show_help: acc.show_help },
                );
            }
        }
    }
}

/// Reading with options `acc` already read merges `acc` with what the same
/// arguments give from scratch.
proof fn lemma_parse_from_acc(b: Seq<Seq<char>>, j: nat, acc: CliModel)
    ensures
        parse_cli_from(b, j, acc) == match parse_cli_from(b, j, no_options()) {
            Ok(r) => Ok(merge_options(acc, r)),
            Err(e) => Err(e),
        },
    decreases b.len() - j,
{
    if j < b.len() {
        let arg = b[j as int];
        if is_help_flag(arg) {
            let h = CliModel { config_path: acc.config_path, show_help: true };
            let h0 = CliModel { config_path: None, show_help: true };
            lemma_parse_from_acc(b, j + 1, h);
            lemma_parse_from_acc(b, j + 1, h0);
        } else if is_config_flag(arg) {
            if j + 1 < b.len() {
                let c = CliModel { config_path: Some(b[j + 1int]), show_help: acc.show_help };
                let c0 = CliModel { config_path: Some(b[j + 1int]), show_help: false };
                lemma_parse_from_acc(b, j + 2, c);
                lemma_parse_from_acc(b, j + 2, c0);
            }
        } else if starts_with(arg, "--config="@) {
            let path = arg.skip("--config="@.len() as int);
            if path.len() != 0 {
                let c = CliModel { config_path: Some(path), show_help: acc.show_help };
                let c0 = CliModel { config_path: Some(path), show_help: false };
                lemma_parse_from_acc(b, j + 1, c);
                lemma_parse_from_acc(b, j + 1, c0);
            }
        }
    }
}

proof fn lemma_parse_split_from(a: Seq<Seq<char>>, b: Seq<Seq<char>>, i: nat, acc: CliModel)
    requires
        i <= a.len(),
        !waits_for_value(a, i),
    ensures
        parse_cli_from(a + b, i, acc) == match parse_cli_from(a, i, acc) {
            Ok(o) => parse_cli_from(b, 0, o),
            Err(e) => Err(e),
        },
    decreases a.len() - i,
{
    let ab = a + b;
    if i == a.len() {
        lemma_parse_shift(a, b, 0, acc);
    } else {
        let arg = a[i as int];
        assert(ab[i as int] == arg);
        if is_help_flag(arg) {
            lemma_parse_split_from(a, b, i + 1, CliModel { config_path: acc.config_path, show_help: true });
        } else if is_config_flag(arg) {
            assert(ab[i + 1int] == a[i + 1int]);
            lemma_parse_split_from(
                a,
                b,
                i + 2,
                CliModel { config_path: Some(a[i + 1int]), show_help: acc.show_help },
            );
        } else if starts_with(arg, "--config="@) {
            let path = arg.skip("--config="@.len() as int);
            if path.len() != 0 {
                lemma_parse_split_from(
                    a,
                    b,
                    i + 1,
                    CliModel { config_path: Some(path), show_help: acc.show_help },
                );
            }
        }
    }
}

/// Reading a command line in two parts: when no option at the end of the
/// first part `a` waits for its path, reading `a + b` gives the error of
/// `a`, else the error of `b`, else the options of `a` merged with those of
/// `b` (a later path wins, help stays asked for).
pub proof fn lemma_parse_cli_split(a: Seq<Seq<char>>, b: Seq<Seq<char>>)
    requires
        !waits_for_value(a, 0),
    ensures
        parse_cli(a + b) == match parse_cli(a) {
            Err(e) => Err(e),
            Ok(o) => match parse_cli(b) {
                Ok(r) => Ok(merge_options(o, r)),
                Err(e) => Err(e),
            },
        },
{
    lemma_parse_split_from(a, b, 0, no_options());
    if let Ok(o) = parse_cli(a) {
        lemma_parse_from_acc(b, 0, o);
    }
}

/// For a non-empty `path`, `--config path` and `--config=path` read alike,
/// after any arguments `a` that leave no option waiting for its path and
/// before any arguments `b`.
pub proof fn lemma_config_forms_agree(a: Seq<Seq<char>>, path: Seq<char>, b: Seq<Seq<char>>)
    requires
        !waits_for_value(a, 0),
        path.len() > 0,
    ensures
        parse_cli(a + seq!["--config"@, path] + b) == parse_cli(a + seq!["--config="@ + path] + b),
{
    reveal_strlit("-h");
    reveal_strlit("--help");
    reveal_strlit("-c");
    reveal_strlit("--config");
    reveal_strlit("--config=");
    let spaced: Seq<Seq<char>> = seq!["--config"@, path];
    let joined_arg = "--config="@ + path;
    let joined: Seq<Seq<char>> = seq![joined_arg];
    assert(a + spaced + b =~= a + (spaced + b));
    assert(a + joined + b =~= a + (joined + b));
    lemma_parse_cli_split(a, spaced + b);
    lemma_parse_cli_split(a, joined + b);
    assert(is_config_flag(spaced[0]));
    assert(!is_help_flag(spaced[0]));
    assert(!waits_for_value(spaced, 2));
    assert(!waits_for_value(spaced, 0));
    lemma_parse_cli_split(spaced, b);
    assert(joined_arg.len() > 9);
    assert(!is_help_flag(joined_arg));
    assert(!is_config_flag(joined_arg));
    assert(joined_arg.subrange(0, 9) =~= "--config="@);
    assert(joined_arg.skip(9) =~= path);
    assert(!waits_for_value(joined, 1));
    assert(!waits_for_value(joined, 0));
    lemma_parse_cli_split(joined, b);
    assert(parse_cli_from(spaced, 2, CliModel { config_path: Some(path), show_help: false }) == Ok::<CliModel, Seq<char>>(CliModel { config_path: Some(path), show_help: false }));
    assert(parse_cli_from(joined, 1, CliModel { config_path: Some(path), show_help: false }) == Ok::<CliModel, Seq<char>>(CliModel { config_path: Some(path), show_help: false }));
}


/// What each kind of argument does on its own: nothing gives no options;
/// `-h` and `--help` ask for help; `-c p`, `--config p` and (for a
/// non-empty `p`) `--config=p` set the path `p`; a config option without a
/// path is refused; any other argument `x` is refused as unknown. With
/// `lemma_parse_cli_split` this fixes what every command line reads as.
pub proof fn lemma_cli_arguments_alone(p: Seq<char>, x: Seq<char>)
    ensures
        parse_cli(Seq::<Seq<char>>::empty()) == Ok::<CliModel, Seq<char>>(
            CliModel { config_path: None, show_help: false },
        ),
        parse_cli(seq!["-h"@]) == Ok::<CliModel, Seq<char>>(
            CliModel { config_path: None, show_help: true },
        ),
        parse_cli(seq!["--help"@]) == Ok::<CliModel, Seq<char>>(
            CliModel { config_path: None, show_help: true },
        ),
        parse_cli(seq!["-c"@, p]) == Ok::<CliModel, Seq<char>>(
            CliModel { config_path: Some(p), show_help: false },
        ),
        parse_cli(seq!["--config"@, p]) == Ok::<CliModel, Seq<char>>(
            CliModel { config_path: Some(p), show_help: false },
        ),
        p.len() > 0 ==> parse_cli(seq!["--config="@ + p]) == Ok::<CliModel, Seq<char>>(
            CliModel { config_path: Some(p), show_help: false },
        ),
        parse_cli(seq!["-c"@]) == Err::<CliModel, Seq<char>>("missing value for --config"@),
        parse_cli(seq!["--config"@]) == Err::<CliModel, Seq<char>>("missing value for --config"@),
        parse_cli(seq!["--config="@]) == Err::<CliModel, Seq<char>>("missing value for --config"@),
        x != "-h"@ && x != "--help"@ && x != "-c"@ && x != "--config"@ && !(x.len() >= 9
            && x.take(9) == "--config="@) ==> parse_cli(seq![x]) == Err::<CliModel, Seq<char>>(
            "unknown argument: "@ + x,
        ),
{
    reveal_strlit("-h");
    reveal_strlit("--help");
    reveal_strlit("-c");
    reveal_strlit("--config");
    reveal_strlit("--config=");
    assert("-c"@[1] != "-h"@[1]);
    let none_help = CliModel { config_path: None, show_help: true };
    let h1 = seq!["-h"@];
    assert(h1[0] == "-h"@);
    assert(parse_cli_from(h1, 1, none_help) == Ok::<CliModel, Seq<char>>(none_help));
    let h2 = seq!["--help"@];
    assert(h2[0] == "--help"@);
    assert(parse_cli_from(h2, 1, none_help) == Ok::<CliModel, Seq<char>>(none_help));
    let c1 = seq!["-c"@, p];
    assert(c1[0] == "-c"@ && c1[1] == p);
    assert(!is_help_flag(c1[0]));
    let with_p = CliModel { config_path: Some(p), show_help: false };
    assert(parse_cli_from(c1, 2, with_p) == Ok::<CliModel, Seq<char>>(with_p));
    let c2 = seq!["--config"@, p];
    assert(c2[0] == "--config"@ && c2[1] == p);
    assert(!is_help_flag(c2[0]));
    assert(parse_cli_from(c2, 2, with_p) == Ok::<CliModel, Seq<char>>(with_p));
    let joined = "--config="@ + p;
    let j = seq![joined];
    assert(j[0] == joined);
    assert(joined.subrange(0, 9) =~= "--config="@);
    assert(joined.skip(9) =~= p);
    if p.len() > 0 {
        assert(!is_help_flag(joined) && !is_config_flag(joined));
        assert(parse_cli_from(j, 1, with_p) == Ok::<CliModel, Seq<char>>(with_p));
    }
    let e1 = seq!["-c"@];
    assert(e1[0] == "-c"@);
    let e2 = seq!["--config"@];
    assert(e2[0] == "--config"@);
    let e3 = seq!["--config="@];
    assert(e3[0] == "--config="@);
    assert(!is_help_flag(e3[0]) && !is_config_flag(e3[0]));
    assert(e3[0].subrange(0, 9) =~= "--config="@);
    assert(e3[0].skip(9).len() == 0);
    let u = seq![x];
    assert(u[0] == x);
    if x.len() >= 9 {
        assert(x.subrange(0, 9) =~= x.take(9));
    }
}

} // verus!
