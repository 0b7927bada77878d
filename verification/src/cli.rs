//! Desktop process argument parsing.

use vstd::prelude::*;

use crate::text::{parse_unsigned, unsigned_value};

verus! {

/// The usage line printed for `--help` and after an argument error.
pub const USAGE: &'static str = "Usage: dreadstep [--seed <u64>] [--procedural] [--depth <u32>] [--log-dir <path>] [--smoke] [--help]";

/// Parsed command-line options for the desktop process.
#[derive(Clone, Debug, PartialEq, Eq)]
pub struct DesktopOptions {
    /// Seed passed to the deterministic scenario.
    pub seed: u64,
    /// Start the visible client from the seeded procedural floor instead of the item fixture.
    pub procedural: bool,
    /// One-based depth passed to the procedural floor generator.
    pub depth: u32,
    /// Directory in which this run's journal is created.
    pub log_dir: String,
    /// Run the display-free deterministic showcase sequence.
    pub smoke: bool,
}

/// The options as plain values: `(seed, procedural, depth, log_dir, smoke)`.
pub type OptionsView = (u64, bool, u32, Seq<char>, bool);

impl View for DesktopOptions {
    type V = OptionsView;

    open spec fn view(&self) -> OptionsView {
        (self.seed, self.procedural, self.depth, self.log_dir@, self.smoke)
    }
}

/// The defaults: seed 7, the item fixture, depth 1, `dreadstep-logs`, no smoke run.
pub open spec fn default_options() -> OptionsView {
    (7, false, 1, "dreadstep-logs"@, false)
}

impl Default for DesktopOptions {
    /// Returns the default options.
    fn default() -> (r: Self)
        ensures
            r@ == default_options(),
    {
        DesktopOptions {
            seed: 7,
            procedural: false,
            depth: 1,
            log_dir: String::from_str("dreadstep-logs"),
            smoke: false,
        }
    }
}

/// Either a request for help or options to run with.
#[derive(Clone, Debug, PartialEq, Eq)]
pub enum ParseResult {
    Help,
    Options(DesktopOptions),
}

/// Which options have appeared so far: `(seed, procedural, depth, log_dir, smoke, help)`.
pub type Seen = (bool, bool, bool, bool, bool, bool);

/// An argument that names one of the options, which can never serve as an option's value.
pub open spec fn is_option_name(s: Seq<char>) -> bool {
    s == "--help"@ || s == "-h"@ || s == "--seed"@ || s == "--procedural"@ || s == "--depth"@
        || s == "--log-dir"@ || s == "--smoke"@
}

/// The result of reading `args[i..]` with options `o` so far and options `seen` already given:
/// `Ok((options, help))` or the first error, in argument order.
pub open spec fn spec_parse_from(args: Seq<Seq<char>>, i: int, o: OptionsView, seen: Seen) -> Result<
    (OptionsView, bool),
    Seq<char>,
>
    decreases args.len() - i,
{
    if i < 0 || i >= args.len() {
        Ok((o, seen.5))
    } else {
        let a = args[i];
        let value_missing = i + 1 >= args.len() || is_option_name(args[i + 1]);
        if a == "--help"@ || a == "-h"@ {
            if seen.5 {
                Err("duplicate --help"@)
            } else {
                spec_parse_from(args, i + 1, o, (seen.0, seen.1, seen.2, seen.3, seen.4, true))
            }
        } else if a == "--smoke"@ {
            if seen.4 {
                Err("duplicate --smoke"@)
            } else {
                spec_parse_from(
                    args,
                    i + 1,
                    (o.0, o.1, o.2, o.3, true),
                    (seen.0, seen.1, seen.2, seen.3, true, seen.5),
                )
            }
        } else if a == "--procedural"@ {
            if seen.1 {
                Err("duplicate --procedural"@)
            } else {
                spec_parse_from(
                    args,
                    i + 1,
                    (o.0, true, o.2, o.3, o.4),
                    (seen.0, true, seen.2, seen.3, seen.4, seen.5),
                )
            }
        } else if a == "--seed"@ {
            if seen.0 {
                Err("duplicate --seed"@)
            } else if value_missing {
                Err("--seed requires a value"@)
            } else {
                match unsigned_value(args[i + 1]) {
                    Some(n) if n <= u64::MAX => spec_parse_from(
                        args,
                        i + 2,
                        (n as u64, o.1, o.2, o.3, o.4),
                        (true, seen.1, seen.2, seen.3, seen.4, seen.5),
                    ),
                    _ => Err("--seed must be an unsigned integer"@),
                }
            }
        } else if a == "--depth"@ {
            if seen.2 {
                Err("duplicate --depth"@)
            } else if value_missing {
                Err("--depth requires a value"@)
            } else {
                match unsigned_value(args[i + 1]) {
                    Some(n) if n <= u32::MAX => spec_parse_from(
                        args,
                        i + 2,
                        (o.0, o.1, n as u32, o.3, o.4),
                        (seen.0, seen.1, true, seen.3, seen.4, seen.5),
                    ),
                    _ => Err("--depth must be an unsigned integer"@),
                }
            }
        } else if a == "--log-dir"@ {
            if seen.3 {
                Err("duplicate --log-dir"@)
            } else if value_missing || args[i + 1].len() == 0 {
                Err("--log-dir requires a path"@)
            } else {
                spec_parse_from(
                    args,
                    i + 2,
                    (o.0, o.1, o.2, args[i + 1], o.4),
                    (seen.0, seen.1, seen.2, true, seen.4, seen.5),
                )
            }
        } else {
            Err("unknown argument "@ + a)
        }
    }
}

/// The outcome of parsing a whole argument list, starting from the defaults.
pub open spec fn spec_parse_options(args: Seq<Seq<char>>) -> Result<(OptionsView, bool), Seq<char>> {
    spec_parse_from(args, 0, default_options(), (false, false, false, false, false, false))
}

/// The views of a list of strings.
pub open spec fn string_views(args: Seq<String>) -> Seq<Seq<char>> {
    args.map_values(|s: String| s@)
}

fn equals(s: &String, literal: &str) -> (r: bool)
    ensures
        r == (s@ == literal@),
{
    let lit = String::from_str(literal);
    *s == lit
}

fn is_option_name_exec(s: &String) -> (r: bool)
    ensures
        r == is_option_name(s@),
{
    equals(s, "--help") || equals(s, "-h") || equals(s, "--seed") || equals(s, "--procedural")
        || equals(s, "--depth") || equals(s, "--log-dir") || equals(s, "--smoke")
}

/// Parses desktop process arguments, the program name excluded.
///
/// Each option may appear at most once; `--seed`, `--depth` and `--log-dir` take the next
/// argument as their value, which must not itself name an option. The first problem, in
/// argument order, is reported as the error.
pub fn parse_options(arguments: Vec<String>) -> (r: Result<ParseResult, String>)
    ensures
        match spec_parse_options(string_views(arguments@)) {
            Ok((o, help)) => match r {
                Ok(ParseResult::Help) => help,
                Ok(ParseResult::Options(options)) => !help && options@ == o,
                Err(_) => false,
            },
            Err(e) => r matches Err(msg) && msg@ == e,
        },
{
    let ghost args = string_views(arguments@);
    let mut options = DesktopOptions::default();
    let mut seen: (bool, bool, bool, bool, bool, bool) = (false, false, false, false, false, false);
    let n = arguments.len();
    let mut i: usize = 0;
    while i < n
        invariant
            n == arguments@.len(),
            args == string_views(arguments@),
            args.len() == n,
            i <= n,
            spec_parse_options(args) == spec_parse_from(args, i as int, options@, seen),
        decreases n - i,
    {
        let a = &arguments[i];
        assert(args[i as int] == a@);
        let value_missing = i + 1 >= n || is_option_name_exec(&arguments[i + 1]);
        proof {
            if i + 1 < n {
                assert(args[i + 1] == arguments@[i + 1]@);
            }
        }
        if equals(a, "--help") || equals(a, "-h") {
            if seen.5 {
                return Err(String::from_str("duplicate --help"));
            }
            seen.5 = true;
            i += 1;
        } else if equals(a, "--smoke") {
            if seen.4 {
                return Err(String::from_str("duplicate --smoke"));
            }
            seen.4 = true;
            options.smoke = true;
            i += 1;
        } else if equals(a, "--procedural") {
            if seen.1 {
                return Err(String::from_str("duplicate --procedural"));
            }
            seen.1 = true;
            options.procedural = true;
            i += 1;
        } else if equals(a, "--seed") {
            if seen.0 {
                return Err(String::from_str("duplicate --seed"));
            }
            if value_missing {
                return Err(String::from_str("--seed requires a value"));
            }
            match parse_unsigned(arguments[i + 1].as_str(), u64::MAX) {
                Some(v) => {
                    seen.0 = true;
                    options.seed = v;
                },
                None => {
                    return Err(String::from_str("--seed must be an unsigned integer"));
                },
            }
            i += 2;
        } else if equals(a, "--depth") {
            if seen.2 {
                return Err(String::from_str("duplicate --depth"));
            }
            if value_missing {
                return Err(String::from_str("--depth requires a value"));
            }
            match parse_unsigned(arguments[i + 1].as_str(), u32::MAX as u64) {
                Some(v) => {
                    seen.2 = true;
                    options.depth = v as u32;
                },
                None => {
                    return Err(String::from_str("--depth must be an unsigned integer"));
                },
            }
            i += 2;
        } else if equals(a, "--log-dir") {
            if seen.3 {
                return Err(String::from_str("duplicate --log-dir"));
            }
            if value_missing || arguments[i + 1].as_str().unicode_len() == 0 {
                return Err(String::from_str("--log-dir requires a path"));
            }
            seen.3 = true;
            options.log_dir = arguments[i + 1].clone();
            i += 2;
        } else {
            let mut e = String::from_str("unknown argument ");
            e.append(a.as_str());
            return Err(e);
        }
    }
    if seen.5 {
        Ok(ParseResult::Help)
    } else {
        Ok(ParseResult::Options(options))
    }
}

} // verus!
