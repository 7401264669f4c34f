//! Command-line argument parsing for the daemon: the pure rules, from the
//! argument strings to a parsed command or an error message. Reading the
//! process's arguments, printing usage, and exiting stay in the binary.

use vstd::prelude::*;
use vstd::string::StringExecFns;
use crate::text;

verus! {

/// Mathematical image of `Args`.
pub struct ArgsView {
    pub parent_pid: u32,
    pub foreground: bool,
    pub socket_path: Option<Seq<char>>,
    pub log_path: Option<Seq<char>>,
}

/// The daemon's command-line options.
#[derive(Debug, Clone)]
pub struct Args {
    /// Parent process to monitor.
    pub parent_pid: u32,
    /// Stay in the foreground instead of detaching.
    pub foreground: bool,
    /// Socket path override.
    pub socket_path: Option<String>,
    /// Event-log path override.
    pub log_path: Option<String>,
}

impl View for Args {
    type V = ArgsView;

    open spec fn view(&self) -> ArgsView {
        ArgsView {
            parent_pid: self.parent_pid,
            foreground: self.foreground,
            socket_path: match self.socket_path {
                Some(p) => Some(p@),
                None => None,
            },
            log_path: match self.log_path {
                Some(p) => Some(p@),
                None => None,
            },
        }
    }
}

/// What a run of the daemon was asked to do.
#[derive(Debug, Clone)]
pub enum ParsedCommand {
    /// Run with these options.
    Run(Args),
    /// Print usage and exit.
    Help,
    /// Print the version and exit.
    Version,
}

/// Mathematical image of the outcome of parsing.
pub enum ParseOutcome {
    Run(ArgsView),
    Help,
    Version,
    Fail(Seq<char>),
}

/// The parser's accumulator: options seen so far.
pub struct AccView {
    pub parent_pid: Option<u32>,
    pub foreground: bool,
    pub socket_path: Option<Seq<char>>,
    pub log_path: Option<Seq<char>>,
}

/// What parsing the arguments from position `i` on, with `acc` already
/// gathered, yields. Argument zero is the program name and is skipped by
/// the caller.
pub open spec fn spec_parse_args(args: Seq<Seq<char>>, i: int, acc: AccView) -> ParseOutcome
    decreases args.len() - i,
{
    if i < 0 {
        ParseOutcome::Fail(Seq::empty())
    } else if i >= args.len() {
        match acc.parent_pid {
            Some(p) => ParseOutcome::Run(ArgsView {
                parent_pid: p,
                foreground: acc.foreground,
                socket_path: acc.socket_path,
                log_path: acc.log_path,
            }),
            None => ParseOutcome::Fail("--parent-pid is required"@),
        }
    } else {
        let a = args[i];
        if a == "--parent-pid"@ {
            if i + 1 >= args.len() {
                ParseOutcome::Fail("--parent-pid requires a value"@)
            } else {
                match text::spec_parse_u64(args[i + 1]) {
                    Some(v) => if v <= u32::MAX {
                        spec_parse_args(
                            args,
                            i + 2,
                            AccView { parent_pid: Some(v as u32), ..acc },
                        )
                    } else {
                        ParseOutcome::Fail("Invalid PID"@)
                    },
                    None => ParseOutcome::Fail("Invalid PID"@),
                }
            }
        } else if a == "--foreground"@ || a == "-f"@ {
            spec_parse_args(args, i + 1, AccView { foreground: true, ..acc })
        } else if a == "--socket"@ {
            if i + 1 >= args.len() {
                ParseOutcome::Fail("--socket requires a path"@)
            } else {
                spec_parse_args(args, i + 2, AccView { socket_path: Some(args[i + 1]), ..acc })
            }
        } else if a == "--log"@ {
            if i + 1 >= args.len() {
                ParseOutcome::Fail("--log requires a path"@)
            } else {
                spec_parse_args(args, i + 2, AccView { log_path: Some(args[i + 1]), ..acc })
            }
        } else if a == "--help"@ || a == "-h"@ {
            ParseOutcome::Help
        } else if a == "--version"@ || a == "-V"@ {
            ParseOutcome::Version
        } else {
            ParseOutcome::Fail("Unknown argument: "@ + a)
        }
    }
}

/// The image of the argument strings.
pub open spec fn view_args(args: Seq<String>) -> Seq<Seq<char>> {
    args.map_values(|s: String| s@)
}

impl Args {
    /// Parse the arguments (argument zero being the program name). Every
    /// option either takes effect, asks for usage or the version, or is
    /// answered with the exact error message for what is wrong; a missing
    /// or malformed parent process identifier is never let through.
    pub fn parse(args: &Vec<String>) -> (r: Result<ParsedCommand, String>)
        ensures
            (match r {
                Ok(ParsedCommand::Run(a)) => spec_parse_args(
                    view_args(args@),
                    1,
                    AccView { parent_pid: None, foreground: false, socket_path: None, log_path: None },
                ) == ParseOutcome::Run(a@),
                Ok(ParsedCommand::Help) => spec_parse_args(
                    view_args(args@),
                    1,
                    AccView { parent_pid: None, foreground: false, socket_path: None, log_path: None },
                ) == ParseOutcome::Help,
                Ok(ParsedCommand::Version) => spec_parse_args(
                    view_args(args@),
                    1,
                    AccView { parent_pid: None, foreground: false, socket_path: None, log_path: None },
                ) == ParseOutcome::Version,
                Err(m) => spec_parse_args(
                    view_args(args@),
                    1,
                    AccView { parent_pid: None, foreground: false, socket_path: None, log_path: None },
                ) == ParseOutcome::Fail(m@),
            }),
    {
        let ghost va = view_args(args@);
        let ghost init = AccView {
            parent_pid: None,
            foreground: false,
            socket_path: None,
            log_path: None,
        };
        let n = args.len();
        let mut parent_pid: Option<u32> = None;
        let mut foreground = false;
        let mut socket_path: Option<String> = None;
        let mut log_path: Option<String> = None;
        let mut i: usize = 1;
        while i < n
            invariant
                1 <= i,
                n == args@.len(),
                va == view_args(args@),
                init == (AccView {
                    parent_pid: None,
                    foreground: false,
                    socket_path: None,
                    log_path: None,
                }),
                spec_parse_args(va, 1, init) == spec_parse_args(
                    va,
                    i as int,
                    AccView {
                        parent_pid,
                        foreground,
                        socket_path: match socket_path {
                            Some(p) => Some(p@),
                            None => None,
                        },
                        log_path: match log_path {
                            Some(p) => Some(p@),
                            None => None,
                        },
                    },
                ),
            decreases n - i,
        {
            proof {
                assert(va[i as int] == args@[i as int]@);
            }
            let a: &String = &args[i];
            if text::str_eq(a.as_str(), "--parent-pid") {
                if i + 1 >= n {
                    return Err(String::from_str("--parent-pid requires a value"));
                }
                proof {
                    assert(va[i + 1] == args@[i + 1]@);
                }
                match text::parse_u64_str(args[i + 1].as_str()) {
                    Some(v) => {
                        if v <= 4294967295u64 {
                            parent_pid = Some(v as u32);
                            i = i + 2;
                        } else {
                            return Err(String::from_str("Invalid PID"));
                        }
                    },
                    None => {
                        return Err(String::from_str("Invalid PID"));
                    },
                }
            } else if text::str_eq(a.as_str(), "--foreground") || text::str_eq(a.as_str(), "-f") {
                foreground = true;
                i = i + 1;
            } else if text::str_eq(a.as_str(), "--socket") {
                if i + 1 >= n {
                    return Err(String::from_str("--socket requires a path"));
                }
                proof {
                    assert(va[i + 1] == args@[i + 1]@);
                }
                socket_path = Some(args[i + 1].clone());
                i = i + 2;
            } else if text::str_eq(a.as_str(), "--log") {
                if i + 1 >= n {
                    return Err(String::from_str("--log requires a path"));
                }
                proof {
                    assert(va[i + 1] == args@[i + 1]@);
                }
                log_path = Some(args[i + 1].clone());
                i = i + 2;
            } else if text::str_eq(a.as_str(), "--help") || text::str_eq(a.as_str(), "-h") {
                return Ok(ParsedCommand::Help);
            } else if text::str_eq(a.as_str(), "--version") || text::str_eq(a.as_str(), "-V") {
                return Ok(ParsedCommand::Version);
            } else {
                let mut m = String::from_str("Unknown argument: ");
                m.append(a.as_str());
                return Err(m);
            }
        }
        proof {
            assert(va.len() == args@.len());
        }
        match parent_pid {
            Some(p) => Ok(ParsedCommand::Run(Args { parent_pid: p, foreground, socket_path, log_path })),
            None => Err(String::from_str("--parent-pid is required")),
        }
    }
}

} // verus!
