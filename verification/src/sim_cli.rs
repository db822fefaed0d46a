//! Command-line options of the simulator binary: world and step counts,
//! feature switches, and the viewer port.
use vstd::prelude::*;
use crate::text::{parse_u64, parse_u64_spec, parse_usize, parse_usize_spec, str_eq, views};

verus! {

/// Worlds simulated when no count is given.
pub const DEFAULT_WORLDS: usize = 512;
/// Steps run when no count is given.
pub const DEFAULT_STEPS: usize = 1000;
/// Viewer HTTP port when none is given.
pub const DEFAULT_VIEWER_PORT: u16 = 8315;

/// Options of the simulator binary.
#[derive(Debug, Clone, Copy, PartialEq, Eq)]
pub struct SimCli {
    pub num_worlds: usize,
    pub num_steps: usize,
    pub randomize: bool,
    pub grsim_api: bool,
    pub viewer: bool,
    pub viewer_port: u16,
}

/// `s` read as a `u16`.
pub open spec fn parse_u16_spec(s: Seq<char>) -> Option<u16> {
    match parse_u64_spec(s) {
        Some(v) => if v <= u16::MAX {
            Some(v as u16)
        } else {
            None
        },
        None => None,
    }
}

/// The positional count at `i`, or `default` when it is absent or not a
/// number.
pub open spec fn count_arg(args: Seq<Seq<char>>, i: int, default: usize) -> usize {
    if i < args.len() {
        match parse_usize_spec(args[i]) {
            Some(n) => n,
            None => default,
        }
    } else {
        default
    }
}

/// The viewer port: the value after the first `--viewer-port` that has a
/// value after it (searching from `i`), or the default when there is none
/// or that value is not a port number.
pub open spec fn viewer_port_from(args: Seq<Seq<char>>, i: int) -> u16
    decreases args.len() - i,
{
    if i < 0 || i + 1 >= args.len() {
        DEFAULT_VIEWER_PORT
    } else if args[i] == "--viewer-port"@ {
        match parse_u16_spec(args[i + 1]) {
            Some(p) => p,
            None => DEFAULT_VIEWER_PORT,
        }
    } else {
        viewer_port_from(args, i + 1)
    }
}

/// The options read from the full argument list (program name first):
/// world count and step count as the first two arguments, and switches
/// anywhere.
pub open spec fn sim_cli_spec(args: Seq<Seq<char>>) -> SimCli {
    SimCli {
        num_worlds: count_arg(args, 1, DEFAULT_WORLDS),
        num_steps: count_arg(args, 2, DEFAULT_STEPS),
        randomize: args.contains("--randomize"@),
        grsim_api: args.contains("--grsim-api"@),
        viewer: args.contains("--viewer"@),
        viewer_port: viewer_port_from(args, 0),
    }
}

fn count_at(args: &Vec<String>, i: usize, default: usize) -> (res: usize)
    ensures
        res == count_arg(views(args@), i as int, default),
{
    if i < args.len() {
        match parse_usize(args[i].as_str()) {
            Some(n) => n,
            None => default,
        }
    } else {
        default
    }
}

fn has_arg(args: &Vec<String>, flag: &str) -> (res: bool)
    ensures
        res == views(args@).contains(flag@),
{
    let mut i: usize = 0;
    while i < args.len()
        invariant
            i <= args@.len(),
            forall|k: int| 0 <= k < i ==> views(args@)[k] != flag@,
        decreases args.len() - i,
    {
        if str_eq(args[i].as_str(), flag) {
            proof {
                assert(views(args@)[i as int] == flag@);
            }
            return true;
        }
        i = i + 1;
    }
    false
}

fn parse_u16(s: &str) -> (res: Option<u16>)
    ensures
        res == parse_u16_spec(s@),
{
    match parse_u64(s) {
        Some(v) => if v <= 65535 {
            Some(v as u16)
        } else {
            None
        },
        None => None,
    }
}

impl SimCli {
    /// Reads the options from the full argument list (see [`sim_cli_spec`]).
    pub fn parse(args: &Vec<String>) -> (res: SimCli)
        ensures
            res == sim_cli_spec(views(args@)),
    {
        let ghost a = views(args@);
        let mut port = DEFAULT_VIEWER_PORT;
        let mut i: usize = 0;
        let mut found = false;
        while i < args.len() && i + 1 < args.len() && !found
            invariant
                a == views(args@),
                i <= args@.len(),
                !found ==> viewer_port_from(a, i as int) == viewer_port_from(a, 0),
                !found ==> port == DEFAULT_VIEWER_PORT,
                found ==> port == viewer_port_from(a, 0),
            decreases args.len() - i + (if found { 0int } else { 1int }),
        {
            if str_eq(args[i].as_str(), "--viewer-port") {
                port = match parse_u16(args[i + 1].as_str()) {
                    Some(p) => p,
                    None => DEFAULT_VIEWER_PORT,
                };
                found = true;
            } else {
                i = i + 1;
            }
        }
        SimCli {
            num_worlds: count_at(args, 1, DEFAULT_WORLDS),
            num_steps: count_at(args, 2, DEFAULT_STEPS),
            randomize: has_arg(args, "--randomize"),
            grsim_api: has_arg(args, "--grsim-api"),
            viewer: has_arg(args, "--viewer"),
            viewer_port: port,
        }
    }
}

} // verus!
