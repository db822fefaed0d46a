//! The grSim simulator-control protocol: which requests the simulator
//! refuses, with which error codes, and the settings a request changes.
use vstd::prelude::*;
use crate::text::push_str;

verus! {

/// An error returned to a simulator-control client.
#[derive(Debug, Clone)]
pub struct SimError {
    pub code: Option<String>,
    pub message: Option<String>,
}

/// A simulator error with both fields set.
pub fn sim_error(code: &str, message: &str) -> (res: SimError)
    ensures
        res.code is Some && res.code->0@ == code@,
        res.message is Some && res.message->0@ == message@,
{
    let mut c = String::new();
    push_str(&mut c, code);
    let mut m = String::new();
    push_str(&mut m, message);
    SimError { code: Some(c), message: Some(m) }
}

/// The ball-teleport flags of a control request that the simulator reads
/// before it moves the ball.
#[derive(Debug, Clone, Copy, PartialEq, Eq)]
pub struct TeleportBallFlags {
    pub teleport_safely: Option<bool>,
    pub roll: Option<bool>,
}

/// What a `SimulatorControl` message asks for, as far as the refusals go.
#[derive(Debug, Clone, Copy, PartialEq, Eq)]
pub struct ControlRequest {
    pub teleport_ball: Option<TeleportBallFlags>,
    pub simulation_speed_set: bool,
}

/// What a `SimulatorConfig` message asks for.
#[derive(Debug, Clone, Copy, PartialEq, Eq)]
pub struct ConfigRequest {
    pub geometry_set: bool,
    pub realism_config_set: bool,
    pub vision_port: Option<u32>,
    pub robot_spec_count: usize,
}

/// A `SimulatorCommand`, as far as its handling branches on it.
#[derive(Debug, Clone, Copy, PartialEq, Eq)]
pub struct SimCommandRequest {
    pub control: Option<ControlRequest>,
    pub config: Option<ConfigRequest>,
}

/// Error codes (with their messages) of the unsupported features a command
/// asks for, in the order the simulator reports them.
pub open spec fn command_error_spec(cmd: SimCommandRequest) -> Seq<(Seq<char>, Seq<char>)> {
    let ball = match cmd.control {
        Some(c) => match c.teleport_ball {
            Some(b) => {
                let safely = if b.teleport_safely == Some(true) {
                    seq![("GRSIM_UNSUPPORTED_TELEPORT_SAFELY"@, "teleport_safely is not supported"@)]
                } else {
                    Seq::empty()
                };
                let roll = if b.roll == Some(true) {
                    seq![("GRSIM_UNSUPPORTED_ROLL_BALL"@, "roll is not supported"@)]
                } else {
                    Seq::empty()
                };
                safely + roll
            },
            None => Seq::empty(),
        },
        None => Seq::empty(),
    };
    let speed = match cmd.control {
        Some(c) => if c.simulation_speed_set {
            seq![("GRSIM_UNSUPPORTED_SIMULATION_SPEED"@, "simulation_speed is not supported"@)]
        } else {
            Seq::empty()
        },
        None => Seq::empty(),
    };
    let config = match cmd.config {
        Some(c) => {
            let geometry = if c.geometry_set {
                seq![("GRSIM_UNSUPPORTED_CONFIG_GEOMETRY"@, "geometry updates are not supported"@)]
            } else {
                Seq::empty()
            };
            let realism = if c.realism_config_set {
                seq![("GRSIM_UNSUPPORTED_CONFIG_REALISM"@, "realism_config updates are not supported"@)]
            } else {
                Seq::empty()
            };
            geometry + realism
        },
        None => Seq::empty(),
    };
    ball + speed + config
}

/// The (code, message) views of a list of errors whose fields are all set.
pub open spec fn error_views(errors: Seq<SimError>) -> Seq<(Seq<char>, Seq<char>)> {
    Seq::new(errors.len(), |i: int| (errors[i].code->0@, errors[i].message->0@))
}

/// Whether every error has both its code and message set.
pub open spec fn all_filled(errors: Seq<SimError>) -> bool {
    forall|i: int| 0 <= i < errors.len() ==> (#[trigger] errors[i]).code is Some && errors[i].message is Some
}

fn push_error(errors: &mut Vec<SimError>, code: &str, message: &str)
    requires
        all_filled(old(errors)@),
    ensures
        all_filled(final(errors)@),
        error_views(final(errors)@) == error_views(old(errors)@).push((code@, message@)),
{
    let e = sim_error(code, message);
    errors.push(e);
    proof {
        assert(error_views(final(errors)@) =~= error_views(old(errors)@).push((code@, message@)));
    }
}

/// The errors a simulator command is answered with: every unsupported
/// feature it asks for (safe teleport, rolling the ball, a simulation speed,
/// geometry or realism updates), in that order. Everything else it asks for
/// is applied.
pub fn simulator_command_errors(cmd: &SimCommandRequest) -> (res: Vec<SimError>)
    ensures
        all_filled(res@),
        error_views(res@) == command_error_spec(*cmd),
{
    let mut errors: Vec<SimError> = Vec::new();
    proof {
        assert(error_views(errors@) =~= Seq::<(Seq<char>, Seq<char>)>::empty());
    }
    if let Some(control) = cmd.control {
        if let Some(ball) = control.teleport_ball {
            if ball.teleport_safely == Some(true) {
                push_error(&mut errors, "GRSIM_UNSUPPORTED_TELEPORT_SAFELY", "teleport_safely is not supported");
            }
            if ball.roll == Some(true) {
                push_error(&mut errors, "GRSIM_UNSUPPORTED_ROLL_BALL", "roll is not supported");
            }
        }
        if control.simulation_speed_set {
            push_error(&mut errors, "GRSIM_UNSUPPORTED_SIMULATION_SPEED", "simulation_speed is not supported");
        }
    }
    if let Some(config) = cmd.config {
        if config.geometry_set {
            push_error(&mut errors, "GRSIM_UNSUPPORTED_CONFIG_GEOMETRY", "geometry updates are not supported");
        }
        if config.realism_config_set {
            push_error(&mut errors, "GRSIM_UNSUPPORTED_CONFIG_REALISM", "realism_config updates are not supported");
        }
    }
    proof {
        assert(error_views(errors@) =~= command_error_spec(*cmd));
    }
    errors
}

/// The vision port after a command: a configured port replaces the current
/// one, cut to its low 16 bits.
pub fn vision_port_after(current: u16, cmd: &SimCommandRequest) -> (res: u16)
    ensures
        res == match cmd.config {
            Some(c) => match c.vision_port {
                Some(p) => p as u16,
                None => current,
            },
            None => current,
        },
{
    match cmd.config {
        Some(c) => match c.vision_port {
            Some(p) => p as u16,
            None => current,
        },
        None => current,
    }
}

/// Whether a command makes the simulator rebuild its worlds with new robot
/// specifications.
pub fn rebuilds_robots(cmd: &SimCommandRequest) -> (res: bool)
    ensures
        res == match cmd.config {
            Some(c) => c.robot_spec_count > 0,
            None => false,
        },
{
    match cmd.config {
        Some(c) => c.robot_spec_count > 0,
        None => false,
    }
}

} // verus!
