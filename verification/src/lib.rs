//! Verified core logic of the simhark RoboCup SSL simulator tooling.

pub mod team;
pub mod varint;
pub mod text;
pub mod referee;
pub mod controller;
pub mod director;
pub mod testing;
pub mod testcli;
pub mod batch;
pub mod viewer;
pub mod autoref_events;
pub mod grsim_command;
pub mod evaluator;
pub mod sumatra;
pub mod match_setup;
pub mod faabs;
pub mod world_seeds;
pub mod sim_net;
pub mod bench;
pub mod team_control;
pub mod motion;
pub mod report;
pub mod match_cli;
pub mod sim_cli;
