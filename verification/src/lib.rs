use vstd::prelude::*;

pub mod address;
pub mod address_text;
pub mod arith;
pub mod authority;
pub mod changes;
pub mod config;
pub mod config_check;
pub mod config_path;
pub mod control;
pub mod engine;
pub mod environment;
pub mod handshake;
pub mod health;
pub mod http;
pub mod inbound;
pub mod launch;
pub mod named;
pub mod network;
pub mod order;
pub mod outbound;
pub mod path_names;
pub mod paths;
pub mod proxy_env;
pub mod reload;
pub mod report;
pub mod ssh_channel;
pub mod ssh_connect;
pub mod ssh_dial;
pub mod ssh_files;
pub mod ssh_forwards;
pub mod ssh_handover;
pub mod ssh_include;
pub mod ssh_manager;
pub mod ssh_monitor;
pub mod ssh_plan;
pub mod ssh_policy;
pub mod ssh_pool;
pub mod ssh_remote;
pub mod ssh_rounds;
pub mod ssh_scan;
pub mod ssh_service;
pub mod ssh_source;
pub mod ssh_syntax;
pub mod ssh_way;
pub mod status;
pub mod text;
pub mod wording;

verus! {

} // verus!
