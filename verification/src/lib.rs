pub mod strmap;
pub mod types;
pub mod ir;
pub mod patch;
pub mod keyorder;
pub mod hash;
pub mod merge;
pub mod graph_utils;
pub mod text;
pub mod actions;
pub mod dsl;
pub mod intent;
pub mod freeze;
pub mod host;
pub mod sdk;
pub mod components;
pub mod jit;
pub mod runner;
pub mod osc;
