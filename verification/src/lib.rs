pub mod primitives;
pub mod gas;
pub mod specification;
pub mod bytecode;
pub mod state;
pub mod taiko_specification;
pub mod assoc;
pub mod env;
pub mod journal;
pub mod state_diff;
pub mod bytes;
pub mod precompile;
pub mod xcall;
pub mod journaled;
pub mod pre_execution;
pub mod taiko_handler;
pub mod changes;
pub mod db;
pub mod evm;
pub mod create_inputs;
