//! Checked flows, and the driver that runs them with agents in panes of tmux.
pub mod adapters;
pub mod calling;
pub mod cli;
pub mod client_config;
pub mod driver;
pub mod flow;
pub mod guard;
pub mod hash;
pub mod input_ledger;
pub mod json;
pub mod kept;
pub mod kernel;
pub mod names;
pub mod number;
pub mod order;
pub mod recorded;
pub mod split;
pub mod table;
pub mod text;
