//! The driver of a run: what it is asked, what it decides and what it writes down.
pub mod actuation;
pub mod admission;
pub mod allocation;
pub mod answers;
pub mod associations;
pub mod barriers;
pub mod binding;
pub mod capture;
pub mod carrying;
pub mod cleanup;
pub mod client;
pub mod context;
pub mod controlling;
pub mod deciding;
pub mod delivery;
pub mod enrolment;
pub mod entry;
pub mod failure;
pub mod fields;
pub mod handling;
pub mod ipc;
pub mod keys;
pub mod knowledge;
pub mod lasting;
pub mod laws;
pub mod ledger_lines;
pub mod lifecycle;
pub mod loading;
pub mod message;
pub mod messaging;
pub mod mutation;
pub mod naming;
pub mod operation;
pub mod ownership;
pub mod participant;
pub mod passing;
pub mod prompt;
pub mod protocol;
pub mod publication;
pub mod read_model;
pub mod reads;
pub mod records;
pub mod recovery;
pub mod replay;
pub mod request;
pub mod restart;
pub mod revision;
pub mod selection;
pub mod shown;
pub mod storage;
pub mod tasks;
pub mod tools;
pub mod wire;

pub use client::{DriverClient, DriverConfig, DriverEndpointState, DriverIpcMetadata};
pub use failure::DriverFailure;
pub use records::DriverPaneConfig;
pub use recovery::{load_driver_recovery_state, DriverRecoveryState, DriverRecoveryTmux};
