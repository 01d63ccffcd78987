//! A two-phase-commit coordinator for hotel, airline and bank bookings, with
//! leader election among coordinator nodes: the formats, the decisions and
//! the state that the program keeps, verified.
pub mod text;
pub mod service_kind;
pub mod message_kind;
pub mod transaction_phase;
pub mod message_body;
pub mod message;
pub mod transaction_step;
pub mod operation;
pub mod transaction;
pub mod transaction_parser;
pub mod transaction_log_parser;
pub mod pending_storage;
pub mod service_stream;
pub mod leader_election;
pub mod processor;
pub mod chance;
pub mod alglobo;
pub mod launch;
