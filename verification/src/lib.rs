//! Core of an agent-trace visualization service: an in-memory session store
//! with single-writer/multi-reader discipline, a subscription registry that
//! fans step updates out to live connections, and the message-level protocol
//! spoken over each connection's duplex channel.

use vstd::prelude::*;

mod codec;
mod models;
mod parser;
mod protocol;
mod registry;
mod store;

pub use codec::WsEvent;
pub use codec::error_text;
pub use codec::escape_char;
pub use codec::event_text;
pub use codec::json_escape;
pub use codec::json_escape_str;
pub use codec::render_event;
pub use codec::session_complete_text;
pub use codec::step_update_text;
pub use codec::subscribed_text;
pub use models::AgentSession;
pub use parser::ParseError;
pub use parser::SpecCommand;
pub use parser::WsCommand;
pub use parser::parse_command;
pub use parser::spec_parse_command;
pub use protocol::Action;
pub use protocol::ConnState;
pub use protocol::Inbound;
pub use protocol::lemma_malformed_is_tolerated;
pub use protocol::step;
pub use models::AgentStep;
pub use models::DomainKnowledge;
pub use models::SessionSummary;
pub use models::Skill;
pub use models::StepName;
pub use models::StepStatus;
pub use models::clone_opt;
pub use models::is_summary_of;
pub use models::opt_view;
pub use registry::SubscriptionRegistry;
pub use registry::lemma_removed_connection_is_gone;
pub use registry::lemma_subscribe_idempotent;
pub use store::SessionStore;
pub use store::lemma_upsert_frames_reads;
