//! Provider routing with circuit breaking, and the decisions of the remote
//! management API, verified with Verus.

pub mod circuit_breaker;
pub mod circuit_breaker_behaviour;
pub mod circuit_breaker_laws;
pub mod clock;
pub mod error_rate;
pub mod events;
pub mod failover;
pub mod failover_laws;
pub mod icons;
pub mod provider;
pub mod provider_router;
pub mod provider_router_behaviour;
pub mod provider_router_laws;
pub mod provider_selection;
pub mod provider_selection_laws;
pub mod provider_test;
pub mod provider_test_laws;
pub mod remote;
pub mod remote_laws;
pub mod remote_usage;
pub mod remote_usage_laws;
pub mod reorder;
pub mod reorder_laws;
pub mod reply;
pub mod server;
pub mod settings;
pub mod text;
pub mod text_laws;
pub mod usage_api;
pub mod usage_summary;
