//! A model-aware reverse proxy core: the routing cache, the discovery
//! snapshot and the forwarding decisions, with machine-checked contracts.

pub mod codec;
pub mod config;
pub mod discovery;
pub mod headers;
pub mod laws;
pub mod model;
pub mod router;

pub use config::find_config;
pub use config::load_config;
pub use config::AuthConfig;
pub use config::BackendConfig;
pub use config::Config;
pub use model::AppState;
pub use model::ModelInfo;
pub use router::forward_completion;
pub use router::forward_request;
pub use router::healthz;
pub use router::list_models;
