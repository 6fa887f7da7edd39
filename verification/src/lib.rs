//! Settings resolution for a game-save backup utility: the configuration
//! schema, a platform-default provider, the persisted-file codec and store
//! classification, file-system validation with interactive remediation, and
//! the orchestrator that ties them together.

pub mod codec;
pub mod defaults;
pub mod errors;
pub mod model;
pub mod resolve;
pub mod store;
pub mod validate;
