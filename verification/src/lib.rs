pub mod auth;
mod ext;
pub mod laws;
pub mod manager;
pub mod meta;
pub mod proxy;
pub mod render;
pub mod router;
pub mod types;

pub use meta::DeploymentMeta;

pub use types::DatabaseReadyInfo;
pub use types::DeploymentApiError;
pub use types::DeploymentStateMeta;
pub use types::ProjectConfig;
