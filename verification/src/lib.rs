//! Verified core of a two-tier authentication service.
//!
//! The library models the service's state (identities and pending
//! registrations) and proves the credential rules over it: token issuance
//! and decoding under two signing domains, password hashing and
//! verification, the registration confirmation state machine with its
//! expiry window and attempt budget, refresh-token rotation, and the
//! weak/strong authentication tiers.

pub mod account;
pub mod auth;
pub mod config;
pub mod crypto;
pub mod error;
pub mod group;
pub mod jwt;
pub mod middleware;
pub mod store;
pub mod validation;

pub use account::{CreateUserRequest, UpdateUserRequest, UserDto, UserPublicDto};
pub use auth::{LoginRequest, RegistrationData};
pub use config::AuthConfig;
pub use error::{ErrorDto, ServiceError};
pub use group::{CreateGroupRequest, Group, GroupPublicDto, GroupStore, UpdateGroupRequest};
pub use jwt::{Claims, TokenPair, TokenType};
pub use middleware::{AuthGuard, AuthStatus, StrongAuthGuard};
pub use store::{AuthStore, Identity, PendingRegistration};
pub use validation::ValidatedJson;
