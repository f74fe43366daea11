//! Mood journal back end over an in-memory snapshot of its tables: the
//! statistics engine that summarises a user's mood entries (distribution,
//! rounded average, rank median; overall, per tag and per weekday), the
//! calendar it needs, and the account, session, category, tag and invite
//! records with their lookups and changes.
pub mod date;
pub mod engine;
pub mod error;
pub mod moods;
pub mod stats;
pub mod store;
pub mod user;
pub mod auth;
pub mod category;
pub mod tag;
pub mod invite;
pub mod log;
pub mod metrics;
pub mod health;
pub mod validation;
