//! Authentication, authorization and error reporting for a question-and-answer
//! web service.
//!
//! Every request passes through the parts collected here: passwords are hashed
//! and checked, signed tokens are issued and validated, protected routes are
//! guarded, and every failure is turned into one HTTP status and message.
pub mod config;
pub mod handle_errors;
pub mod hex;
pub mod kdf;
pub mod number;
pub mod routes;
pub mod text;
pub mod token;
pub mod types;
