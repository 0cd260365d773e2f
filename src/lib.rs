//! Access control and credential lifecycle rules for the records of a
//! generic record store: password-change challenges, login and e-mail
//! uniqueness, redaction of listings and the salt backfill on read.

pub mod challenge;
pub mod migrate;
pub mod notify;
pub mod outcome;
pub mod record;
pub mod redact;
pub mod text;
pub mod unique;
