//! Request handling for a proxy in front of DataForSEO's LLM scraper endpoints.

pub mod auth;
pub mod cents;
pub mod dataforseo;
pub mod double;
pub mod encoding;
pub mod errors;
pub mod exchange;
pub mod health;
pub mod intake;
pub mod json;
pub mod keyword;
pub mod llm;
pub mod metadata;
pub mod providers;
pub mod record;
pub mod request_id;
pub mod response;
pub mod router;
pub mod text;
pub mod truncation;
pub mod validation;
