//! The rules of a ticket service in front of Gitea: what it asks for, and what it answers.
pub mod access;
pub mod agent;
pub mod attachments;
pub mod changes;
pub mod config;
pub mod decode;
pub mod gitea;
pub mod json;
pub mod labels;
pub mod response;
pub mod text;
pub mod tickets;
