//! Plugdeck: the rules behind a private web deck of small tools.

pub mod text;
pub mod decimal;
pub mod formats;
pub mod outside;
pub mod times;
pub mod codex_reset_ledger;
pub mod db_migrations;
pub mod html;
pub mod paths;
pub mod audit;
pub mod json;
pub mod tables;
pub mod web;
pub mod config;
pub mod auth;
pub mod sorting;
pub mod codex_usage;
pub mod messages;
pub mod codex;
pub mod codex_projects;
pub mod agents;
pub mod agent_jobs;
pub mod downloads;
pub mod notes;
pub mod pages;
