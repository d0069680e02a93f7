pub mod text;
pub mod runner;
pub mod config;
pub mod paths;
pub mod cache;
pub mod i18n;
pub mod downloader;
pub mod api;
pub mod auth;
pub mod daemon;
pub mod image;
pub mod commands;
pub mod cycle;
pub mod setting;
pub mod update;
pub mod refill;
