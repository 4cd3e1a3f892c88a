//! Keeps local copies of imageboard threads: which pages to ask for, which of
//! their links are media files, what to download next and when to stop.

pub mod address;
pub mod clock;
pub mod config;
pub mod db_async;
pub mod json;
pub mod local_path;
pub mod media_downloader;
pub mod media_link;
pub mod shutdown;
pub mod sql;
pub mod state;
pub mod text;
pub mod thread_downloader;
pub mod thread_json;
pub mod thread_page;
pub mod thread_planner;
pub mod thread_url;
pub mod web;
