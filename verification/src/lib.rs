//! Verified core of a mail client.
pub mod cache;
pub mod compose;
pub mod config;
pub mod cursor;
pub mod data_uri;
pub mod db;
pub mod db_actor;
pub mod es_mail;
pub mod es_webview;
pub mod files;
pub mod imap;
pub mod imap_actor;
pub mod keyboard;
pub mod litehtml_view;
pub mod mail_app;
pub mod notify;
pub mod profile;
pub mod references;
pub mod render;
pub mod servo_view;
pub mod smtp;
pub mod store;
pub mod text;
pub mod web_url;
