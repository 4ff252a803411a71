//! A blog's post bookkeeping: dates, storage keys, routes, front matter
//! and metadata, with their behaviour stated and proved.

pub mod text;
pub mod date;
pub mod key;
pub mod title;
pub mod auth;
pub mod route;
pub mod yaml;
pub mod models;
pub mod metadata;
pub mod post_body;
pub mod post_info;
pub mod request;
pub mod cors;
pub mod change;
pub mod content;
pub mod static_post;
