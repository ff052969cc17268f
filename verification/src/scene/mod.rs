//! The data that a loaded network consists of.
pub mod connection;
pub mod defrag_event;
pub mod element;
pub mod link;
pub mod network;
pub mod node;
pub mod service;
pub mod text_label;
