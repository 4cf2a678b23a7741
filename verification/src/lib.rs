//! Use spare devices as extra bonding connections.
//!
//! A *streamer* accepts websocket connections from *relays*, checks that they
//! know the password and asks each of them to open a UDP tunnel to the
//! destination. A *relay service* runs one relay per network interface and
//! streamer. This crate holds the decisions of the three: everything that
//! sockets, files, timers and devices do is told to it as plain values, and
//! it answers with what to do next.
pub mod address;
pub mod belaui;
pub mod database;
pub mod datagram;
pub mod discovery;
pub mod forward;
pub mod interfaces;
pub mod name_table;
pub mod network;
pub mod numbers;
pub mod protocol;
pub mod relay;
pub mod relay_service;
pub mod service_model;
pub mod session;
pub mod status;
pub mod streamer;
pub mod text;
pub mod tunnel;
pub mod utils;
pub mod web;
