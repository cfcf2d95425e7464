//! FTP upload auditing: the decisions of an FTP proxy that copies every uploaded file to an
//! ICAP service while it forwards the file to the FTP server.

pub mod adaptation;
pub mod audit;
pub mod body;
pub mod command;
pub mod config;
pub mod control;
pub mod copy;
pub mod data_channel;
pub mod header;
pub mod keylog;
pub mod net;
pub mod outside;
pub mod pairs;
pub mod passive;
pub mod reply;
pub mod reqmod;
pub mod server;
pub mod stats;
pub mod task;
pub mod text;
pub mod transfer;
pub mod tunnel;
pub mod upload_state;
