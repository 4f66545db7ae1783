//! `enc`: AES-256-GCM encryption of files and folders, with a small
//! self-describing container format (key mode and password mode).

pub mod error;
pub mod layout;
pub mod primitives;
pub mod keymode;
pub mod stdtext;
pub mod password;
pub mod genpass;
pub mod keys;
pub mod naming;
pub mod cli;
pub mod size;
