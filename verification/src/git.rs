//! Uploading images through Git: the commands that are run, the files that are copied, and what is
//! done with every reply.
pub mod command;
pub mod components;
pub mod environment;
pub mod images;
pub mod lfs;
pub mod naming;
pub mod prepare;
pub mod protocol;
pub mod runs;
pub mod synchronize;
pub mod upload;
