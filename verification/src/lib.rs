//! GitPic uploads images to a personal repository at GitHub or GitLab.
//!
//! This library holds what the application decides and computes. It never touches a file, the
//! network, the credential store or Git itself: each of its longer operations is a procedure that
//! asks for one such action at a time and is told how it went (see [`procedure`]).
//!
//! - [`models`]: providers, profiles, stored settings, repositories, results and errors;
//! - [`settings`]: what is kept between runs, and how it is replaced;
//! - [`providers`]: how a repository is found at its provider, or created there;
//! - [`commands`]: what the user interface can ask for;
//! - [`git`]: how a selection of images becomes a commit that is pushed;
//! - [`text`], [`percent`], [`json`]: texts, their encoding in URLs, and JSON.
pub mod commands;
pub mod git;
pub mod json;
pub mod models;
pub mod percent;
pub mod procedure;
pub mod providers;
pub mod settings;
pub mod text;
