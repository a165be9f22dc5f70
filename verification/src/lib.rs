//! Verified core of the readymade installer backend: the text of the
//! configuration files that post-install modules write, the command lines
//! that drive `bootc`, and the decisions taken while locating the system
//! that will boot.

pub mod initial_setup;
pub mod keyboard;
pub mod paths;
pub mod language;
pub mod postinstall;
pub mod command;
pub mod bootc;
pub mod containers_conf;
pub mod sys;
