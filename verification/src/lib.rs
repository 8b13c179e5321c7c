//! Provisioning of guest-agent tooling into the root filesystem of a Linux
//! zone.
//!
//! The library decides *what* has to be done to a guest root: which
//! distribution it holds, which files are placed where, and what follows each
//! answer of the filesystem. It never touches the filesystem itself; a caller
//! carries out each request and reports back.
//!
//! [`run::install_tools`] starts a run. [`distro`] tells the distribution of
//! a guest and lists its steps, [`tools`] lists the steps that every guest
//! gets, and [`trace`] states what a whole run amounts to.

pub mod path;
pub mod step;
pub mod error;
pub mod distro;
pub mod tools;
pub mod run;
pub mod trace;
