//! Screen-capture commands.
pub mod selftest;
