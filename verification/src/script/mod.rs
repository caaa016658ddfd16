//! Finding the scripts of a project and preparing them to run.

pub mod detector;
pub mod makefile;
pub mod runner;
