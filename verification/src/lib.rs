//! mcqp: a verified parser for the `.mcq` text format.
//!
//! A `.mcq` file is a sequence of sections: single-choice polls (`p:`),
//! multiple-choice polls (`mcp:`), quiz questions (`q:`), free-text message
//! blocks (`m:( ... ):endm`), and a side-channel `config:` block that can
//! switch on an auto-numbering counter.  The library turns the lines of such
//! a file into a section tree or a positioned diagnostic; every function is
//! specified and machine-checked.

pub mod bot;
pub mod config;
pub mod diagnostics;
pub mod display;
pub mod file;
pub mod grammar;
pub mod laws;
pub mod log;
pub mod message;
pub mod parser;
pub mod poll;
pub mod question;
pub mod text;
