//! Fetches ignore-file templates for a set of languages from a remote
//! template service and writes them to `<dir>/.gitignore`.
//!
//! The library holds every decision of the tool: how the requested languages
//! are read from the command line, which request is made, how the service's
//! list is shown, and which outcome each step leads to. The program around it
//! performs the requests and the file write that the library asks for.

pub mod text;
pub mod listing;
pub mod session;
