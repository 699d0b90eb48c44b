//! The message schema: `Command` requests and `Report` responses, with
//! their variant sets and their canonical binary encodings.
//!
//! Which payload a successful report carries follows from the echoed
//! action, and is fixed per action rather than inferred at decode time:
//! `Query`, `Name` and `Version` answer with `Return` holding name or
//! version text; `ListStructures`, `ListOutputs`, `ListInputs` and
//! `ReportInputs` answer with `Return` holding a serialized list;
//! `Status`, `Wake`, `Save`, `Sleep`, `Terminate` and `ConnectTract`
//! answer with plain `Success` or `Fail`; `Ignore` never produces a
//! report.

pub mod command;
pub mod report;

pub use command::{Action, Command};
pub use report::{Outcome, Report};
