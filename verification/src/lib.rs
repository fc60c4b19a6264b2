//! A PlaneAI plugin for GitHub pull requests and their checks.
//!
//! The host talks to the plugin in JSON-RPC frames, one a line. What the plugin decides is here;
//! reading and writing, running programs and telling the time is left to the program around it.
//!
//! * `text`, `json`, `codec` and `table` are the values that everything else is made of.
//! * `error` says why a request fails.
//! * `github`, `arguments` and `command` are about `gh` and `git`.
//! * `state` is the durable state that the host keeps for the plugin, `settings` reads and patches
//!   it.
//! * `exchange` is how a request asks for what it cannot do itself. `handlers`, `reconcile` and
//!   `dispatch` are the requests.
//! * `controller` keeps track of requests, and of their calls to the host.
//! * `text_laws`, `remote_laws`, `document_laws` and `state_laws` say what texts, remotes and the
//!   durable state come to.
//! * `promises`, `findings` and `sweep` say what each request asks for and answers, told by what it
//!   was given.
//! * `replay`, `laws` and `ledger_laws` prove what holds of all requests as a whole.

pub mod arguments;
pub mod codec;
pub mod command;
pub mod controller;
pub mod dispatch;
pub mod document_laws;
pub mod error;
pub mod exchange;
pub mod findings;
pub mod github;
pub mod handlers;
pub mod json;
pub mod laws;
pub mod ledger_laws;
pub mod promises;
pub mod reconcile;
pub mod remote_laws;
pub mod replay;
pub mod settings;
pub mod state;
pub mod state_laws;
pub mod sweep;
pub mod table;
pub mod text;
pub mod text_laws;
