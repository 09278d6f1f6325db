//! A local coding agent: session history, model context, runs, skills and the
//! JSON-RPC protocol that ties them together.

use vstd::prelude::*;

pub mod daemon;
pub mod daemon_laws;
pub mod desktop;
pub mod ids;
pub mod json;
pub mod model_laws;
pub mod models;
pub mod paths;
pub mod protocol;
pub mod runtime;
pub mod sequences;
pub mod session_store;
pub mod skill_laws;
pub mod skills;
pub mod text;
pub mod text_laws;

verus! {

} // verus!
