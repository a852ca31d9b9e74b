//! Verified core of a terminal workspace: git output parsing and command
//! planning, WSL helpers, shell launch planning and network policy checks.
use vstd::prelude::*;

pub mod text;
pub mod workspace;
pub mod git;
pub mod pty;
pub mod net;

verus! {
} // verus!
