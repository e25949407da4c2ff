//! A static file server's core: a worker pool's job queue and lifecycle,
//! the sandboxed mapping from request paths to files, and the rendering of
//! directory listings and log fields.

use vstd::prelude::*;

pub mod handler;
pub mod pool;
pub mod text;

verus! {

} // verus!
