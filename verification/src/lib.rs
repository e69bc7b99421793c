//! A bounded worker pool: a fixed set of workers claims submitted tasks from
//! a shared queue, so that at most `size` tasks run concurrently.
//!
//! The pool itself is modelled as a state machine over task ids: `pool`
//! holds the verified lifecycle (submission, claiming, completion, shutdown),
//! and `http` holds the verified request classification and response
//! construction that the surrounding server performs inside each task.

pub mod http;
pub mod pool;
