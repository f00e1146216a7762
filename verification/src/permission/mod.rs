//! Permissions that are asked for when they are first needed.

pub mod cwd_lazy;
