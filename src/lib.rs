//! Directory traversal and entry filtering for a `find`-like tool.
//!
//! The filesystem itself is read by the caller: it hands the library a tree of
//! what it listed (`walk::Child`), and the library decides the emission order,
//! the depth limit and the recovery from unreadable entries, then filters the
//! resulting entries by name, owner, group, permission bits and type.
pub mod entry;
pub mod walk;
pub mod pattern;
pub mod matcher;
