//! A small actor runtime: named actors with FIFO mailboxes, a registry that maps
//! paths to mailbox handles, and a per-dispatch context for replies and sends.
#![allow(non_snake_case)]

pub mod actor;
