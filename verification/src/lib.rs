//! Core library of a scheduling daemon that drives an external line-oriented
//! AI command-line tool on behalf of multiple callers.
//!
//! The heart of the library is the persistent session supervisor: a wire codec
//! for the newline-delimited JSON protocol spoken by the subprocess, a session
//! engine state machine that drives one subprocess generation through its
//! lifecycle, a bounded FIFO request queue, a health monitor with a bounded
//! restart ceiling, and the decision logic of the periodic compactor.
//!
//! Around that core sit the message formatter for the chat gateway (standard
//! Markdown to Telegram MarkdownV2), the length-aware message splitter, path
//! and configuration helpers, and the decision parts of the job scheduler and
//! the agent/task system.  All I/O — process spawning, pipes, timers, the
//! network — lives outside this crate; the library exposes the decisions as
//! pure functions and state machines over plain values.

pub mod cli;
pub mod codec;
pub mod config;
pub mod engine;
pub mod formatter;
pub mod gateway;
pub mod health;
pub mod host;
pub mod laws;
pub mod manager;
pub mod markdown;
pub mod output;
pub mod queue;
pub mod schedule;
pub mod session;
pub mod splitter;
pub mod task;
pub mod text;
