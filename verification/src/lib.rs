//! Verified core of the `mark` diff pager and review tool: terminal-escape
//! handling, patch detection, pager routing, text editing, selector state,
//! key bindings and viewport scrolling.

pub mod terminal;
pub mod patch;
pub mod text_pager;
pub mod pager;
pub mod keys;
pub mod text_input;
pub mod selector;
pub mod strings;
pub mod keymap;
pub mod error;
pub mod cli;
pub mod rows;
pub mod annotation;
pub mod action;
pub mod navigation;
pub mod syntax_report;
pub mod version;
