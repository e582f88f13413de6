//! Fill-in templates: a template with `{}` blanks is split into spans, each
//! blank becomes an editable field, and the filled text is read back out.

pub mod args;
pub mod chars;
pub mod editable;
pub mod editable_text;
pub mod escapes;
pub mod layout;
pub mod section;
pub mod section_manager;
pub mod snippet_engine;
pub mod static_text;
pub mod terminal_text;
