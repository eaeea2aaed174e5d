//! Glog-style rendering of structured log records.
//!
//! A record is a message with a level, a time, a place and an ordered list
//! of key-value attributes. A categorizer decides for each attribute whether
//! it is dropped, joined to the message, or printed on a line of its own at
//! a level of its own; the renderer lays the lines out; a threshold on
//! severity decides which of them are emitted.
//!
//! - `level`: severities, thresholds, and the letter of each level
//! - `kv_categorizer`: the categorizer trait and its two stock policies
//! - `record`: records, attributes and finished lines
//! - `glog_format`: the renderer and the laws of its layout
//! - `assembly`: the assembled logger and its delivery mode
//! - `text`: decimal numerals and zero-padded fields

pub mod assembly;
pub mod glog_format;
pub mod kv_categorizer;
pub mod level;
pub mod record;
pub mod text;
