//! Record types for the history and template stores. The keyed persistence
//! itself is plain CRUD over a relational store and lives with the caller;
//! only the records cross the boundary.

use vstd::prelude::*;

verus! {

/// A stored generation-history entry.
#[derive(Debug, Clone)]
pub struct HistoryItem {
    pub id: i64,
    pub content: String,
    pub qr_type: String,
    pub label: Option<String>,
    pub style_json: String,
    pub thumbnail: Option<String>,
    pub created_at: String,
    pub updated_at: String,
}

/// A history entry to be stored; the store assigns id and timestamps.
#[derive(Debug, Clone)]
pub struct NewHistoryItem {
    pub content: String,
    pub qr_type: String,
    pub label: Option<String>,
    pub style_json: String,
    pub thumbnail: Option<String>,
}

/// A stored style template.
#[derive(Debug, Clone)]
pub struct Template {
    pub id: i64,
    pub name: String,
    pub style_json: String,
    pub preview: Option<String>,
    pub is_default: bool,
    pub created_at: String,
}

/// A style template to be stored; the store assigns id and timestamp.
#[derive(Debug, Clone)]
pub struct NewTemplate {
    pub name: String,
    pub style_json: String,
    pub preview: Option<String>,
    pub is_default: Option<bool>,
}

} // verus!
