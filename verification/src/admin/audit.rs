//! The audit log: its entries, its errors, and how many entries a listing
//! returns.
use vstd::prelude::*;
use crate::text::{cat, owned};

verus! {

pub struct AuditEntry {
    pub id: String,
    pub user_id: Option<String>,
    pub username: String,
    pub action: String,
    pub resource_type: String,
    pub resource_id: String,
    pub detail: String,
    pub created_at: String,
}

#[derive(Debug)]
pub enum AuditError {
    /// A database failure, with the error's text.
    Db(String),
    Other(String),
}

impl AuditError {
    pub open spec fn text(&self) -> Seq<char> {
        match self {
            AuditError::Db(e) => "db error: "@ + e@,
            AuditError::Other(m) => m@,
        }
    }

    pub fn message(&self) -> (r: String)
        ensures
            r@ == self.text(),
    {
        match self {
            AuditError::Db(e) => cat("db error: ", e.as_str()),
            AuditError::Other(m) => owned(m.as_str()),
        }
    }
}

/// How many entries a listing asks for when the query names no limit.
pub fn default_audit_limit() -> (r: usize)
    ensures
        r == 100,
{
    100
}

/// The requested limit, kept between 1 and 500.
pub fn audit_limit(limit: usize) -> (r: i64)
    ensures
        r == if limit < 1 {
            1
        } else if limit > 500 {
            500
        } else {
            limit as int
        },
{
    if limit < 1 {
        1
    } else if limit > 500 {
        500
    } else {
        limit as i64
    }
}

/// The reply when the log cannot be read: 500 with the error's text.
pub fn audit_err(e: &AuditError) -> (r: (u16, String))
    ensures
        r.0 == 500,
        r.1@ == e.text(),
{
    (500, e.message())
}

} // verus!
