//! The records the client receives from the server.
use vstd::prelude::*;

verus! {

/// A project as the client lists it.
#[derive(Debug)]
pub struct ProjectSummary {
    pub slug: String,
    pub image_tag: String,
    pub is_protected: bool,
    pub view_count: i64,
    pub owner_username: String,
}

/// A live viewer session as the analytics page shows it.
#[derive(Debug)]
pub struct LiveSessionMetric {
    pub slug: String,
    pub uptime_seconds: u64,
    pub container_name: String,
}

/// The signed-in user as the client knows it.
#[derive(Debug)]
pub struct User {
    pub id: i64,
    pub login: String,
    pub avatar_url: String,
}

} // verus!
