//! The records that the server reads from requests and sends in responses.
use vstd::prelude::*;
use crate::rejection::opt_text;

verus! {

/// A project as listed on the owner's dashboard.
#[derive(Debug)]
pub struct ProjectSummary {
    pub slug: String,
    pub image_tag: String,
    pub view_count: i64,
    pub owner_username: String,
    pub embed_key: Option<String>,
}

/// Body of a request that adds or removes an allowed embed location.
#[derive(Debug)]
pub struct WhitelistRequest {
    pub allowed_url: String,
}

/// A live viewer session of one of the caller's projects.
#[derive(Debug)]
pub struct LiveSessionMetric {
    pub slug: String,
    pub uptime_seconds: u64,
    pub container_name: String,
}

impl View for LiveSessionMetric {
    type V = (Seq<char>, u64, Seq<char>);

    open spec fn view(&self) -> (Seq<char>, u64, Seq<char>) {
        (self.slug@, self.uptime_seconds, self.container_name@)
    }
}

/// The kinds of analytics events that are recorded.
#[derive(Clone, Copy, Debug, PartialEq, Eq, Structural)]
pub enum AnalyticsEventType {
    View,
    SessionEnd,
    Error,
}

/// A signed-in GitHub user.
#[derive(Debug)]
pub struct User {
    pub id: i64,
    pub login: String,
    pub avatar_url: String,
}

/// Body of a publish request: which live session to snapshot, under which
/// name, with which guide.
#[derive(Debug)]
pub struct PublishRequest {
    pub container_id: String,
    pub slug: String,
    pub markdown: String,
}

/// An oEmbed answer: an interactive player for secret links, a link card for
/// public project pages.
#[derive(Debug)]
pub enum OEmbedResponse {
    Rich {
        version: String,
        title: String,
        author_name: String,
        author_url: String,
        provider_name: String,
        provider_url: String,
        html: String,
        width: u32,
        height: u32,
    },
    Link {
        version: String,
        title: String,
        author_name: String,
        author_url: String,
        provider_name: String,
        provider_url: String,
        thumbnail_url: Option<String>,
    },
}

/// The mathematical value of an oEmbed answer.
pub enum OEmbedView {
    Rich {
        version: Seq<char>,
        title: Seq<char>,
        author_name: Seq<char>,
        author_url: Seq<char>,
        provider_name: Seq<char>,
        provider_url: Seq<char>,
        html: Seq<char>,
        width: u32,
        height: u32,
    },
    Link {
        version: Seq<char>,
        title: Seq<char>,
        author_name: Seq<char>,
        author_url: Seq<char>,
        provider_name: Seq<char>,
        provider_url: Seq<char>,
        thumbnail_url: Option<Seq<char>>,
    },
}

impl View for OEmbedResponse {
    type V = OEmbedView;

    open spec fn view(&self) -> OEmbedView {
        match self {
            OEmbedResponse::Rich {
                version,
                title,
                author_name,
                author_url,
                provider_name,
                provider_url,
                html,
                width,
                height,
            } => OEmbedView::Rich {
                version: version@,
                title: title@,
                author_name: author_name@,
                author_url: author_url@,
                provider_name: provider_name@,
                provider_url: provider_url@,
                html: html@,
                width: *width,
                height: *height,
            },
            OEmbedResponse::Link {
                version,
                title,
                author_name,
                author_url,
                provider_name,
                provider_url,
                thumbnail_url,
            } => OEmbedView::Link {
                version: version@,
                title: title@,
                author_name: author_name@,
                author_url: author_url@,
                provider_name: provider_name@,
                provider_url: provider_url@,
                thumbnail_url: opt_text(*thumbnail_url),
            },
        }
    }
}

} // verus!
