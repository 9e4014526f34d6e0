//! Decisions and names used by the project endpoints: sign-in checks,
//! publish naming, search patterns and registry clean-up.
use vstd::prelude::*;
use crate::rejection::{Rejection, reject, opt_text};
use crate::text::{trimmed, lowercase, trim, to_lowercase};

verus! {

/// The signed-in user of a request, or 401 with `message` when there is none.
pub fn require_user<T>(user: Option<T>, message: &str) -> (r: Result<T, Rejection>)
    ensures
        match r {
            Ok(u) => user == Some(u),
            Err(e) => user is None && e@ == (401u16, message@),
        },
{
    match user {
        Some(u) => Ok(u),
        None => Err(reject(401, message)),
    }
}

/// An update or delete that touched no row: 404 with `message`.
pub fn rows_touched(rows: u64, message: &str) -> (r: Result<(), Rejection>)
    ensures
        r is Ok <==> rows > 0,
        r matches Err(e) ==> e@ == (404u16, message@),
{
    if rows == 0 {
        Err(reject(404, message))
    } else {
        Ok(())
    }
}

/// A project's name as stored: the requested slug, trimmed and lower-cased.
pub fn publish_slug(raw: &str) -> (r: String)
    ensures
        r@ == lowercase(trimmed(raw@)),
{
    to_lowercase(trim(raw))
}

/// Repository of published images in the local Docker daemon.
pub open spec fn local_repository() -> Seq<char> {
    "trycli-studio-projects"@
}

/// Where a published snapshot is stored: the repository, the tag (the slug)
/// and the full image name `repository:slug`. With a remote registry all
/// projects share the repository `<registry>/projects`.
pub open spec fn image_names(use_remote: bool, registry: Seq<char>, slug: Seq<char>) -> (Seq<char>, Seq<char>, Seq<char>) {
    let repo = if use_remote { registry + "/projects"@ } else { local_repository() };
    (repo, slug, repo + ":"@ + slug)
}

/// A published snapshot is tagged by its slug, and its full image name is the
/// repository, a colon and that tag; all projects of the local daemon share
/// one repository, and with a remote registry all share `<registry>/projects`.
pub proof fn law_image_names(use_remote: bool, registry: Seq<char>, slug: Seq<char>)
    ensures
        image_names(use_remote, registry, slug).1 == slug,
        image_names(use_remote, registry, slug).2 == image_names(use_remote, registry, slug).0 + ":"@ + slug,
        image_names(use_remote, registry, slug).0 == image_names(use_remote, registry, "x"@).0,
        use_remote ==> image_names(use_remote, registry, slug).0 == registry + "/projects"@,
        !use_remote ==> image_names(use_remote, registry, slug).0 == "trycli-studio-projects"@,
{
}

/// Names the image of a published snapshot (see `image_names`).
pub fn publish_image_names(use_remote: bool, registry: &str, slug: &str) -> (r: (String, String, String))
    ensures
        (r.0@, r.1@, r.2@) == image_names(use_remote, registry@, slug@),
{
    let repo = if use_remote {
        let mut r = registry.to_owned();
        r.append("/projects");
        r
    } else {
        "trycli-studio-projects".to_owned()
    };
    let mut image = repo.clone();
    image.append(":");
    image.append(slug);
    (repo, slug.to_owned(), image)
}

/// The registry API address of a project's image tag.
pub open spec fn registry_tag_url(registry_name: Seq<char>, slug: Seq<char>) -> Seq<char> {
    "https://api.digitalocean.com/v2/registry/"@ + registry_name + "/repositories/projects/tags/"@ + slug
}

/// Builds the registry API address of a project's image tag.
pub fn registry_tag_address(registry_name: &str, slug: &str) -> (r: String)
    ensures
        r@ == registry_tag_url(registry_name@, slug@),
{
    let mut r = "https://api.digitalocean.com/v2/registry/".to_owned();
    r.append(registry_name);
    r.append("/repositories/projects/tags/");
    r.append(slug);
    r
}

/// Whether the registry's answer to a tag deletion means the tag is gone:
/// a success status, or 404.
pub fn registry_delete_done(status: u16) -> (b: bool)
    ensures
        b == ((200 <= status && status <= 299) || status == 404),
{
    (200 <= status && status <= 299) || status == 404
}

/// The query of a project search.
#[derive(Debug)]
pub struct SearchQuery {
    q: String,
}

impl SearchQuery {
    /// A search for `q`.
    pub fn new(q: String) -> (r: SearchQuery)
        ensures
            r.text() == q@,
    {
        SearchQuery { q }
    }

    /// What is searched for.
    pub closed spec fn text(&self) -> Seq<char> {
        self.q@
    }

    /// The pattern that the search matches slugs against (see `search_pattern`).
    pub fn pattern(&self) -> (r: String)
        ensures
            r@ == "%"@ + self.text() + "%"@,
    {
        search_pattern(self.q.as_str())
    }
}

/// The pattern that matches slugs containing `q`.
pub fn search_pattern(q: &str) -> (r: String)
    ensures
        r@ == "%"@ + q@ + "%"@,
{
    let mut r = "%".to_owned();
    r.append(q);
    r.append("%");
    r
}

/// Whether an old builder container must be removed: one still being set up
/// has no container yet.
pub fn container_to_remove(container_name: &str) -> (b: bool)
    ensures
        b == (container_name@ != "INITIALIZING"@),
{
    !crate::text::str_eq(container_name, "INITIALIZING")
}

/// What the project page receives: its guide, its owner, the session it
/// connects to and its visibility. It carries no VIP key; the secret embed
/// token is given to the owner only.
#[derive(Debug)]
pub struct ProjectPage {
    pub markdown: String,
    pub owner_id: i64,
    pub container_id: String,
    pub is_public: bool,
    pub embed_token: Option<String>,
}

/// Assembles the project page's answer; `embed_token` is dropped unless the
/// caller owns the project.
pub fn project_page(
    markdown: String,
    owner_id: i64,
    container_id: String,
    is_public: bool,
    is_owner: bool,
    embed_token: Option<String>,
) -> (p: ProjectPage)
    ensures
        p.markdown@ == markdown@,
        p.owner_id == owner_id,
        p.container_id@ == container_id@,
        p.is_public == is_public,
        opt_text(p.embed_token) == if is_owner { opt_text(embed_token) } else { None },
{
    let embed_token = if is_owner { embed_token } else { None };
    ProjectPage { markdown, owner_id, container_id, is_public, embed_token }
}

/// The answer to a finished publish.
pub fn published_message() -> (r: String)
    ensures
        r@ == "Published!"@,
{
    "Published!".to_owned()
}

} // verus!
