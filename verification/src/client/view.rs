//! The project page and the embed page: what they request, how they read the
//! answer, the links they share, and the rendering of a project's guide.
use vstd::prelude::*;

verus! {

/// The state of a project page.
#[derive(Debug, PartialEq, Eq, Structural)]
pub enum ProjectLoad {
    Loading,
    NotFound,
    LimitReached,
    Unauthorized,
    Ready,
}

/// How a page reads the server's answer for a project: 403 means the page
/// may not show it, 429 that its publisher is at the viewer limit, a success
/// with a readable body that it is ready; anything else counts as not found.
pub open spec fn load_state(status: u16, body_readable: bool) -> ProjectLoad {
    if status == 403 {
        ProjectLoad::Unauthorized
    } else if status == 429 {
        ProjectLoad::LimitReached
    } else if 200 <= status <= 299 && body_readable {
        ProjectLoad::Ready
    } else {
        ProjectLoad::NotFound
    }
}

/// A page is ready only after a success with a readable body; 403 and 429
/// are always read as refusal and publisher limit, whatever the body; every
/// other answer counts as not found.
pub proof fn law_load_state(status: u16, body_readable: bool)
    ensures
        load_state(status, body_readable) == ProjectLoad::Ready <==> (200 <= status <= 299 && body_readable),
        status == 403 ==> load_state(status, body_readable) == ProjectLoad::Unauthorized,
        status == 429 ==> load_state(status, body_readable) == ProjectLoad::LimitReached,
        load_state(status, body_readable) != ProjectLoad::Loading,
        !(200 <= status <= 299 && body_readable) && status != 403 && status != 429 ==> load_state(status, body_readable)
            == ProjectLoad::NotFound,
{
}

/// Reads the server's answer for a project (see `load_state`).
pub fn project_load(status: u16, body_readable: bool) -> (r: ProjectLoad)
    ensures
        r == load_state(status, body_readable),
{
    if status == 403 {
        ProjectLoad::Unauthorized
    } else if status == 429 {
        ProjectLoad::LimitReached
    } else if 200 <= status && status <= 299 {
        if body_readable {
            ProjectLoad::Ready
        } else {
            ProjectLoad::NotFound
        }
    } else {
        ProjectLoad::NotFound
    }
}

/// The API address of a project, carrying the VIP key when the page has one.
pub open spec fn project_address(api: Seq<char>, user: Seq<char>, slug: Seq<char>, key: Seq<char>) -> Seq<char> {
    let base = api + "/api/project/"@ + user + "/"@ + slug;
    if key.len() == 0 {
        base
    } else {
        base + "?key="@ + key
    }
}

/// Builds the API address of a project (see `project_address`).
pub fn project_url(api: &str, user: &str, slug: &str, key: &str) -> (r: String)
    ensures
        r@ == project_address(api@, user@, slug@, key@),
{
    let mut r = api.to_owned();
    r.append("/api/project/");
    r.append(user);
    r.append("/");
    r.append(slug);
    if !key.is_empty() {
        r.append("?key=");
        r.append(key);
    }
    r
}

/// Whether the signed-in user owns the project shown.
pub fn is_owner(current_user: Option<i64>, project_owner: Option<i64>) -> (b: bool)
    ensures
        b == (current_user is Some && current_user == project_owner),
{
    match current_user {
        Some(u) => Some(u) == project_owner,
        None => false,
    }
}

/// The HTML that embeds a project's public page.
pub fn iframe_code(origin: &str, user: &str, slug: &str) -> (r: String)
    ensures
        r@ == "<iframe src=\""@ + origin@ + "/embed/"@ + user@ + "/"@ + slug@
            + "\" width=\"100%\" height=\"500px\" frameborder=\"0\" allowtransparency=\"true\" loading=\"lazy\" allow=\"clipboard-read; clipboard-write\"></iframe>"@,
{
    let mut r = "<iframe src=\"".to_owned();
    r.append(origin);
    r.append("/embed/");
    r.append(user);
    r.append("/");
    r.append(slug);
    r.append("\" width=\"100%\" height=\"500px\" frameborder=\"0\" allowtransparency=\"true\" loading=\"lazy\" allow=\"clipboard-read; clipboard-write\"></iframe>");
    r
}

/// The secret link of a project.
pub fn smart_link(api: &str, token: &str) -> (r: String)
    ensures
        r@ == api@ + "/e/"@ + token@,
{
    let mut r = api.to_owned();
    r.append("/e/");
    r.append(token);
    r
}

/// The link that opens a private project with its VIP key; empty when the key is.
pub fn vip_link(origin: &str, user: &str, slug: &str, key: &str) -> (r: String)
    ensures
        r@ == if key@.len() == 0 {
            Seq::<char>::empty()
        } else {
            origin@ + "/"@ + user@ + "/"@ + slug@ + "?key="@ + key@
        },
{
    if key.is_empty() {
        return String::new();
    }
    let mut r = origin.to_owned();
    r.append("/");
    r.append(user);
    r.append("/");
    r.append(slug);
    r.append("?key=");
    r.append(key);
    r
}

/// The API address of a project's list of allowed embed locations.
pub fn whitelist_endpoint(api: &str, slug: &str) -> (r: String)
    ensures
        r@ == api@ + "/api/project/"@ + slug@ + "/whitelist"@,
{
    let mut r = api.to_owned();
    r.append("/api/project/");
    r.append(slug);
    r.append("/whitelist");
    r
}

/// The API address the project page asks for the VIP key.
pub fn embed_key_endpoint(api: &str, slug: &str) -> (r: String)
    ensures
        r@ == api@ + "/api/project/"@ + slug@ + "/embed-key"@,
{
    let mut r = api.to_owned();
    r.append("/api/project/");
    r.append(slug);
    r.append("/embed-key");
    r
}

/// The `pulldown-cmark` option bit that turns on tables.
pub const ENABLE_TABLES: u32 = 2;

/// The `pulldown-cmark` option bit that turns on strike-through.
pub const ENABLE_STRIKETHROUGH: u32 = 8;

/// The HTML that `pulldown-cmark` renders from a Markdown text under the given option bits.
pub uninterp spec fn cmark_html(text: Seq<char>, options: u32) -> Seq<char>;

/// `pulldown_cmark::Parser::new_ext` with `Options::from_bits_truncate(options)`,
/// rendered by `pulldown_cmark::html::push_html` into an empty string. The
/// CommonMark rules are not restated: the HTML is claimed to depend on the
/// text and the option bits alone.
#[verifier::external_body]
pub fn markdown_to_html(text: &str, options: u32) -> (r: String)
    ensures
        r@ == cmark_html(text@, options),
{
    let parser = pulldown_cmark::Parser::new_ext(text, pulldown_cmark::Options::from_bits_truncate(options));
    let mut out = String::new();
    pulldown_cmark::html::push_html(&mut out, parser);
    out
}

/// Renders a project's guide, with tables and strike-through enabled.
pub fn render_markdown(text: &str) -> (r: String)
    ensures
        r@ == cmark_html(text@, 10),
{
    assert(2u32 | 8u32 == 10u32) by (bit_vector);
    markdown_to_html(text, ENABLE_TABLES | ENABLE_STRIKETHROUGH)
}

} // verus!
