//! Who may open a published project, and the texts that share it: the VIP key,
//! the list of allowed embed locations, the secret embed page and oEmbed answers.
use vstd::prelude::*;
use crate::rejection::{Rejection, reject, opt_text};
use crate::text::{
    trimmed, spaces_to_plus, trim, replace_spaces_with_plus, str_eq, is_white_space, leading_count,
    trailing_count, Strip, contains_seq, occurs_at,
};
use crate::urls::{header_text, header_value_text, normalized_text, normalize_url};
use crate::models::{OEmbedResponse, OEmbedView};

verus! {

/// The query of an oEmbed request: the address of the page to embed.
#[derive(Debug)]
pub struct OEmbedRequest {
    pub url: String,
}

/// Whether the key given with a request opens a private project: the trimmed
/// request key equals the trimmed stored key, either as sent or with its
/// spaces read back as `+` (a `+` in a query string arrives as a space).
pub open spec fn vip_match(request_key: Option<Seq<char>>, stored_key: Option<Seq<char>>) -> bool {
    match (request_key, stored_key) {
        (Some(r), Some(k)) => trimmed(r) == trimmed(k) || spaces_to_plus(trimmed(r)) == trimmed(k),
        _ => false,
    }
}

/// `s` as a query string delivers it: every `+` read back as a space.
pub open spec fn plus_to_space(s: Seq<char>) -> Seq<char> {
    s.map_values(|c: char| if c == '+' { ' ' } else { c })
}

/// A text without white space at either end is its own trimming.
proof fn lemma_trimmed_unchanged(s: Seq<char>)
    requires
        s.len() > 0 ==> !is_white_space(s[0]) && !is_white_space(s.last()),
    ensures
        trimmed(s) == s,
{
    assert(leading_count(s, Strip::WhiteSpace) == 0);
    assert(s.skip(0) =~= s);
    assert(trailing_count(s, Strip::WhiteSpace) == 0);
    assert(s.take(s.len() as int) =~= s);
}

/// A VIP key still opens its project after its `+` signs were read back as
/// spaces in a query string, when the key has no spaces of its own and
/// neither starts nor ends with `+` or white space.
pub proof fn law_vip_key_survives_plus_decoding(k: Seq<char>)
    requires
        forall|i: int| 0 <= i < k.len() ==> #[trigger] k[i] != ' ',
        k.len() > 0 ==> !is_white_space(k[0]) && !is_white_space(k.last()) && k[0] != '+' && k.last() != '+',
    ensures
        vip_match(Some(plus_to_space(k)), Some(k)),
{
    let p = plus_to_space(k);
    lemma_trimmed_unchanged(k);
    if k.len() > 0 {
        assert(p[0] == k[0]);
        assert(p.last() == k.last());
    }
    lemma_trimmed_unchanged(p);
    assert(spaces_to_plus(p) =~= k) by {
        assert forall|i: int| 0 <= i < k.len() implies #[trigger] spaces_to_plus(p)[i] == k[i] by {
            assert(k[i] != ' ');
        }
    }
}

/// Checks the key given with a request against the project's stored key.
pub fn vip_key_matches(request_key: Option<&str>, stored_key: Option<&str>) -> (b: bool)
    ensures
        b == vip_match(
            match request_key {
                Some(r) => Some(r@),
                None => None,
            },
            match stored_key {
                Some(k) => Some(k@),
                None => None,
            },
        ),
{
    match (request_key, stored_key) {
        (Some(r), Some(k)) => {
            let tr = trim(r);
            let tk = trim(k);
            let plus = replace_spaces_with_plus(tr);
            str_eq(tr, tk) || str_eq(plus.as_str(), tk)
        },
        _ => false,
    }
}

/// The page that embeds a project: the `X-Embed-Referer` header when it is
/// readable text, otherwise the `Referer` header when it is.
pub open spec fn embedding_page(x_embed: Option<Seq<u8>>, referer: Option<Seq<u8>>) -> Option<Seq<char>> {
    match x_embed {
        Some(x) if header_text(x) is Some => header_text(x),
        _ => match referer {
            Some(r) => header_text(r),
            None => None,
        },
    }
}

/// Reads the embedding page off the request headers.
pub fn embed_referer(x_embed: Option<&[u8]>, referer: Option<&[u8]>) -> (r: Option<String>)
    ensures
        opt_text(r) == embedding_page(
            match x_embed {
                Some(x) => Some(x@),
                None => None,
            },
            match referer {
                Some(x) => Some(x@),
                None => None,
            },
        ),
{
    let first = match x_embed {
        Some(x) => header_value_text(x),
        None => None,
    };
    match first {
        Some(t) => Some(t),
        None => match referer {
            Some(x) => header_value_text(x),
            None => None,
        },
    }
}

/// What stands between a request and a project.
#[derive(Debug)]
pub enum EmbedGate {
    /// The project may be shown.
    Open,
    /// The project may be shown if `location` is on its list of allowed embed locations.
    CheckWhitelist { location: String, blocked_origin: String },
    /// The project may not be shown; `blocked_origin` names the page that asked.
    Blocked { blocked_origin: String },
}

/// The value of an `EmbedGate`.
pub enum GateView {
    Open,
    CheckWhitelist { location: Seq<char>, blocked_origin: Seq<char> },
    Blocked { blocked_origin: Seq<char> },
}

impl View for EmbedGate {
    type V = GateView;

    open spec fn view(&self) -> GateView {
        match self {
            EmbedGate::Open => GateView::Open,
            EmbedGate::CheckWhitelist { location, blocked_origin } => GateView::CheckWhitelist {
                location: location@,
                blocked_origin: blocked_origin@,
            },
            EmbedGate::Blocked { blocked_origin } => GateView::Blocked { blocked_origin: blocked_origin@ },
        }
    }
}

/// The name given to a page that sent no readable referer.
pub open spec fn unknown_domain() -> Seq<char> {
    "Unknown Domain"@
}

/// Who may see a project: its owner, anybody when it is public, and
/// whoever holds its VIP key; anybody else only from a page on the project's
/// list of allowed embed locations (compared in normal form).
pub open spec fn gate(
    viewer: Option<i64>,
    owner_id: i64,
    is_public: bool,
    vip: bool,
    page: Option<Seq<char>>,
) -> GateView {
    if viewer == Some(owner_id) || is_public || vip {
        GateView::Open
    } else {
        match page {
            None => GateView::Blocked { blocked_origin: unknown_domain() },
            Some(p) => match normalized_text(p) {
                Some(n) => GateView::CheckWhitelist { location: n, blocked_origin: p },
                None => GateView::Blocked { blocked_origin: p },
            },
        }
    }
}

/// Who may see a project: the owner, anybody when it is public, and holders
/// of the VIP key are always let in; anybody else is let in only after a look
/// at the allowed locations, made against the embedding page's normal form
/// and naming that page; a request with no readable page, or a page without a
/// normal form, is blocked and names the page (or "Unknown Domain").
pub proof fn law_gate_rules(viewer: Option<i64>, owner_id: i64, is_public: bool, vip: bool, page: Option<Seq<char>>)
    ensures
        (viewer == Some(owner_id) || is_public || vip) ==> gate(viewer, owner_id, is_public, vip, page) == GateView::Open,
        !(viewer == Some(owner_id) || is_public || vip) ==> gate(viewer, owner_id, is_public, vip, page) != GateView::Open,
        gate(viewer, owner_id, is_public, vip, page) matches GateView::CheckWhitelist { location, blocked_origin }
            ==> page == Some(blocked_origin) && normalized_text(blocked_origin) == Some(location),
        gate(viewer, owner_id, is_public, vip, page) matches GateView::Blocked { blocked_origin }
            ==> (page == Some(blocked_origin) && normalized_text(blocked_origin) is None)
                || (page is None && blocked_origin == "Unknown Domain"@),
{
}

/// The page that embeds a project is read from `X-Embed-Referer` whenever that
/// header is readable text; `Referer` is consulted only otherwise.
pub proof fn law_embedding_page_prefers_x_embed(x: Option<Seq<u8>>, r: Option<Seq<u8>>)
    ensures
        x matches Some(b) && header_text(b) is Some ==> embedding_page(x, r) == header_text(x.unwrap()),
        !(x matches Some(b) && header_text(b) is Some) ==> embedding_page(x, r) == match r {
            Some(b) => header_text(b),
            None => None,
        },
{
}

/// Decides how a request for a project is let through (see `gate`).
pub fn embed_gate(
    viewer: Option<i64>,
    owner_id: i64,
    is_public: bool,
    request_key: Option<&str>,
    stored_key: Option<&str>,
    x_embed: Option<&[u8]>,
    referer: Option<&[u8]>,
) -> (g: EmbedGate)
    ensures
        g@ == gate(
            viewer,
            owner_id,
            is_public,
            vip_match(
                match request_key {
                    Some(r) => Some(r@),
                    None => None,
                },
                match stored_key {
                    Some(k) => Some(k@),
                    None => None,
                },
            ),
            embedding_page(
                match x_embed {
                    Some(x) => Some(x@),
                    None => None,
                },
                match referer {
                    Some(x) => Some(x@),
                    None => None,
                },
            ),
        ),
{
    let is_owner = match viewer {
        Some(v) => v == owner_id,
        None => false,
    };
    if is_owner || is_public {
        return EmbedGate::Open;
    }
    if vip_key_matches(request_key, stored_key) {
        return EmbedGate::Open;
    }
    match embed_referer(x_embed, referer) {
        None => {
            let b = "Unknown Domain".to_owned();
            EmbedGate::Blocked { blocked_origin: b }
        },
        Some(p) => match normalize_url(p.as_str()) {
            Some(n) => EmbedGate::CheckWhitelist { location: n, blocked_origin: p },
            None => EmbedGate::Blocked { blocked_origin: p },
        },
    }
}

/// Most sessions that may show one publisher's projects at once.
pub const MAX_VIEWERS_PER_PUBLISHER: usize = 5;

/// Admits a new viewer of a publisher that has `active` sessions: refused
/// with 429 once the publisher has five.
pub fn viewer_admission(active: usize) -> (r: Result<(), Rejection>)
    ensures
        r is Ok <==> active < 5,
        r matches Err(e) ==> e@ == (429u16, "Publisher limit reached"@),
{
    if active >= MAX_VIEWERS_PER_PUBLISHER {
        Err(reject(429, "Publisher limit reached"))
    } else {
        Ok(())
    }
}

/// The embed key is shown to the project's owner only; to anybody else the
/// project does not exist (404), so its existence does not leak.
pub fn embed_key_owner_check(user_id: i64, owner_id: i64) -> (r: Result<(), Rejection>)
    ensures
        r is Ok <==> user_id == owner_id,
        r matches Err(e) ==> e@ == (404u16, "Project not found"@),
{
    if user_id != owner_id {
        Err(reject(404, "Project not found"))
    } else {
        Ok(())
    }
}

/// The embed key to give back, or 500 when none could be read or made.
pub fn embed_key_result(key: Option<String>) -> (r: Result<String, Rejection>)
    ensures
        match r {
            Ok(k) => opt_text(key) == Some(k@),
            Err(e) => key is None && e@ == (500u16, "Failed to retrieve or generate embed key"@),
        },
{
    match key {
        Some(k) => Ok(k),
        None => Err(reject(500, "Failed to retrieve or generate embed key")),
    }
}

/// Whether a byte is left as it is by URL encoding.
pub open spec fn unreserved(b: u8) -> bool {
    (48 <= b <= 57) || (65 <= b <= 90) || (97 <= b <= 122) || b == 45 || b == 46 || b == 95 || b == 126
}

/// The upper-case hexadecimal digit for `d` (below sixteen).
pub open spec fn hex_digit(d: u8) -> char {
    if d < 10 {
        ((d + 48) as u8) as char
    } else {
        ((d + 55) as u8) as char
    }
}

/// Percent-encoding of a byte string: unreserved bytes stay, every other byte
/// becomes `%` and two upper-case hexadecimal digits.
pub open spec fn percent_encoded(b: Seq<u8>) -> Seq<char>
    decreases b.len(),
{
    if b.len() == 0 {
        Seq::empty()
    } else {
        let x = b.last();
        percent_encoded(b.drop_last()) + if unreserved(x) {
            seq![x as char]
        } else {
            seq!['%', hex_digit(x / 16), hex_digit(x % 16)]
        }
    }
}

/// `urlencoding::encode`: percent-encodes every byte of the UTF-8 text except
/// ASCII letters, digits and `-`, `.`, `_`, `~`, with upper-case hexadecimal.
#[verifier::external_body]
pub fn url_encode(s: &str) -> (r: String)
    ensures
        r@ == percent_encoded(vstd::utf8::encode_utf8(s@)),
{
    urlencoding::encode(s).into_owned()
}

/// The value of a hexadecimal digit (either case); zero for anything else.
pub open spec fn hex_value(c: char) -> int {
    if '0' <= c <= '9' {
        c as int - 48
    } else if 'A' <= c <= 'F' {
        c as int - 55
    } else if 'a' <= c <= 'f' {
        c as int - 87
    } else {
        0
    }
}

/// Percent-decoding of a query parameter: `%` and two hexadecimal digits
/// give one byte; any other character gives its own code as a byte.
pub open spec fn percent_decoded(t: Seq<char>) -> Seq<u8>
    decreases t.len(),
{
    if t.len() == 0 {
        Seq::empty()
    } else if t[0] == '%' && t.len() >= 3 {
        seq![(16 * hex_value(t[1]) + hex_value(t[2])) as u8] + percent_decoded(t.subrange(3, t.len() as int))
    } else {
        seq![t[0] as u8] + percent_decoded(t.drop_first())
    }
}

/// The encoding of one byte.
pub open spec fn encoded_byte(x: u8) -> Seq<char> {
    if unreserved(x) {
        seq![x as char]
    } else {
        seq!['%', hex_digit(x / 16), hex_digit(x % 16)]
    }
}

proof fn lemma_hex_round_trip(d: u8)
    requires
        d < 16,
    ensures
        hex_value(hex_digit(d)) == d,
{
    if d < 10 {
        assert(((d + 48) as u8) as char as int == d + 48);
    } else {
        assert(((d + 55) as u8) as char as int == d + 55);
    }
}

proof fn lemma_decode_one(x: u8, t: Seq<char>)
    ensures
        percent_decoded(encoded_byte(x) + t) == seq![x] + percent_decoded(t),
{
    let e = encoded_byte(x) + t;
    if unreserved(x) {
        assert((x as char) as int == x as int);
        assert(e[0] == x as char);
        assert(e[0] != '%');
        assert(e.drop_first() =~= t);
        assert((e[0] as u8) == x);
    } else {
        assert(e[0] == '%');
        assert(e.subrange(3, e.len() as int) =~= t);
        lemma_hex_round_trip(x / 16);
        lemma_hex_round_trip(x % 16);
        assert(16 * (x / 16) + x % 16 == x);
        assert(e[1] == hex_digit(x / 16) && e[2] == hex_digit(x % 16));
    }
}

proof fn lemma_decode_encoded(b: Seq<u8>, t: Seq<char>)
    ensures
        percent_decoded(percent_encoded(b) + t) == b + percent_decoded(t),
    decreases b.len(),
{
    if b.len() == 0 {
        assert(percent_encoded(b) + t =~= t);
        assert(b + percent_decoded(t) =~= percent_decoded(t));
    } else {
        let p = b.drop_last();
        let x = b.last();
        assert(percent_encoded(b) == percent_encoded(p) + encoded_byte(x));
        assert(percent_encoded(b) + t =~= percent_encoded(p) + (encoded_byte(x) + t));
        lemma_decode_encoded(p, encoded_byte(x) + t);
        lemma_decode_one(x, t);
        assert(p + (seq![x] + percent_decoded(t)) =~= b + percent_decoded(t));
    }
}

/// Decoding the `key` parameter of a secret link gives back the key: the
/// percent-encoding of the key's UTF-8 bytes decodes to exactly those bytes.
pub proof fn law_secret_key_round_trip(key: Seq<char>)
    ensures
        percent_decoded(percent_encoded(vstd::utf8::encode_utf8(key))) == vstd::utf8::encode_utf8(key),
{
    let b = vstd::utf8::encode_utf8(key);
    lemma_decode_encoded(b, Seq::empty());
    assert(percent_encoded(b) + Seq::<char>::empty() =~= percent_encoded(b));
    assert(b + Seq::<u8>::empty() =~= b);
}

/// The oEmbed discovery URL of a secret embed token.
pub open spec fn oembed_discovery(api_url: Seq<char>, token: Seq<char>) -> Seq<char> {
    api_url + "/api/oembed?url="@ + api_url + "/e/"@ + token
}

/// Where a secret embed link leads: the embed page of the project, carrying
/// the URL-encoded VIP key when the project has one.
pub open spec fn secret_target(
    frontend: Seq<char>,
    owner: Seq<char>,
    slug: Seq<char>,
    encoded_key: Option<Seq<char>>,
) -> Seq<char> {
    let base = frontend + "/embed/"@ + owner + "/"@ + slug;
    match encoded_key {
        Some(k) => base + "?key="@ + k,
        None => base,
    }
}

/// First part of the secret embed page, up to the oEmbed link.
pub open spec fn page_head() -> Seq<char> {
    "<!DOCTYPE html>\n<html>\n<head>\n    <title>TryCLI Interactive Demo</title>\n    <link rel=\"alternate\" type=\"application/json+oembed\" href=\""@
}

/// Part of the secret embed page between the oEmbed link and the refresh target.
pub open spec fn page_meta() -> Seq<char> {
    "\" title=\"Interactive Terminal\" />\n    <meta property=\"og:title\" content=\"Interactive Terminal Demo\" />\n    <meta property=\"og:description\" content=\"Click to launch a live Linux container for this project.\" />\n    <meta property=\"og:type\" content=\"website\" />\n    <meta http-equiv=\"refresh\" content=\"0;url="@
}

/// Part of the secret embed page between the refresh target and the script target.
pub open spec fn page_body() -> Seq<char> {
    "\" />\n</head>\n<body>\n    <p>Redirecting to interactive terminal...</p>\n    <script>window.location.href = \""@
}

/// Last part of the secret embed page.
pub open spec fn page_tail() -> Seq<char> {
    "\";</script>\n</body>\n</html>"@
}

/// The secret embed page: oEmbed discovery link, Open Graph tags, and an
/// immediate redirect to the target.
pub open spec fn secret_page(discovery: Seq<char>, target: Seq<char>) -> Seq<char> {
    page_head() + discovery + page_meta() + target + page_body() + target + page_tail()
}

/// Builds the page served for a secret embed token.
pub fn secret_embed_html(
    api_url: &str,
    frontend_url: &str,
    token: &str,
    owner: &str,
    slug: &str,
    embed_key: Option<&str>,
) -> (html: String)
    ensures
        html@ == secret_page(
            oembed_discovery(api_url@, token@),
            secret_target(
                frontend_url@,
                owner@,
                slug@,
                match embed_key {
                    Some(k) => Some(percent_encoded(vstd::utf8::encode_utf8(k@))),
                    None => None,
                },
            ),
        ),
{
    let mut discovery = api_url.to_owned();
    discovery.append("/api/oembed?url=");
    discovery.append(api_url);
    discovery.append("/e/");
    discovery.append(token);
    let mut target = frontend_url.to_owned();
    target.append("/embed/");
    target.append(owner);
    target.append("/");
    target.append(slug);
    match embed_key {
        Some(k) => {
            let encoded = url_encode(k);
            target.append("?key=");
            target.append(encoded.as_str());
        },
        None => {},
    }
    let mut html = String::new();
    html.append("<!DOCTYPE html>\n<html>\n<head>\n    <title>TryCLI Interactive Demo</title>\n    <link rel=\"alternate\" type=\"application/json+oembed\" href=\"");
    html.append(discovery.as_str());
    html.append("\" title=\"Interactive Terminal\" />\n    <meta property=\"og:title\" content=\"Interactive Terminal Demo\" />\n    <meta property=\"og:description\" content=\"Click to launch a live Linux container for this project.\" />\n    <meta property=\"og:type\" content=\"website\" />\n    <meta http-equiv=\"refresh\" content=\"0;url=");
    html.append(target.as_str());
    html.append("\" />\n</head>\n<body>\n    <p>Redirecting to interactive terminal...</p>\n    <script>window.location.href = \"");
    html.append(target.as_str());
    html.append("\";</script>\n</body>\n</html>");
    assert(html@ =~= secret_page(
        oembed_discovery(api_url@, token@),
        secret_target(
            frontend_url@,
            owner@,
            slug@,
            match embed_key {
                Some(k) => Some(percent_encoded(vstd::utf8::encode_utf8(k@))),
                None => None,
            },
        ),
    ));
    html
}

/// What an oEmbed request asks about: a secret token (`/e/<token>`) and a
/// public project page (`/<user>/<slug>`), read off the first two path segments.
pub open spec fn oembed_targets(segments: Option<Seq<Seq<char>>>) -> (Option<Seq<char>>, Option<(Seq<char>, Seq<char>)>) {
    match segments {
        Some(seg) => if seg.len() >= 2 {
            (if seg[0] == "e"@ { Some(seg[1]) } else { None }, Some((seg[0], seg[1])))
        } else {
            (None, None)
        },
        None => (None, None),
    }
}

/// An oEmbed request names a secret token only through a path `/e/<token>`,
/// and then the token is the second segment; any path of two or more
/// segments names the public page `/<user>/<slug>` of its first two; shorter
/// paths name nothing.
pub proof fn law_oembed_targets(segments: Option<Seq<Seq<char>>>)
    ensures
        oembed_targets(segments).0 matches Some(t) ==> segments matches Some(seg) && seg.len() >= 2 && seg[0] == "e"@ && seg[1] == t,
        segments is Some && segments.unwrap().len() >= 2 ==> oembed_targets(segments).1 == Some(
            (segments.unwrap()[0], segments.unwrap()[1]),
        ),
        segments is Some && segments.unwrap().len() >= 2 && segments.unwrap()[0] == "e"@ ==> oembed_targets(segments).0
            == Some(segments.unwrap()[1]),
        !(segments matches Some(seg) && seg.len() >= 2) ==> oembed_targets(segments) == (None::<Seq<char>>, None::<(Seq<char>, Seq<char>)>),
{
}

/// The secret link leads to the embed page of its project on the frontend,
/// and carries the encoded key exactly when the project has one.
pub proof fn law_secret_target(frontend: Seq<char>, owner: Seq<char>, slug: Seq<char>, key: Option<Seq<char>>)
    ensures
        (frontend + "/embed/"@ + owner + "/"@ + slug).is_prefix_of(secret_target(frontend, owner, slug, key)),
        key matches Some(k) ==> secret_target(frontend, owner, slug, key) == frontend + "/embed/"@ + owner + "/"@ + slug + "?key="@ + k,
        key is None ==> secret_target(frontend, owner, slug, key) == frontend + "/embed/"@ + owner + "/"@ + slug,
{
    let base = frontend + "/embed/"@ + owner + "/"@ + slug;
    match key {
        Some(k) => {
            assert((base + "?key="@ + k).subrange(0, base.len() as int) =~= base);
        },
        None => {},
    }
}

/// Reads an oEmbed request's URL: 400 when it does not parse; otherwise the
/// secret token and the public project page it may name.
pub fn oembed_plan(request_url: &str) -> (r: Result<(Option<String>, Option<(String, String)>), Rejection>)
    ensures
        match crate::urls::parsed_url(request_url@) {
            None => r matches Err(e) && e@ == (400u16, "Invalid URL"@),
            Some(u) => r matches Ok((tok, prof)) && oembed_targets(u.segments) == (
                opt_text(tok),
                match prof {
                    Some((a, b)) => Some((a@, b@)),
                    None => None,
                },
            ),
        },
{
    let parts = match crate::urls::parse_url(request_url) {
        Some(u) => u,
        None => {
            return Err(reject(400, "Invalid URL"));
        },
    };
    match parts.segments {
        Some(seg) => {
            if seg.len() >= 2 {
                let token = if str_eq(seg[0].as_str(), "e") {
                    Some(seg[1].clone())
                } else {
                    None
                };
                Ok((token, Some((seg[0].clone(), seg[1].clone()))))
            } else {
                Ok((None, None))
            }
        },
        None => Ok((None, None)),
    }
}

/// The interactive oEmbed answer for a secret link to `owner`'s project `slug`.
pub open spec fn rich_view(origin: Seq<char>, owner: Seq<char>, slug: Seq<char>) -> OEmbedView {
    OEmbedView::Rich {
        version: "1.0"@,
        title: "Interactive Demo: "@ + slug,
        author_name: owner,
        author_url: origin + "/"@ + owner,
        provider_name: "TryCLI Studio"@,
        provider_url: origin,
        html: "<iframe src=\""@ + origin + "/embed/"@ + owner + "/"@ + slug
            + "\" width=\"800\" height=\"500\" frameborder=\"0\" allowtransparency=\"true\" allow=\"clipboard-read; clipboard-write\"></iframe>"@,
        width: 800,
        height: 500,
    }
}

/// The link-card oEmbed answer for the public page of `user`'s project `slug`.
pub open spec fn link_view(origin: Seq<char>, user: Seq<char>, slug: Seq<char>) -> OEmbedView {
    OEmbedView::Link {
        version: "1.0"@,
        title: "Demo: "@ + slug,
        author_name: user,
        author_url: origin + "/"@ + user,
        provider_name: "TryCLI Studio"@,
        provider_url: origin,
        thumbnail_url: Some("https://trycli.com/logo_black.png"@),
    }
}

/// The oEmbed answers name the page's user (for a link card) or the
/// project's owner (for the player) as author, point the author link at that
/// person's page on the site, credit the site as provider, and title the
/// project by its slug; the player embeds exactly that project's page.
pub proof fn law_oembed_authorship(origin: Seq<char>, who: Seq<char>, slug: Seq<char>)
    ensures
        link_view(origin, who, slug) matches OEmbedView::Link { author_name, author_url, title, provider_url, .. }
            && author_name == who && author_url == origin + "/"@ + author_name && provider_url == origin
            && slug.is_suffix_of(title),
        rich_view(origin, who, slug) matches OEmbedView::Rich { author_name, author_url, title, provider_url, html, .. }
            && author_name == who && author_url == origin + "/"@ + author_name && provider_url == origin
            && slug.is_suffix_of(title)
            && contains_seq(html, origin + "/embed/"@ + who + "/"@ + slug),
{
    let t1 = "Demo: "@ + slug;
    assert(t1.subrange(t1.len() - slug.len(), t1.len() as int) =~= slug);
    let t2 = "Interactive Demo: "@ + slug;
    assert(t2.subrange(t2.len() - slug.len(), t2.len() as int) =~= slug);
    let src = origin + "/embed/"@ + who + "/"@ + slug;
    let h = "<iframe src=\""@ + src
        + "\" width=\"800\" height=\"500\" frameborder=\"0\" allowtransparency=\"true\" allow=\"clipboard-read; clipboard-write\"></iframe>"@;
    reveal_strlit("<iframe src=\"");
    assert(h.subrange(13, 13 + src.len() as int) =~= src);
    assert(occurs_at(h, src, 13));
    assert(h =~= "<iframe src=\""@ + origin + "/embed/"@ + who + "/"@ + slug
        + "\" width=\"800\" height=\"500\" frameborder=\"0\" allowtransparency=\"true\" allow=\"clipboard-read; clipboard-write\"></iframe>"@);
}

/// Builds the interactive oEmbed answer.
pub fn oembed_rich(origin: &str, owner: &str, slug: &str) -> (r: OEmbedResponse)
    ensures
        r@ == rich_view(origin@, owner@, slug@),
{
    let mut title = "Interactive Demo: ".to_owned();
    title.append(slug);
    let mut author_url = origin.to_owned();
    author_url.append("/");
    author_url.append(owner);
    let mut html = "<iframe src=\"".to_owned();
    html.append(origin);
    html.append("/embed/");
    html.append(owner);
    html.append("/");
    html.append(slug);
    html.append("\" width=\"800\" height=\"500\" frameborder=\"0\" allowtransparency=\"true\" allow=\"clipboard-read; clipboard-write\"></iframe>");
    let r = OEmbedResponse::Rich {
        version: "1.0".to_owned(),
        title,
        author_name: owner.to_owned(),
        author_url,
        provider_name: "TryCLI Studio".to_owned(),
        provider_url: origin.to_owned(),
        html,
        width: 800,
        height: 500,
    };
    assert(r@ =~= rich_view(origin@, owner@, slug@));
    r
}

/// Builds the link-card oEmbed answer.
pub fn oembed_link(origin: &str, user: &str, slug: &str) -> (r: OEmbedResponse)
    ensures
        r@ == link_view(origin@, user@, slug@),
{
    let mut title = "Demo: ".to_owned();
    title.append(slug);
    let mut author_url = origin.to_owned();
    author_url.append("/");
    author_url.append(user);
    let r = OEmbedResponse::Link {
        version: "1.0".to_owned(),
        title,
        author_name: user.to_owned(),
        author_url,
        provider_name: "TryCLI Studio".to_owned(),
        provider_url: origin.to_owned(),
        thumbnail_url: Some("https://trycli.com/logo_black.png".to_owned()),
    };
    assert(r@ =~= link_view(origin@, user@, slug@));
    r
}

/// The oEmbed answer once the lookups are done: the interactive player when
/// the secret token named a project (`secret` holds its slug and owner), else
/// a link card when the public page names an existing project, else 404.
pub fn oembed_answer(
    origin: &str,
    secret: Option<(String, String)>,
    profile: Option<(String, String)>,
    profile_exists: bool,
) -> (r: Result<OEmbedResponse, Rejection>)
    ensures
        match secret {
            Some((slug, owner)) => r matches Ok(o) && o@ == rich_view(origin@, owner@, slug@),
            None => match profile {
                Some((user, slug)) if profile_exists => r matches Ok(o) && o@ == link_view(
                    origin@,
                    user@,
                    slug@,
                ),
                _ => r matches Err(e) && e@ == (404u16, "No embeddable project found"@),
            },
        },
{
    match secret {
        Some((slug, owner)) => Ok(oembed_rich(origin, owner.as_str(), slug.as_str())),
        None => match profile {
            Some((user, slug)) => {
                if profile_exists {
                    Ok(oembed_link(origin, user.as_str(), slug.as_str()))
                } else {
                    Err(reject(404, "No embeddable project found"))
                }
            },
            None => Err(reject(404, "No embeddable project found")),
        },
    }
}

} // verus!
