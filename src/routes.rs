//! The three routes as functions from request to reply: resolve the client
//! address, gather the fields, negotiate the format, render.
use vstd::prelude::*;

use crate::error::AppError;
use crate::headers::{collect_headers, home_mapping, map_pairs, pairs_view};
use crate::ip::{ip_parser, IpAddress};
use crate::json::{json_object, json_round_trip, read_object, render_json, render_text, text_lines};
use crate::negotiate::{
    accepts,
    is_request_json,
    json_type,
    lower_of,
    lowercase,
    negotiate,
    negotiated,
    ResponseFormat,
};
use crate::request::{
    find_header,
    header_lookup,
    str_equal,
    header_text,
    header_value,
    is_repeated,
    repeated_header,
    HeaderField,
};

verus! {

/// Which signal decides the client address: the connection's peer, or a
/// header set by a trusted proxy (its name, in lower case).
#[derive(Clone, Debug, PartialEq, Eq)]
pub enum TrustSource {
    ConnectInfo,
    Header(String),
}

/// The header that a single-header source selector trusts; chained sources
/// (`RightmostXForwardedFor`, `RightmostForwarded`, `CloudFrontViewerAddress`)
/// and unknown selectors have none.
pub open spec fn selector_header(selector: Seq<char>) -> Option<Seq<char>> {
    if selector == "CfConnectingIp"@ {
        Some("cf-connecting-ip"@)
    } else if selector == "FlyClientIp"@ {
        Some("fly-client-ip"@)
    } else if selector == "TrueClientIp"@ {
        Some("true-client-ip"@)
    } else if selector == "XRealIp"@ {
        Some("x-real-ip"@)
    } else if selector == "XEnvoyExternalAddress"@ {
        Some("x-envoy-external-address"@)
    } else {
        None
    }
}

impl TrustSource {
    /// The trust source a configuration selector names: `ConnectInfo` for the
    /// peer, a single-header selector for its header, `None` for the rest.
    pub fn from_selector(selector: &str) -> (r: Option<TrustSource>)
        ensures
            selector@ == "ConnectInfo"@ ==> r == Some(TrustSource::ConnectInfo),
            selector@ != "ConnectInfo"@ && selector_header(selector@) is None ==> r is None,
            selector@ != "ConnectInfo"@ && selector_header(selector@) is Some ==> (r matches Some(
                TrustSource::Header(h),
            ) && h@ == selector_header(selector@)->0),
    {
        if str_equal(selector, "ConnectInfo") {
            Some(TrustSource::ConnectInfo)
        } else if str_equal(selector, "CfConnectingIp") {
            Some(TrustSource::Header(String::from_str("cf-connecting-ip")))
        } else if str_equal(selector, "FlyClientIp") {
            Some(TrustSource::Header(String::from_str("fly-client-ip")))
        } else if str_equal(selector, "TrueClientIp") {
            Some(TrustSource::Header(String::from_str("true-client-ip")))
        } else if str_equal(selector, "XRealIp") {
            Some(TrustSource::Header(String::from_str("x-real-ip")))
        } else if str_equal(selector, "XEnvoyExternalAddress") {
            Some(TrustSource::Header(String::from_str("x-envoy-external-address")))
        } else {
            None
        }
    }

    /// Trust the header `name`; header names compare in lower case.
    pub fn trusted_header(name: &str) -> (r: TrustSource)
        ensures
            r matches TrustSource::Header(h) && h@ == lower_of(name@),
    {
        TrustSource::Header(lowercase(name))
    }
}

/// A successful reply: a plain-text body, a JSON body, or the ordered rows of
/// the HTML page.
#[derive(Clone, Debug, PartialEq, Eq)]
pub enum Reply {
    Text(String),
    Json(String),
    Html(Vec<(String, String)>),
}

/// A reply as characters.
pub enum ReplyView {
    Text(Seq<char>),
    Json(Seq<char>),
    Html(Seq<(Seq<char>, Seq<char>)>),
}

impl View for Reply {
    type V = ReplyView;

    open spec fn view(&self) -> ReplyView {
        match self {
            Reply::Text(s) => ReplyView::Text(s@),
            Reply::Json(s) => ReplyView::Json(s@),
            Reply::Html(rows) => ReplyView::Html(pairs_view(rows@)),
        }
    }
}

impl ReplyView {
    pub open spec fn content_type(self) -> Seq<char> {
        match self {
            ReplyView::Text(_) => "text/plain; charset=utf-8"@,
            ReplyView::Json(_) => "application/json"@,
            ReplyView::Html(_) => "text/html; charset=utf-8"@,
        }
    }
}

impl Reply {
    /// The `Content-Type` of the reply.
    pub fn content_type(&self) -> (r: &'static str)
        ensures
            r@ == self@.content_type(),
    {
        match self {
            Reply::Text(_) => "text/plain; charset=utf-8",
            Reply::Json(_) => "application/json",
            Reply::Html(_) => "text/html; charset=utf-8",
        }
    }
}

/// The client address under `source`: the peer itself, or the address in the
/// trusted header, which must occur once and hold an address.
pub open spec fn resolved(source: TrustSource, peer: IpAddress, fields: Seq<HeaderField>) -> Result<
    IpAddress,
    AppError,
> {
    match source {
        TrustSource::ConnectInfo => Ok(peer),
        TrustSource::Header(name) => match header_lookup(fields, name@) {
            None => Err(AppError::MissingTrustedHeader(name)),
            Some(f) => if is_repeated(fields, name@) {
                Err(AppError::InvalidClientIp(name))
            } else {
                match f.ip {
                    Some(ip) => Ok(ip),
                    None => Err(AppError::InvalidClientIp(name)),
                }
            },
        },
    }
}

/// The home route: `ip` (normalised) then the headers, as JSON, an HTML page
/// or `key: value` lines.
pub open spec fn home_reply(source: TrustSource, peer: IpAddress, fields: Seq<HeaderField>) -> Result<
    ReplyView,
    AppError,
> {
    match resolved(source, peer, fields) {
        Err(e) => Err(e),
        Ok(ip) => {
            let m = home_mapping(ip.normalized(), fields);
            match negotiated(fields) {
                ResponseFormat::Json => Ok(ReplyView::Json(json_object(m))),
                ResponseFormat::Html => Ok(ReplyView::Html(m)),
                ResponseFormat::PlainText => Ok(ReplyView::Text(text_lines(m))),
            }
        },
    }
}

/// The `/ip` route: the address's standard text, or `{"ip":"<text>"}`.
pub open spec fn ip_reply(source: TrustSource, peer: IpAddress, fields: Seq<HeaderField>) -> Result<
    ReplyView,
    AppError,
> {
    match resolved(source, peer, fields) {
        Err(e) => Err(e),
        Ok(ip) => if accepts(fields, json_type()) {
            Ok(ReplyView::Json(json_object(seq![("ip"@, ip.text())])))
        } else {
            Ok(ReplyView::Text(ip.text()))
        },
    }
}

/// The `User-Agent` value, empty where there is none or it is not visible text.
pub open spec fn user_agent_of(fields: Seq<HeaderField>) -> Seq<char> {
    match header_text(fields, "user-agent"@) {
        Some(v) => v,
        None => Seq::empty(),
    }
}

/// The `/user-agent` route: the user agent, or `{"user-agent":"<value>"}`.
pub open spec fn user_agent_reply(fields: Seq<HeaderField>) -> ReplyView {
    if accepts(fields, json_type()) {
        ReplyView::Json(json_object(seq![("user-agent"@, user_agent_of(fields))]))
    } else {
        ReplyView::Text(user_agent_of(fields))
    }
}

/// The client address of a request under `source`.
pub fn resolve_client_ip(source: &TrustSource, peer: IpAddress, headers: &Vec<HeaderField>) -> (r:
    Result<IpAddress, AppError>)
    ensures
        r == resolved(*source, peer, headers@),
{
    match source {
        TrustSource::ConnectInfo => Ok(peer),
        TrustSource::Header(name) => match find_header(headers, name.as_str()) {
            None => Err(AppError::MissingTrustedHeader(name.clone())),
            Some(f) => {
                if repeated_header(headers, name.as_str()) {
                    Err(AppError::InvalidClientIp(name.clone()))
                } else {
                    match f.ip {
                        Some(ip) => Ok(ip),
                        None => Err(AppError::InvalidClientIp(name.clone())),
                    }
                }
            },
        },
    }
}

pub fn get_home(source: &TrustSource, peer: IpAddress, headers: &Vec<HeaderField>) -> (r: Result<
    Reply,
    AppError,
>)
    ensures
        r matches Ok(reply) ==> home_reply(*source, peer, headers@) == Ok::<ReplyView, AppError>(
            reply@,
        ),
        r matches Err(e) ==> home_reply(*source, peer, headers@) == Err::<ReplyView, AppError>(e),
{
    let ip = match resolve_client_ip(source, peer, headers) {
        Ok(ip) => ip,
        Err(e) => return Err(e),
    };
    let shown = ip_parser(ip);
    let map = collect_headers(shown, headers);
    let pairs = map_pairs(&map);
    match negotiate(headers) {
        ResponseFormat::Json => Ok(Reply::Json(render_json(&pairs))),
        ResponseFormat::Html => Ok(Reply::Html(pairs)),
        ResponseFormat::PlainText => Ok(Reply::Text(render_text(&pairs))),
    }
}

/// A one-pair list.
fn single_pair(key: &str, value: String) -> (r: Vec<(String, String)>)
    ensures
        pairs_view(r@) == seq![(key@, value@)],
{
    let mut v: Vec<(String, String)> = Vec::new();
    v.push((String::from_str(key), value));
    assert(pairs_view(v@) =~= seq![(key@, value@)]);
    v
}

pub fn get_ip(source: &TrustSource, peer: IpAddress, headers: &Vec<HeaderField>) -> (r: Result<
    Reply,
    AppError,
>)
    ensures
        r matches Ok(reply) ==> ip_reply(*source, peer, headers@) == Ok::<ReplyView, AppError>(
            reply@,
        ),
        r matches Err(e) ==> ip_reply(*source, peer, headers@) == Err::<ReplyView, AppError>(e),
{
    let ip = match resolve_client_ip(source, peer, headers) {
        Ok(ip) => ip,
        Err(e) => return Err(e),
    };
    let text = ip.to_text();
    if is_request_json(headers) {
        Ok(Reply::Json(render_json(&single_pair("ip", text))))
    } else {
        Ok(Reply::Text(text))
    }
}

pub fn get_user_agent(headers: &Vec<HeaderField>) -> (r: Reply)
    ensures
        r@ == user_agent_reply(headers@),
{
    let agent = match header_value(headers, "user-agent") {
        Some(v) => v.clone(),
        None => String::new(),
    };
    if is_request_json(headers) {
        Reply::Json(render_json(&single_pair("user-agent", agent)))
    } else {
        Reply::Text(agent)
    }
}

/// Under the connection peer as trust source, `/ip` without an `Accept`
/// header succeeds with the peer's standard text as a plain-text body.
pub proof fn ip_route_echoes_peer(peer: IpAddress, fields: Seq<HeaderField>)
    requires
        header_lookup(fields, "accept"@) is None,
    ensures
        ip_reply(TrustSource::ConnectInfo, peer, fields) == Ok::<ReplyView, AppError>(
            ReplyView::Text(peer.text()),
        ),
        ReplyView::Text(peer.text()).content_type() == "text/plain; charset=utf-8"@,
{
    reveal_strlit("accept");
    assert("accept"@ =~= seq!['a', 'c', 'c', 'e', 'p', 't']);
}

/// Under a trusted header that the request lacks, every route that resolves
/// the client address fails, with the missing header as the error.
pub proof fn missing_trusted_header_fails(name: String, peer: IpAddress, fields: Seq<HeaderField>)
    requires
        header_lookup(fields, name@) is None,
    ensures
        resolved(TrustSource::Header(name), peer, fields) == Err::<IpAddress, AppError>(
            AppError::MissingTrustedHeader(name),
        ),
        home_reply(TrustSource::Header(name), peer, fields) == Err::<ReplyView, AppError>(
            AppError::MissingTrustedHeader(name),
        ),
        ip_reply(TrustSource::Header(name), peer, fields) == Err::<ReplyView, AppError>(
            AppError::MissingTrustedHeader(name),
        ),
{
}

/// Identical requests get identical replies: a reply depends on the trust
/// source, the peer and the header fields alone.
pub proof fn replies_depend_on_request_alone(
    source: TrustSource,
    peer: IpAddress,
    fields: Seq<HeaderField>,
    source2: TrustSource,
    peer2: IpAddress,
    fields2: Seq<HeaderField>,
)
    requires
        source == source2,
        peer == peer2,
        fields == fields2,
    ensures
        home_reply(source, peer, fields) == home_reply(source2, peer2, fields2),
        ip_reply(source, peer, fields) == ip_reply(source2, peer2, fields2),
        user_agent_reply(fields) == user_agent_reply(fields2),
{
}

/// The home route's header mapping, rendered as JSON and read back, gives the
/// same keys and values in the same order.
pub proof fn home_mapping_json_round_trip(ip: Seq<char>, fields: Seq<HeaderField>)
    ensures
        read_object(json_object(home_mapping(ip, fields))) == Some(home_mapping(ip, fields)),
{
    json_round_trip(home_mapping(ip, fields));
}

} // verus!
