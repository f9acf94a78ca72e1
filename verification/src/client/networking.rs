//! The requests the client sends and how it reads the replies.
//!
//! Each request is built here as a value: the address it goes to and, for a
//! POST, the packet it carries. Sending it and encoding the packet is the
//! caller's part; so is decoding a database from the bytes of a reply.
use vstd::prelude::*;

use crate::common::{
    Database, LikedState, LoginPacket, SetStylePacket, StyleVariant, TokenPacket,
    TokenStringPacket, TokenUuidLikedPacket, TokenUuidPacket,
};
use crate::text::{decimal, decimal_text, owned, push_char};

verus! {

/// What a POST request carries.
pub enum RequestBody {
    Login(LoginPacket),
    Token(TokenPacket),
    Text(TokenStringPacket),
    Record(TokenUuidPacket),
    Rating(TokenUuidLikedPacket),
    Style(SetStylePacket),
}

/// A request to the server: its address and, for a POST, its packet; a
/// request without a packet is a GET.
pub struct ApiRequest {
    pub url: String,
    pub body: Option<RequestBody>,
}

/// `http://`
pub open spec fn scheme() -> Seq<char> {
    seq!['h', 't', 't', 'p', ':', '/', '/']
}

/// The address of an endpoint of the server at `host`:
/// `http://{host}/{endpoint}`.
pub open spec fn url_text(host: Seq<char>, endpoint: Seq<char>) -> Seq<char> {
    scheme() + host + seq!['/'] + endpoint
}

/// The address of an endpoint of the server at `host`.
pub fn endpoint_url(host: &str, endpoint: &str) -> (url: String)
    ensures
        url@ == url_text(host@, endpoint@),
{
    let mut url = String::from_str("http://");
    proof {
        reveal_strlit("http://");
    }
    assert(url@ =~= scheme());
    url.append(host);
    push_char(&mut url, '/');
    url.append(endpoint);
    assert(url@ =~= url_text(host@, endpoint@));
    url
}

/// Whether `req` is a POST to `endpoint` that carries the token `token` and
/// nothing else.
pub open spec fn is_token_request(
    req: ApiRequest,
    host: Seq<char>,
    endpoint: Seq<char>,
    token: Seq<char>,
) -> bool {
    &&& req.url@ == url_text(host, endpoint)
    &&& req.body matches Some(RequestBody::Token(p)) && p.token@ == token
}

/// Whether `req` is a POST to `endpoint` that carries a token and a text.
pub open spec fn is_text_request(
    req: ApiRequest,
    host: Seq<char>,
    endpoint: Seq<char>,
    token: Seq<char>,
    text: Seq<char>,
) -> bool {
    &&& req.url@ == url_text(host, endpoint)
    &&& req.body matches Some(RequestBody::Text(p)) && p.token@ == token && p.string@ == text
}

/// Whether `req` is a POST to `endpoint` that carries a token and the
/// identifier of a record.
pub open spec fn is_record_request(
    req: ApiRequest,
    host: Seq<char>,
    endpoint: Seq<char>,
    token: Seq<char>,
    id: u128,
) -> bool {
    &&& req.url@ == url_text(host, endpoint)
    &&& req.body matches Some(RequestBody::Record(p)) && p.token@ == token && p.uuid == id
}

/// The request that logs in: a POST of the credentials to `login`. The
/// reply's text is the session token, possibly after a message and `|`.
pub fn login(host: &str, username: &str, password: &str) -> (req: ApiRequest)
    ensures
        req.url@ == url_text(host@, "login"@),
        req.body matches Some(RequestBody::Login(p)) && p.username@ == username@
            && p.password@ == password@,
{
    ApiRequest {
        url: endpoint_url(host, "login"),
        body: Some(
            RequestBody::Login(LoginPacket { username: owned(username), password: owned(password) }),
        ),
    }
}

/// The request that asks for the prompt the next wallpaper would be made
/// from: a POST of the token to `queryprompt`.
pub fn query_prompt(host: &str, token: &str) -> (req: ApiRequest)
    ensures
        is_token_request(req, host@, "queryprompt"@, token@),
{
    ApiRequest {
        url: endpoint_url(host, "queryprompt"),
        body: Some(RequestBody::Token(TokenPacket { token: owned(token) })),
    }
}

/// The request that has a new wallpaper made, guided by `message`: a POST to
/// `generate`.
pub fn generate_wallpaper(host: &str, token: &str, message: &str) -> (req: ApiRequest)
    ensures
        is_text_request(req, host@, "generate"@, token@, message@),
{
    ApiRequest {
        url: endpoint_url(host, "generate"),
        body: Some(
            RequestBody::Text(TokenStringPacket { token: owned(token), string: owned(message) }),
        ),
    }
}

/// The request that adds a comment: a POST to `commentadd`.
pub fn add_comment(host: &str, token: &str, comment: &str) -> (req: ApiRequest)
    ensures
        is_text_request(req, host@, "commentadd"@, token@, comment@),
{
    ApiRequest {
        url: endpoint_url(host, "commentadd"),
        body: Some(
            RequestBody::Text(TokenStringPacket { token: owned(token), string: owned(comment) }),
        ),
    }
}

/// The request that removes a comment: a POST to `commentremove`.
pub fn remove_comment(host: &str, token: &str, comment_id: u128) -> (req: ApiRequest)
    ensures
        is_record_request(req, host@, "commentremove"@, token@, comment_id),
{
    ApiRequest {
        url: endpoint_url(host, "commentremove"),
        body: Some(RequestBody::Record(TokenUuidPacket { token: owned(token), uuid: comment_id })),
    }
}

/// The request that rates a wallpaper: a POST to `imageliked`.
pub fn like_image(host: &str, token: &str, image_id: u128, liked: LikedState) -> (req:
    ApiRequest)
    ensures
        req.url@ == url_text(host@, "imageliked"@),
        req.body matches Some(RequestBody::Rating(p)) && p.token@ == token@ && p.uuid == image_id
            && p.liked == liked,
{
    ApiRequest {
        url: endpoint_url(host, "imageliked"),
        body: Some(
            RequestBody::Rating(
                TokenUuidLikedPacket { token: owned(token), uuid: image_id, liked: liked },
            ),
        ),
    }
}

/// The request that removes a wallpaper: a POST to `imageremove`.
pub fn remove_image(host: &str, token: &str, image_id: u128) -> (req: ApiRequest)
    ensures
        is_record_request(req, host@, "imageremove"@, token@, image_id),
{
    ApiRequest {
        url: endpoint_url(host, "imageremove"),
        body: Some(RequestBody::Record(TokenUuidPacket { token: owned(token), uuid: image_id })),
    }
}

/// The request that makes a wallpaper again from its prompt: a POST to
/// `imagerecreate`.
pub fn recreate_image(host: &str, token: &str, image_id: u128) -> (req: ApiRequest)
    ensures
        is_record_request(req, host@, "imagerecreate"@, token@, image_id),
{
    ApiRequest {
        url: endpoint_url(host, "imagerecreate"),
        body: Some(RequestBody::Record(TokenUuidPacket { token: owned(token), uuid: image_id })),
    }
}

/// The request that replaces one of the style texts: a POST to `styles`.
pub fn edit_styles(host: &str, token: &str, variant: StyleVariant, new: &str) -> (req:
    ApiRequest)
    ensures
        req.url@ == url_text(host@, "styles"@),
        req.body matches Some(RequestBody::Style(p)) && p.token@ == token@ && p.variant == variant
            && p.string@ == new@,
{
    ApiRequest {
        url: endpoint_url(host, "styles"),
        body: Some(
            RequestBody::Style(
                SetStylePacket { token: owned(token), variant: variant, string: owned(new) },
            ),
        ),
    }
}

/// The request that fetches the whole database: a GET of `get`.
pub fn get_database(host: &str) -> (req: ApiRequest)
    ensures
        req.url@ == url_text(host@, "get"@),
        req.body is None,
{
    ApiRequest { url: endpoint_url(host, "get"), body: None }
}

/// Why a request failed.
pub enum NetError {
    /// The server answered with a status other than 200, and this text.
    BadStatus { status: u16, text: String },
    /// The request did not reach the server, for this reason.
    Network { reason: String },
    /// A reply that should carry text carried none.
    MissingText,
    /// A reply that should carry the database carried something else.
    Undecodable,
}

/// `Bad status `
pub open spec fn bad_status_lead() -> Seq<char> {
    seq!['B', 'a', 'd', ' ', 's', 't', 'a', 't', 'u', 's', ' ']
}

/// `Network error: `
pub open spec fn network_lead() -> Seq<char> {
    seq!['N', 'e', 't', 'w', 'o', 'r', 'k', ' ', 'e', 'r', 'r', 'o', 'r', ':', ' ']
}

/// The message that reports a failed request.
pub open spec fn net_error_text(e: NetError) -> Seq<char> {
    match e {
        NetError::BadStatus { status, text } => bad_status_lead() + decimal_text(status as nat)
            + seq![':', ' '] + text@,
        NetError::Network { reason } => network_lead() + reason@,
        NetError::MissingText => "Failed to extract text"@,
        NetError::Undecodable => "Failed to decode database"@,
    }
}

impl NetError {
    /// The message that reports this failure:
    /// `Bad status {status}: {text}`, `Network error: {reason}`, or a
    /// fixed sentence.
    pub fn message(&self) -> (m: String)
        ensures
            m@ == net_error_text(*self),
    {
        match self {
            NetError::BadStatus { status, text } => {
                let mut m = String::from_str("Bad status ");
                proof {
                    reveal_strlit("Bad status ");
                }
                assert(m@ =~= bad_status_lead());
                let digits = decimal(*status as u64);
                m.append(digits.as_str());
                push_char(&mut m, ':');
                push_char(&mut m, ' ');
                m.append(text.as_str());
                assert(m@ =~= net_error_text(*self));
                m
            },
            NetError::Network { reason } => {
                let mut m = String::from_str("Network error: ");
                proof {
                    reveal_strlit("Network error: ");
                }
                assert(m@ =~= network_lead());
                m.append(reason.as_str());
                m
            },
            NetError::MissingText => String::from_str("Failed to extract text"),
            NetError::Undecodable => String::from_str("Failed to decode database"),
        }
    }
}

/// The text of a reply, or the empty text where it has none.
pub open spec fn text_or_empty(text: Option<String>) -> Seq<char> {
    match text {
        Some(t) => t@,
        None => Seq::empty(),
    }
}

/// Whether `e` reports the status `status` with the reply's text.
pub open spec fn is_bad_status(e: NetError, status: u16, text: Option<String>) -> bool {
    e matches NetError::BadStatus { status: s, text: t } && s == status && t@ == text_or_empty(
        text,
    )
}

/// What a reply to a request that expects no content comes to: success on
/// status 200, else the status and the reply's text.
pub fn unit_outcome(status: u16, text: Option<String>) -> (res: Result<(), NetError>)
    ensures
        status == 200 <==> res is Ok,
        res matches Err(e) ==> is_bad_status(e, status, text),
{
    if status == 200 {
        Ok(())
    } else {
        let t = match text {
            Some(t) => t,
            None => String::new(),
        };
        Err(NetError::BadStatus { status: status, text: t })
    }
}

/// What a reply to a request that expects text comes to: its text on status
/// 200, `MissingText` where a 200 reply has none, else the status and the
/// reply's text.
pub fn text_outcome(status: u16, text: Option<String>) -> (res: Result<String, NetError>)
    ensures
        res matches Ok(t) ==> (status == 200 && (text matches Some(u) && t@ == u@)),
        res is Ok <==> (status == 200 && text is Some),
        status == 200 && text is None ==> res matches Err(NetError::MissingText),
        status != 200 ==> (res matches Err(e) && is_bad_status(e, status, text)),
{
    if status == 200 {
        match text {
            Some(t) => Ok(t),
            None => Err(NetError::MissingText),
        }
    } else {
        match unit_outcome(status, text) {
            Ok(()) => Err(NetError::MissingText),
            Err(e) => Err(e),
        }
    }
}

/// What a reply to the database request comes to: the database decoded from
/// it on status 200, `Undecodable` where its bytes held none, else the status
/// and the reply's text.
pub fn database_outcome(status: u16, text: Option<String>, decoded: Option<Database>) -> (res:
    Result<Database, NetError>)
    ensures
        res is Ok <==> (status == 200 && decoded is Some),
        res matches Ok(db) ==> decoded == Some(db),
        status == 200 && decoded is None ==> res matches Err(NetError::Undecodable),
        status != 200 ==> (res matches Err(e) && is_bad_status(e, status, text)),
{
    match unit_outcome(status, text) {
        Ok(()) => match decoded {
            Some(db) => Ok(db),
            None => Err(NetError::Undecodable),
        },
        Err(e) => Err(e),
    }
}

} // verus!
