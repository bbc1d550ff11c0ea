//! Reaching a provider: the requests the library wants sent, what comes back, and the
//! capability that has to allow the host first.

use crate::error::{Error, ErrorView};
use crate::json::{json_bytes, json_of, json_write, JsonView};
use crate::text::{every_tail_is_taken_off, trim_tails, without_tails};
use vstd::prelude::*;
use vstd::string::*;

verus! {

// ---- requests and replies ----------------------------------------------------------

/// The HTTP methods the library uses.
#[derive(Clone, Copy, Debug, PartialEq, Eq, Structural)]
pub enum Method {
    Get,
    Post,
}

/// A request to send.
#[derive(Debug)]
pub struct HttpCall {
    pub method: Method,
    pub url: String,
    pub headers: Vec<(String, String)>,
    pub body: Vec<u8>,
}

/// [`HttpCall`] over sequences.
#[verifier::ext_equal]
pub struct HttpCallView {
    pub method: Method,
    pub url: Seq<char>,
    pub headers: Seq<(Seq<char>, Seq<char>)>,
    pub body: Seq<u8>,
}

/// Names and values over sequences of characters.
pub open spec fn pairs_view(pairs: Seq<(String, String)>) -> Seq<(Seq<char>, Seq<char>)> {
    pairs.map_values(|pair: (String, String)| (pair.0@, pair.1@))
}

impl View for HttpCall {
    type V = HttpCallView;

    open spec fn view(&self) -> HttpCallView {
        HttpCallView {
            method: self.method,
            url: self.url@,
            headers: pairs_view(self.headers@),
            body: self.body@,
        }
    }
}

/// What a server answered.
#[derive(Debug)]
pub struct HttpReply {
    pub status: u16,
    pub body: Vec<u8>,
}

/// [`HttpReply`] over sequences.
#[verifier::ext_equal]
pub struct HttpReplyView {
    pub status: u16,
    pub body: Seq<u8>,
}

impl View for HttpReply {
    type V = HttpReplyView;

    open spec fn view(&self) -> HttpReplyView {
        HttpReplyView { status: self.status, body: self.body@ }
    }
}

/// What came back for a request: a reply, or why none did.
pub open spec fn reply_view(reply: Result<HttpReply, String>) -> Result<
    HttpReplyView,
    Seq<char>,
> {
    match reply {
        Ok(reply) => Ok(reply@),
        Err(message) => Err(message@),
    }
}

/// The header that says the body is JSON.
pub open spec fn json_header() -> (Seq<char>, Seq<char>) {
    ("Content-Type"@, "application/json"@)
}

/// A bare GET of `url`.
pub open spec fn get_call(url: Seq<char>) -> HttpCallView {
    HttpCallView { method: Method::Get, url, headers: Seq::empty(), body: Seq::empty() }
}

/// A POST of a JSON body to `url`.
pub open spec fn post_call(url: Seq<char>, content: JsonView) -> HttpCallView {
    HttpCallView {
        method: Method::Post,
        url,
        headers: seq![json_header()],
        body: json_bytes(content),
    }
}

/// A bare GET of `url`.
pub fn get(url: &str) -> (call: HttpCall)
    ensures
        call@ == get_call(url@),
{
    let call = HttpCall {
        method: Method::Get,
        url: url.to_owned(),
        headers: Vec::new(),
        body: Vec::new(),
    };
    assert(call@ =~= get_call(url@));
    call
}

/// A POST of a JSON body to `url`.
pub fn post_json(url: &str, payload: &serde_json::Value) -> (call: HttpCall)
    ensures
        call@ == post_call(url@, json_of(*payload)),
{
    let mut headers: Vec<(String, String)> = Vec::new();
    headers.push(("Content-Type".to_owned(), "application/json".to_owned()));
    let call = HttpCall {
        method: Method::Post,
        url: url.to_owned(),
        headers,
        body: json_write(payload),
    };
    assert(call@ =~= post_call(url@, json_of(*payload)));
    call
}

// ---- the capability gate -----------------------------------------------------------

/// A capability of `ikigai_core`, opaque here: what it grants is [`scopes_of`].
#[verifier::external_type_specification]
#[verifier::external_body]
pub struct ExCapability(ikigai_core::Capability);

/// The scopes a capability holds; `None` for the root capability, which holds all.
pub uninterp spec fn scopes_of(capability: ikigai_core::Capability) -> Option<Set<Seq<char>>>;

/// Whether a capability with these scopes allows a request to `path` on `host`.
pub uninterp spec fn net_allowed(
    scopes: Option<Set<Seq<char>>>,
    host: Seq<char>,
    path: Seq<char>,
) -> bool;

/// Whether the scopes grant nothing of the network: they are limited, and none is one of
/// the network's.
pub open spec fn grants_no_net(scopes: Option<Set<Seq<char>>>) -> bool {
    scopes matches Some(held) && forall|scope: Seq<char>| #[trigger]
        held.contains(scope) ==> !"urn:cap:net:"@.is_prefix_of(scope)
}

/// Whether the scopes are the one of this host, where that scope is a rule for the host and
/// nothing else: the name is not empty, begins with no `-` and holds no `:` or `/`.
pub open spec fn grants_host(scopes: Option<Set<Seq<char>>>, host: Seq<char>) -> bool {
    &&& scopes == Some(Set::<Seq<char>>::empty().insert("urn:cap:net:"@ + host))
    &&& host.len() > 0
    &&& host[0] != '-'
    &&& !host.contains(':')
    &&& !host.contains('/')
}

/// `ikigai_http::net_allows`: whether the capability's scopes allow the host and path.
/// The root capability allows everything, one without a scope of the network nothing, and
/// one whose only scope is that of the host allows it; in between the matcher of
/// `ikigai_http` decides, by the scopes, the host and the path alone.
#[verifier::external_body]
pub(crate) fn net_allows(capability: &ikigai_core::Capability, host: &str, path: &str) -> (allowed:
    bool)
    ensures
        allowed == net_allowed(scopes_of(*capability), host@, path@),
        scopes_of(*capability) is None ==> allowed,
        grants_no_net(scopes_of(*capability)) ==> !allowed,
        grants_host(scopes_of(*capability), host@) ==> allowed,
{
    ikigai_http::net_allows(capability, host, path)
}

/// The host, if it has one, and the path of a URL, or the parser's message about it.
pub uninterp spec fn url_parts(url: Seq<char>) -> Result<
    (Option<Seq<char>>, Seq<char>),
    Seq<char>,
>;

/// `url::Url::parse`, read with `host_str` and `path`, with a failure as its message.
/// What a URL is is the parser's to know: all three are functions of the text.
#[verifier::external_body]
pub(crate) fn parse_url(url: &str) -> (parts: Result<(Option<String>, String), String>)
    ensures
        match parts {
            Ok((host, path)) => url_parts(url@) == Ok::<
                (Option<Seq<char>>, Seq<char>),
                Seq<char>,
            >((host.deep_view(), path@)),
            Err(message) => url_parts(url@) == Err::<
                (Option<Seq<char>>, Seq<char>),
                Seq<char>,
            >(message@),
        },
{
    url::Url::parse(url).map(
        |parsed| (parsed.host_str().map(|host| host.to_owned()), parsed.path().to_owned()),
    ).map_err(|error| error.to_string())
}

/// The host's name, empty where the URL has none.
pub open spec fn host_name(host: Option<Seq<char>>) -> Seq<char> {
    match host {
        Some(host) => host,
        None => Seq::empty(),
    }
}

/// The URL of `path` under a base URL.
pub open spec fn url_under(base_url: Seq<char>, path: Seq<char>) -> Seq<char> {
    without_tails(base_url, "/"@) + "/"@ + path
}

/// The URL of `path` under `base_url` where the capability allows it; else why not,
/// on behalf of `who`.
pub open spec fn reach(
    scopes: Option<Set<Seq<char>>>,
    base_url: Seq<char>,
    path: Seq<char>,
    who: Seq<char>,
) -> Result<Seq<char>, ErrorView> {
    let url = url_under(base_url, path);
    match url_parts(url) {
        Err(message) => Err(
            ErrorView::Endpoint(who + ": bad base_url `"@ + base_url + "`: "@ + message),
        ),
        Ok((host, url_path)) => if net_allowed(scopes, host_name(host), url_path) {
            Ok(url)
        } else {
            Err(
                ErrorView::Endpoint(
                    who + ": capability does not allow reaching `"@ + host_name(host)
                        + "` (needs urn:cap:net:"@ + host_name(host) + ")"@,
                ),
            )
        },
    }
}

/// The URL of Ollama's native `/api/<what>`, which lives at the server's root and not
/// under the OpenAI-compatible `/v1`.
pub open spec fn native_url(base_url: Seq<char>, what: Seq<char>) -> Seq<char> {
    without_tails(without_tails(base_url, "/"@), "/v1"@) + "/api/"@ + what
}

/// The native URL where it is one and the capability allows it.
pub open spec fn reach_native(
    scopes: Option<Set<Seq<char>>>,
    base_url: Seq<char>,
    what: Seq<char>,
) -> Option<Seq<char>> {
    let url = native_url(base_url, what);
    match url_parts(url) {
        Ok((host, url_path)) if net_allowed(scopes, host_name(host), url_path) => Some(url),
        _ => None,
    }
}

/// Gate a request to `path` under `base_url` by the capability and return the full URL.
/// Every request to a provider's OpenAI-compatible face goes through here. A capability
/// that grants nothing of the network passes nothing, the root capability whatever is a URL,
/// and the scope of a host what is a URL on that host.
pub fn require_net(
    capability: &ikigai_core::Capability,
    base_url: &str,
    path: &str,
    who: &str,
) -> (url: Result<String, Error>)
    ensures
        match url {
            Ok(url) => reach(scopes_of(*capability), base_url@, path@, who@) == Ok::<
                Seq<char>,
                ErrorView,
            >(url@),
            Err(error) => reach(scopes_of(*capability), base_url@, path@, who@) == Err::<
                Seq<char>,
                ErrorView,
            >(error@),
        },
        grants_no_net(scopes_of(*capability)) ==> url is Err,
        scopes_of(*capability) is None && url_parts(url_under(base_url@, path@)) is Ok ==> url
            is Ok,
        url_parts(url_under(base_url@, path@)) matches Ok(parts) ==> grants_host(
            scopes_of(*capability),
            host_name(parts.0),
        ) ==> url is Ok,
{
    let mut url = trim_tails(base_url, "/").to_owned();
    url.append("/");
    url.append(path);
    match parse_url(url.as_str()) {
        Err(message) => {
            let mut text = who.to_owned();
            text.append(": bad base_url `");
            text.append(base_url);
            text.append("`: ");
            text.append(message.as_str());
            Err(Error::Endpoint(text))
        },
        Ok((host, url_path)) => {
            let host = host_or_empty(host);
            if net_allows(capability, host.as_str(), url_path.as_str()) {
                Ok(url)
            } else {
                let mut text = who.to_owned();
                text.append(": capability does not allow reaching `");
                text.append(host.as_str());
                text.append("` (needs urn:cap:net:");
                text.append(host.as_str());
                text.append(")");
                Err(Error::Endpoint(text))
            }
        },
    }
}

fn host_or_empty(host: Option<String>) -> (name: String)
    ensures
        name@ == host_name(host.deep_view()),
{
    match host {
        Some(host) => host,
        None => String::new(),
    }
}

/// The native URL where it is one and the capability allows it, by the same gate.
pub fn allow_native(capability: &ikigai_core::Capability, base_url: &str, what: &str) -> (url:
    Option<String>)
    ensures
        url.deep_view() == reach_native(scopes_of(*capability), base_url@, what@),
        grants_no_net(scopes_of(*capability)) ==> url is None,
        scopes_of(*capability) is None && url_parts(native_url(base_url@, what@)) is Ok ==> url
            is Some,
        url_parts(native_url(base_url@, what@)) matches Ok(parts) ==> grants_host(
            scopes_of(*capability),
            host_name(parts.0),
        ) ==> url is Some,
{
    let mut url = trim_tails(trim_tails(base_url, "/"), "/v1").to_owned();
    url.append("/api/");
    url.append(what);
    match parse_url(url.as_str()) {
        Ok((host, url_path)) => {
            let host = host_or_empty(host);
            if net_allows(capability, host.as_str(), url_path.as_str()) {
                Some(url)
            } else {
                None
            }
        },
        Err(_) => None,
    }
}

// ---- what reaching a provider promises ---------------------------------------------

/// Whether a text ends in another.
pub open spec fn has_end(text: Seq<char>, end: Seq<char>) -> bool {
    exists|head: Seq<char>| text == #[trigger] (head + end)
}

/// Whether a base URL has a root: it is the root, with any number of slashes behind it, and
/// the root ends in none.
pub open spec fn has_root(base_url: Seq<char>, root: Seq<char>, slashes: nat) -> bool {
    base_url == root + Seq::new(slashes, |i: int| '/') && !has_end(root, "/"@)
}

proof fn slashes_are_taken_off(root: Seq<char>, slashes: nat)
    requires
        !has_end(root, "/"@),
    ensures
        without_tails(root + Seq::new(slashes, |i: int| '/'), "/"@) == root,
    decreases slashes,
{
    reveal_strlit("/");
    let row = Seq::new(slashes, |i: int| '/');
    if slashes == 0 {
        assert(root + row =~= root);
        every_tail_is_taken_off(root, "/"@);
    } else {
        let fewer = (slashes - 1) as nat;
        let less = Seq::new(fewer, |i: int| '/');
        slashes_are_taken_off(root, fewer);
        every_tail_is_taken_off(root + less, "/"@);
        assert(root + row =~= root + less + "/"@);
    }
}

/// A request goes to the path under the base URL, one slash between them however many the
/// base URL ends in, and it may be sent if and only if that is a URL whose host and path the
/// capability allows; a refusal says who asked, and which host or why it is no URL.
pub proof fn a_request_goes_under_the_base_url(
    capability: &ikigai_core::Capability,
    base_url: &str,
    path: &str,
    who: &str,
    url: Result<String, Error>,
    root: Seq<char>,
    slashes: nat,
)
    requires
        call_ensures(require_net, (capability, base_url, path, who), url),
        has_root(base_url@, root, slashes),
    ensures
        ({
            let target = root + "/"@ + path@;
            match (url, url_parts(target)) {
                (Ok(url), Ok((host, url_path))) => url@ == target && net_allowed(
                    scopes_of(*capability),
                    if host is Some {
                        host->0
                    } else {
                        Seq::empty()
                    },
                    url_path,
                ),
                (Err(error), Ok((host, url_path))) => {
                    let name = if host is Some {
                        host->0
                    } else {
                        Seq::empty()
                    };
                    !net_allowed(scopes_of(*capability), name, url_path) && error@
                        == ErrorView::Endpoint(
                        who@ + ": capability does not allow reaching `"@ + name
                            + "` (needs urn:cap:net:"@ + name + ")"@,
                    )
                },
                (Err(error), Err(message)) => error@ == ErrorView::Endpoint(
                    who@ + ": bad base_url `"@ + base_url@ + "`: "@ + message,
                ),
                (Ok(_), Err(_)) => false,
            }
        }),
{
    slashes_are_taken_off(root, slashes);
}

/// Ollama's native interface stands beside the OpenAI-compatible one: its requests go under
/// the root without `/v1`, and may be sent if and only if that is a URL whose host and path
/// the capability allows.
pub proof fn a_native_request_goes_beside_the_base_url(
    capability: &ikigai_core::Capability,
    base_url: &str,
    what: &str,
    url: Option<String>,
    server: Seq<char>,
    root: Seq<char>,
    slashes: nat,
)
    requires
        call_ensures(allow_native, (capability, base_url, what), url),
        has_root(base_url@, root, slashes),
        root == server || root == server + "/v1"@,
        !has_end(server, "/v1"@),
    ensures
        ({
            let target = server + "/api/"@ + what@;
            match (url, url_parts(target)) {
                (Some(url), Ok((host, url_path))) => url@ == target && net_allowed(
                    scopes_of(*capability),
                    if host is Some {
                        host->0
                    } else {
                        Seq::empty()
                    },
                    url_path,
                ),
                (None, Ok((host, url_path))) => !net_allowed(
                    scopes_of(*capability),
                    if host is Some {
                        host->0
                    } else {
                        Seq::empty()
                    },
                    url_path,
                ),
                (url, Err(_)) => url is None,
            }
        }),
{
    slashes_are_taken_off(root, slashes);
    reveal_strlit("/v1");
    every_tail_is_taken_off(server, "/v1"@);
}

/// Requests are what they say: a bare GET has no header and no body, and a POST of JSON has
/// the header that says so and the JSON as its body.
pub proof fn requests_are_what_they_say(
    url: &str,
    payload: &serde_json::Value,
    got: HttpCall,
    posted: HttpCall,
)
    requires
        call_ensures(get, (url,), got),
        call_ensures(post_json, (url, payload), posted),
    ensures
        got@.method == Method::Get && got@.url == url@ && got@.headers.len() == 0
            && got@.body.len() == 0,
        posted@.method == Method::Post && posted@.url == url@,
        posted@.headers == seq![("Content-Type"@, "application/json"@)],
        posted@.body == json_bytes(json_of(*payload)),
{
}

} // verus!
