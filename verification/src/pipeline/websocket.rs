//! WebSocket upgrades: telling them from other requests, and passing them on.
//!
//! An upgrade is recognised in the raw bytes of a connection, before any codec
//! reads them, so that the connection can become a tunnel.

use vstd::prelude::*;
use vstd::utf8::{decode_utf8, encode_utf8, valid_utf8};

use crate::config::{Backend, ProxyConfig};
use crate::filter::{header_views, HeaderModel};
use crate::headers;
use crate::pipeline::balance;
use crate::pipeline::meta::{self, RequestHead, RequestMeta};
use crate::routing::{self, RequestModel, RoutingDecision};
use crate::text;
use crate::uri::{self, RequestUri, UriModel};

verus! {

// ---------------------------------------------------------------------------
// Reading a head
// ---------------------------------------------------------------------------

/// Without an end within this many bytes a head is refused.
pub const HEAD_LIMIT: usize = 65536;

/// Whether an empty line ends at byte `at` and before: carriage return and
/// line feed, twice.
pub open spec fn blank_line_at(bytes: Seq<u8>, at: int) -> bool {
    &&& 0 <= at
    &&& at + 4 <= bytes.len()
    &&& bytes[at] == 13 && bytes[at + 1] == 10 && bytes[at + 2] == 13 && bytes[at + 3] == 10
}

/// Whether the bytes hold a whole head.
pub open spec fn head_ends(bytes: Seq<u8>) -> bool {
    exists|at: int| blank_line_at(bytes, at)
}

/// Whether the bytes hold a whole head.
pub fn holds_head(bytes: &[u8]) -> (r: bool)
    ensures
        r == head_ends(bytes@),
{
    if bytes.len() < 4 {
        return false;
    }
    let mut at: usize = 0;
    while at <= bytes.len() - 4
        invariant
            bytes.len() >= 4,
            at <= bytes.len() - 3,
            forall|k: int| 0 <= k < at ==> !blank_line_at(bytes@, k),
        decreases bytes.len() - at,
    {
        if bytes[at] == 13 && bytes[at + 1] == 10 && bytes[at + 2] == 13 && bytes[at + 3] == 10 {
            assert(blank_line_at(bytes@, at as int));
            return true;
        }
        at += 1;
    }
    false
}

/// Where reading a head stands.
#[derive(Debug, Clone, Copy, PartialEq, Eq, Structural)]
pub enum HeadProgress {
    /// More is to be read.
    More,
    /// The head is there.
    Complete,
    /// The limit is passed and no end in sight.
    TooLarge,
    /// The peer closed the connection before the end.
    Closed,
}

/// Where reading stands after a read gave `chunk`.
pub open spec fn progress(before: Seq<u8>, chunk: Seq<u8>) -> HeadProgress {
    if chunk.len() == 0 {
        HeadProgress::Closed
    } else if head_ends(before + chunk) {
        HeadProgress::Complete
    } else if (before + chunk).len() > HEAD_LIMIT {
        HeadProgress::TooLarge
    } else {
        HeadProgress::More
    }
}

/// The bytes of a head as they come in.
pub struct HeadReader {
    pub buf: Vec<u8>,
}

impl HeadReader {
    pub fn new() -> (r: Self)
        ensures
            r.buf@ == Seq::<u8>::empty(),
    {
        HeadReader { buf: Vec::new() }
    }

    /// Takes what one read gave. A read that gave nothing is the end of the
    /// connection.
    pub fn feed(&mut self, chunk: &[u8]) -> (r: HeadProgress)
        ensures
            final(self).buf@ == old(self).buf@ + chunk@,
            r == progress(old(self).buf@, chunk@),
    {
        let ghost before = self.buf@;
        if chunk.len() == 0 {
            assert(before + chunk@ =~= before);
            return HeadProgress::Closed;
        }
        let mut i: usize = 0;
        assert(before + chunk@.take(0) =~= before);
        while i < chunk.len()
            invariant
                i <= chunk@.len(),
                self.buf@ == before + chunk@.take(i as int),
            decreases chunk.len() - i,
        {
            self.buf.push(chunk[i]);
            i += 1;
            assert(self.buf@ =~= before + chunk@.take(i as int));
        }
        assert(chunk@.take(i as int) =~= chunk@);
        if holds_head(self.buf.as_slice()) {
            HeadProgress::Complete
        } else if self.buf.len() > HEAD_LIMIT {
            HeadProgress::TooLarge
        } else {
            HeadProgress::More
        }
    }
}

// ---------------------------------------------------------------------------
// Header lines
// ---------------------------------------------------------------------------

/// Whether a line ends the headers: it is empty, but for a carriage return.
pub open spec fn ends_headers(line: Seq<char>) -> bool {
    line.len() == 0 || line == seq!['\r']
}

/// The lines before the one that ends the headers.
pub open spec fn until_blank(lines: Seq<Seq<char>>) -> Seq<Seq<char>>
    decreases lines.len(),
{
    if lines.len() == 0 || ends_headers(lines[0]) {
        Seq::empty()
    } else {
        seq![lines[0]] + until_blank(lines.skip(1))
    }
}

/// The header lines of a request: those behind the request line.
pub open spec fn header_lines(request: Seq<char>) -> Seq<Seq<char>> {
    let all = text::lines(request);
    if all.len() == 0 {
        Seq::empty()
    } else {
        until_blank(all.skip(1))
    }
}

/// The name and the value of a header line, `None` where it has no colon.
pub open spec fn field_of(line: Seq<char>) -> Option<HeaderModel> {
    match text::cut_at_first(line, ':') {
        Some((name, value)) => Some((text::trim(name), text::trim(value))),
        None => None,
    }
}

/// The fields of some header lines, in their order; lines without a colon are
/// passed over.
pub open spec fn fields_of(lines: Seq<Seq<char>>) -> Seq<HeaderModel>
    decreases lines.len(),
{
    if lines.len() == 0 {
        Seq::empty()
    } else {
        let before = fields_of(lines.drop_last());
        match field_of(lines.last()) {
            Some(field) => before.push(field),
            None => before,
        }
    }
}

proof fn lemma_until_blank(lines: Seq<Seq<char>>, n: int)
    requires
        0 <= n <= lines.len(),
        forall|i: int| 0 <= i < n ==> !ends_headers(#[trigger] lines[i]),
        n == lines.len() || ends_headers(lines[n]),
    ensures
        until_blank(lines) == lines.take(n),
    decreases n,
{
    if n > 0 {
        let rest = lines.skip(1);
        assert forall|i: int| 0 <= i < n - 1 implies !ends_headers(#[trigger] rest[i]) by {
            assert(rest[i] == lines[i + 1]);
        }
        lemma_until_blank(rest, n - 1);
        assert(seq![lines[0]] + rest.take(n - 1) =~= lines.take(n));
    } else {
        assert(lines.take(0) =~= Seq::empty());
    }
}

/// The header fields of the request, in their order.
pub fn parse_fields(request: &str) -> (r: Vec<(String, String)>)
    ensures
        header_views(r@) == fields_of(header_lines(request@)),
{
    let lines = text::text_lines(request);
    let ghost all = text::lines(request@);
    let mut r: Vec<(String, String)> = Vec::new();
    assert(header_views(r@) =~= Seq::empty());
    if lines.len() == 0 {
        return r;
    }
    let ghost rest = all.skip(1);
    let mut i: usize = 1;
    assert(rest.take(0) =~= Seq::empty());
    while i < lines.len()
        invariant
            1 <= i <= lines@.len(),
            text::views(lines@) == all,
            all == text::lines(request@),
            rest == all.skip(1),
            forall|k: int| 0 <= k < i - 1 ==> !ends_headers(#[trigger] rest[k]),
            header_views(r@) == fields_of(rest.take(i - 1)),
        decreases lines.len() - i,
    {
        let line = lines[i].as_str();
        assert(line@ == rest[i - 1]);
        proof {
            reveal_strlit("\r");
            assert("\r"@ =~= seq!['\r']);
        }
        if line.is_empty() || text::same(line, "\r") {
            proof {
                lemma_until_blank(rest, i - 1);
            }
            return r;
        }
        assert(rest.take(i as int).drop_last() =~= rest.take(i - 1));
        let ghost before = r@;
        if let Some((name, value)) = text::split_once(line, ':') {
            assert(text::cut_at_first(line@, ':') == Some((name@, value@)));
            r.push((text::trimmed(name.as_str()), text::trimmed(value.as_str())));
            assert(header_views(r@) =~= header_views(before).push(field_of(line@)->0));
        }
        i += 1;
    }
    proof {
        lemma_until_blank(rest, i - 1);
    }
    r
}

// ---------------------------------------------------------------------------
// Recognising an upgrade
// ---------------------------------------------------------------------------

/// Whether a list of tokens, separated by commas, holds the token `upgrade`.
pub open spec fn lists_upgrade(value: Seq<char>) -> bool {
    let pieces = text::split(value, ',');
    exists|i: int|
        0 <= i < pieces.len() && text::same_ignoring_case(
            text::trim(#[trigger] pieces[i]),
            "upgrade"@,
        )
}

/// Whether the list of tokens holds the token `upgrade`.
pub fn has_upgrade_token(value: &str) -> (r: bool)
    ensures
        r == lists_upgrade(value@),
{
    let pieces = text::split_on(value, ',');
    let ghost all = text::split(value@, ',');
    let mut i: usize = 0;
    while i < pieces.len()
        invariant
            i <= pieces@.len(),
            text::views(pieces@) == all,
            all == text::split(value@, ','),
            forall|k: int|
                0 <= k < i ==> !text::same_ignoring_case(
                    text::trim(#[trigger] all[k]),
                    "upgrade"@,
                ),
        decreases pieces.len() - i,
    {
        assert(pieces@[i as int]@ == all[i as int]);
        let piece = text::trimmed(pieces[i].as_str());
        if text::eq_ignore_ascii_case(piece.as_str(), "upgrade") {
            assert(text::same_ignoring_case(text::trim(all[i as int]), "upgrade"@));
            return true;
        }
        i += 1;
    }
    false
}

/// What is seen of an upgrade in header fields.
#[derive(Debug, Clone, Copy, PartialEq, Eq, Structural)]
pub struct UpgradeSigns {
    /// The last `Connection` header lists `upgrade`.
    pub connection: bool,
    /// The last `Upgrade` header is `websocket`.
    pub upgrade: bool,
    /// There is a `Sec-WebSocket-Version` header.
    pub version: bool,
    /// There is a `Sec-WebSocket-Key` header.
    pub key: bool,
}

/// The signs with one field more.
pub open spec fn with_field(before: UpgradeSigns, field: HeaderModel) -> UpgradeSigns {
    if text::same_ignoring_case(field.0, "connection"@) {
        UpgradeSigns { connection: lists_upgrade(field.1), ..before }
    } else if text::same_ignoring_case(field.0, "upgrade"@) {
        UpgradeSigns { upgrade: text::same_ignoring_case(field.1, "websocket"@), ..before }
    } else if text::same_ignoring_case(field.0, "sec-websocket-version"@) {
        UpgradeSigns { version: true, ..before }
    } else if text::same_ignoring_case(field.0, "sec-websocket-key"@) {
        UpgradeSigns { key: true, ..before }
    } else {
        before
    }
}

/// The signs in some fields.
pub open spec fn signs_in(fields: Seq<HeaderModel>) -> UpgradeSigns
    decreases fields.len(),
{
    if fields.len() == 0 {
        UpgradeSigns { connection: false, upgrade: false, version: false, key: false }
    } else {
        with_field(signs_in(fields.drop_last()), fields.last())
    }
}

/// Whether all four signs are there.
pub open spec fn all_signs(s: UpgradeSigns) -> bool {
    s.connection && s.upgrade && s.version && s.key
}

/// Whether raw bytes are a request for a WebSocket upgrade.
pub open spec fn raw_upgrade(raw: Seq<u8>) -> bool {
    valid_utf8(raw) && all_signs(signs_in(fields_of(header_lines(decode_utf8(raw)))))
}

/// Whether the raw bytes are a request for a WebSocket upgrade.
pub fn is_raw_websocket_upgrade(raw: &[u8]) -> (r: bool)
    ensures
        r == raw_upgrade(raw@),
{
    match text::utf8_text(raw) {
        None => false,
        Some(request) => {
            let fields = parse_fields(request.as_str());
            let ghost all = fields_of(header_lines(request@));
            let mut signs = UpgradeSigns {
                connection: false,
                upgrade: false,
                version: false,
                key: false,
            };
            let mut i: usize = 0;
            assert(all.take(0) =~= Seq::empty());
            while i < fields.len()
                invariant
                    i <= fields@.len(),
                    header_views(fields@) == all,
                    signs == signs_in(all.take(i as int)),
                decreases fields.len() - i,
            {
                assert(all.take(i + 1).drop_last() =~= all.take(i as int));
                assert(all[i as int] == (fields@[i as int].0@, fields@[i as int].1@));
                let name = fields[i].0.as_str();
                let value = fields[i].1.as_str();
                if text::eq_ignore_ascii_case(name, "connection") {
                    signs.connection = has_upgrade_token(value);
                } else if text::eq_ignore_ascii_case(name, "upgrade") {
                    signs.upgrade = text::eq_ignore_ascii_case(value, "websocket");
                } else if text::eq_ignore_ascii_case(name, "sec-websocket-version") {
                    signs.version = true;
                } else if text::eq_ignore_ascii_case(name, "sec-websocket-key") {
                    signs.key = true;
                }
                i += 1;
            }
            assert(all.take(i as int) =~= all);
            signs.connection && signs.upgrade && signs.version && signs.key
        },
    }
}

/// The text of the first value of a header, where it is visible ASCII.
pub open spec fn first_text(list: Seq<(Seq<char>, Seq<u8>)>, name: Seq<char>) -> Option<Seq<char>> {
    if headers::has_name(list, name) && headers::all_visible(headers::values_of(list, name)[0]) {
        Some(headers::ascii_text(headers::values_of(list, name)[0]))
    } else {
        None
    }
}

/// The text of the first value of the header, where it is visible ASCII.
fn first_header_text(map: &headers::Headers, name: &str) -> (r: Option<String>)
    requires
        headers::is_header_name(name@),
        text::lower(name@) == name@,
    ensures
        text::opt_owned(r) == first_text(headers::header_list(*map), name@),
{
    match headers::get_header(map, name) {
        Some(v) => headers::value_text(v.as_slice()),
        None => None,
    }
}

/// Whether a parsed request asks for a WebSocket upgrade: its `Connection`
/// header lists `upgrade`, its `Upgrade` header is `websocket`, and it has a
/// `Sec-WebSocket-Version` and a `Sec-WebSocket-Key` header.
pub open spec fn upgrade_requested(list: Seq<(Seq<char>, Seq<u8>)>) -> bool {
    &&& first_text(list, "connection"@) matches Some(v) && lists_upgrade(v)
    &&& first_text(list, "upgrade"@) matches Some(v) && text::same_ignoring_case(v, "websocket"@)
    &&& headers::has_name(list, "sec-websocket-version"@)
    &&& headers::has_name(list, "sec-websocket-key"@)
}

/// Whether the request asks for a WebSocket upgrade.
pub fn is_websocket_upgrade(head: &RequestHead) -> (r: bool)
    ensures
        r == upgrade_requested(headers::header_list(head.headers)),
{
    proof {
        reveal_strlit("connection");
        reveal_strlit("upgrade");
        reveal_strlit("sec-websocket-version");
        reveal_strlit("sec-websocket-key");
        assert(text::lower("connection"@) =~= "connection"@);
        assert(text::lower("upgrade"@) =~= "upgrade"@);
        assert(text::lower("sec-websocket-version"@) =~= "sec-websocket-version"@);
        assert(text::lower("sec-websocket-key"@) =~= "sec-websocket-key"@);
    }
    match first_header_text(&head.headers, "connection") {
        Some(v) => if !has_upgrade_token(v.as_str()) {
            return false;
        },
        None => return false,
    }
    match first_header_text(&head.headers, "upgrade") {
        Some(v) => if !text::eq_ignore_ascii_case(v.as_str(), "websocket") {
            return false;
        },
        None => return false,
    }
    headers::get_header(&head.headers, "sec-websocket-version").is_some() && headers::get_header(
        &head.headers,
        "sec-websocket-key",
    ).is_some()
}

// ---------------------------------------------------------------------------
// Routing an upgrade
// ---------------------------------------------------------------------------

/// The first line of a text, empty where there is none.
pub open spec fn first_line(s: Seq<char>) -> Seq<char> {
    if text::lines(s).len() > 0 {
        text::lines(s)[0]
    } else {
        Seq::empty()
    }
}

/// Word number `i` of the first line, or `default` where there is none.
pub open spec fn request_word(request: Seq<char>, i: int, default: Seq<char>) -> Seq<char> {
    let all = text::words(first_line(request));
    if 0 <= i < all.len() {
        all[i]
    } else {
        default
    }
}

/// A field with its name in lower case.
pub open spec fn lowered(field: HeaderModel) -> HeaderModel {
    (text::unicode_lower(field.0), field.1)
}

/// The host that fields name: that of the last `Host` field.
pub open spec fn host_in(fields: Seq<HeaderModel>) -> Option<Seq<char>>
    decreases fields.len(),
{
    if fields.len() == 0 {
        None
    } else if lowered(fields.last()).0 == meta::HOST@ {
        Some(meta::host_name(fields.last().1))
    } else {
        host_in(fields.drop_last())
    }
}

/// What routing reads of a raw request whose URI has these parts.
pub open spec fn upgrade_model(request: Seq<char>, uri: UriModel) -> RequestModel {
    let fields = fields_of(header_lines(request));
    RequestModel {
        host: host_in(fields),
        path: uri.path,
        method: request_word(request, 0, "GET"@),
        headers: fields.map_values(|f: HeaderModel| lowered(f)),
        query_params: meta::parameters_of(uri.query),
    }
}

/// The first line of the text.
fn line_one(s: &str) -> (r: String)
    ensures
        r@ == first_line(s@),
{
    let lines = text::text_lines(s);
    if lines.len() > 0 {
        assert(text::views(lines@)[0] == lines@[0]@);
        lines[0].clone()
    } else {
        assert(text::views(lines@).len() == 0);
        String::new()
    }
}

/// Word number `i` of the first line, or `default` where there is none.
fn first_line_word(request: &str, i: usize, default: &str) -> (r: String)
    ensures
        r@ == request_word(request@, i as int, default@),
{
    let line = line_one(request);
    let words = text::text_words(line.as_str());
    assert(text::views(words@).len() == words@.len());
    if i < words.len() {
        assert(text::views(words@)[i as int] == words@[i as int]@);
        words[i].clone()
    } else {
        default.to_string()
    }
}

/// What routing reads of a raw request, whose URI has been parsed.
pub fn upgrade_meta(request: &str, parsed: &RequestUri) -> (r: RequestMeta)
    ensures
        r@ == upgrade_model(request@, parsed.parts()),
{
    let fields = parse_fields(request);
    let ghost all = fields_of(header_lines(request@));
    let mut host: Option<String> = None;
    let mut pairs: Vec<(String, String)> = Vec::new();
    let mut i: usize = 0;
    assert(all.take(0) =~= Seq::empty());
    while i < fields.len()
        invariant
            i <= fields@.len(),
            header_views(fields@) == all,
            text::opt_owned(host) == host_in(all.take(i as int)),
            pairs@.len() == i,
            forall|k: int|
                0 <= k < i ==> (#[trigger] pairs@[k].0@, pairs@[k].1@) == lowered(all[k]),
        decreases fields.len() - i,
    {
        assert(all.take(i + 1).drop_last() =~= all.take(i as int));
        assert(all[i as int] == (fields@[i as int].0@, fields@[i as int].1@));
        let name = text::to_lowercase(fields[i].0.as_str());
        let value = fields[i].1.clone();
        if text::same(name.as_str(), meta::HOST) {
            host = Some(meta::host_without_port(value.as_str()));
        }
        pairs.push((name, value));
        i += 1;
    }
    assert(all.take(i as int) =~= all);
    assert(header_views(pairs@) =~= all.map_values(|f: HeaderModel| lowered(f)));
    RequestMeta {
        host,
        path: parsed.path.clone(),
        method: first_line_word(request, 0, "GET"),
        headers: pairs,
        query_params: meta::parse_query(&parsed.query),
    }
}

/// What an upgrade request leads to before a backend is chosen.
pub enum UpgradeRoute<'a> {
    /// The request is not text.
    NotText,
    /// The request has no valid URI.
    BadUri,
    /// There is nothing to forward to.
    NoRoute,
    /// One of these backends serves it.
    Backends(&'a [Backend]),
}

/// The URI in the request line of an upgrade.
pub open spec fn upgrade_uri(raw: Seq<u8>) -> Seq<char> {
    request_word(decode_utf8(raw), 1, "/"@)
}

/// What the upgrade request leads to.
pub fn route_upgrade<'a>(raw: &[u8], config: &'a ProxyConfig, listener_name: &str) -> (r:
    UpgradeRoute<'a>)
    ensures
        match r {
            UpgradeRoute::NotText => !valid_utf8(raw@),
            UpgradeRoute::BadUri => valid_utf8(raw@) && uri::uri_parts(upgrade_uri(raw@)) is None,
            _ => {
                &&& valid_utf8(raw@)
                &&& uri::uri_parts(upgrade_uri(raw@)) is Some
                &&& exists|decision: RoutingDecision<'a>| #[trigger]
                    routing::is_decision(
                        *config,
                        listener_name@,
                        upgrade_model(decode_utf8(raw@), uri::uri_parts(upgrade_uri(raw@))->0),
                        decision,
                    ) && match decision {
                        RoutingDecision::Forward { backends, .. } => r == UpgradeRoute::Backends(
                            backends,
                        ),
                        _ => r is NoRoute,
                    }
            },
        },
{
    match text::utf8_text(raw) {
        None => UpgradeRoute::NotText,
        Some(request) => {
            let uri_text = first_line_word(request.as_str(), 1, "/");
            match uri::parse_uri(uri_text.as_str()) {
                None => UpgradeRoute::BadUri,
                Some(parsed) => {
                    let meta = upgrade_meta(request.as_str(), &parsed);
                    let decision = meta::route_request(config, listener_name, &meta);
                    match decision {
                        RoutingDecision::Forward { backends, .. } => {
                            UpgradeRoute::Backends(backends)
                        },
                        _ => UpgradeRoute::NoRoute,
                    }
                },
            }
        },
    }
}

// ---------------------------------------------------------------------------
// Carrying an upgrade out
// ---------------------------------------------------------------------------

/// What the client gets where no backend can be reached.
pub const RAW_BAD_GATEWAY: &'static str =
    "HTTP/1.1 502 Bad Gateway\r\ncontent-length: 15\r\n\r\n502 Bad Gateway";

/// What the client gets where no backend has weight.
pub const RAW_UNAVAILABLE: &'static str =
    "HTTP/1.1 503 Service Unavailable\r\ncontent-length: 23\r\n\r\n503 Service Unavailable";

/// Where an upgrade stands: what it waits for.
#[derive(Debug, Clone, Copy, PartialEq, Eq, Structural)]
pub enum UpgradeState {
    /// For the addresses of the backend.
    Resolving,
    /// For a connection to the backend.
    Connecting,
    /// For the request to be sent on.
    Sending,
    /// For the head of the backend's response.
    Awaiting,
    /// For nothing: the exchange is over, or the connection is a tunnel.
    Finished,
}

/// What has come of the last action.
pub enum UpgradeEvent<A> {
    /// The addresses of the backend, or none if it could not be resolved.
    Resolved(Option<Vec<A>>),
    /// Whether the connection stands.
    Connected(bool),
    /// Whether the request was sent.
    Sent(bool),
    /// The head of the response, or none if it could not be read.
    Replied(Option<Vec<u8>>),
}

/// What to do next.
pub enum UpgradeAction<A> {
    /// Connect to this address.
    Connect(A),
    /// Send the request to the backend as it came in.
    SendRequest,
    /// Read the head of the response.
    ReadReply,
    /// Send these bytes to the client and close.
    Answer(Vec<u8>),
    /// Send these bytes to the client and copy both ways from then on.
    Tunnel(Vec<u8>),
    /// Give up with the error that the event came with.
    Fail,
}

/// Whether the head of a response accepts the upgrade: its first line holds
/// `101`. A head that is not text does not.
pub open spec fn accepts_upgrade(reply: Seq<u8>) -> bool {
    valid_utf8(reply) && text::contains_text(first_line(decode_utf8(reply)), "101"@)
}

/// Whether the head of the response accepts the upgrade.
pub fn is_upgrade_accepted(reply: &[u8]) -> (r: bool)
    ensures
        r == accepts_upgrade(reply@),
{
    match text::utf8_text(reply) {
        Some(t) => {
            let line = line_one(t.as_str());
            text::contains(line.as_str(), "101")
        },
        None => false,
    }
}

/// Whether `action` and `next` are what the event leads to.
pub open spec fn upgrade_steps<A>(
    state: UpgradeState,
    event: UpgradeEvent<A>,
    next: UpgradeState,
    action: UpgradeAction<A>,
) -> bool {
    match (state, event) {
        (UpgradeState::Resolving, UpgradeEvent::Resolved(found)) => {
            if found is Some && found->0@.len() > 0 {
                next == UpgradeState::Connecting && action == UpgradeAction::Connect(found->0@[0])
            } else {
                next == UpgradeState::Finished && (action matches UpgradeAction::Answer(bytes)
                    && bytes@ == encode_utf8(RAW_BAD_GATEWAY@))
            }
        },
        (UpgradeState::Connecting, UpgradeEvent::Connected(ok)) => {
            if ok {
                next == UpgradeState::Sending && action == UpgradeAction::<A>::SendRequest
            } else {
                next == UpgradeState::Finished && (action matches UpgradeAction::Answer(bytes)
                    && bytes@ == encode_utf8(RAW_BAD_GATEWAY@))
            }
        },
        (UpgradeState::Sending, UpgradeEvent::Sent(true)) => {
            next == UpgradeState::Awaiting && action == UpgradeAction::<A>::ReadReply
        },
        (UpgradeState::Awaiting, UpgradeEvent::Replied(Some(reply))) => {
            &&& next == UpgradeState::Finished
            &&& if accepts_upgrade(reply@) {
                action == UpgradeAction::<A>::Tunnel(reply)
            } else {
                action == UpgradeAction::<A>::Answer(reply)
            }
        },
        _ => next == UpgradeState::Finished && action == UpgradeAction::<A>::Fail,
    }
}

/// The next state of an upgrade, and what to do.
pub fn step_upgrade<A>(state: UpgradeState, event: UpgradeEvent<A>) -> (r: (
    UpgradeState,
    UpgradeAction<A>,
))
    ensures
        upgrade_steps(state, event, r.0, r.1),
{
    match (state, event) {
        (UpgradeState::Resolving, UpgradeEvent::Resolved(found)) => {
            if let Some(mut addrs) = found {
                if addrs.len() > 0 {
                    let addr = addrs.remove(0);
                    return (UpgradeState::Connecting, UpgradeAction::Connect(addr));
                }
            }
            (UpgradeState::Finished, UpgradeAction::Answer(text::bytes_of(RAW_BAD_GATEWAY)))
        },
        (UpgradeState::Connecting, UpgradeEvent::Connected(ok)) => {
            if ok {
                (UpgradeState::Sending, UpgradeAction::SendRequest)
            } else {
                (UpgradeState::Finished, UpgradeAction::Answer(text::bytes_of(RAW_BAD_GATEWAY)))
            }
        },
        (UpgradeState::Sending, UpgradeEvent::Sent(true)) => {
            (UpgradeState::Awaiting, UpgradeAction::ReadReply)
        },
        (UpgradeState::Awaiting, UpgradeEvent::Replied(Some(reply))) => {
            if is_upgrade_accepted(reply.as_slice()) {
                (UpgradeState::Finished, UpgradeAction::Tunnel(reply))
            } else {
                (UpgradeState::Finished, UpgradeAction::Answer(reply))
            }
        },
        _ => (UpgradeState::Finished, UpgradeAction::Fail),
    }
}

/// How an upgrade begins.
pub enum UpgradeStart<'a> {
    /// Give up: the request is not text.
    NotText,
    /// Give up: the request has no valid URI.
    BadUri,
    /// Send these bytes to the client and close.
    Answer(Vec<u8>),
    /// Resolve the address of this backend.
    Resolve(&'a Backend),
}

/// How an upgrade begins where the route and the number drawn are given.
pub open spec fn upgrade_begins(route: UpgradeRoute<'_>, start: UpgradeStart<'_>) -> bool {
    match route {
        UpgradeRoute::NotText => start is NotText,
        UpgradeRoute::BadUri => start is BadUri,
        UpgradeRoute::NoRoute => start matches UpgradeStart::Answer(bytes) && bytes@
            == encode_utf8(RAW_BAD_GATEWAY@),
        UpgradeRoute::Backends(backends) => {
            if balance::total_weight(backends@) == 0 {
                start matches UpgradeStart::Answer(bytes) && bytes@ == encode_utf8(
                    RAW_UNAVAILABLE@,
                )
            } else {
                start matches UpgradeStart::Resolve(b) && exists|pick: nat, i: int|
                    pick < balance::total_weight(backends@) && balance::selects(
                        backends@,
                        pick,
                        i,
                    ) && *b == backends@[i] && balance::drawn_from(backends@, *b)
            }
        },
    }
}

/// How the upgrade begins on that route.
pub fn begin_upgrade<'a>(route: UpgradeRoute<'a>) -> (r: UpgradeStart<'a>)
    ensures
        upgrade_begins(route, r),
{
    match route {
        UpgradeRoute::NotText => UpgradeStart::NotText,
        UpgradeRoute::BadUri => UpgradeStart::BadUri,
        UpgradeRoute::NoRoute => UpgradeStart::Answer(text::bytes_of(RAW_BAD_GATEWAY)),
        UpgradeRoute::Backends(backends) => {
            match balance::select_backend(backends) {
                Some(b) => UpgradeStart::Resolve(b),
                None => UpgradeStart::Answer(text::bytes_of(RAW_UNAVAILABLE)),
            }
        },
    }
}

// ---------------------------------------------------------------------------
// Laws
// ---------------------------------------------------------------------------

/// Reading goes on only while the bytes read keep within the limit and hold
/// no whole head.
pub proof fn law_reading_goes_on_within_the_limit(before: Seq<u8>, chunk: Seq<u8>)
    requires
        progress(before, chunk) == HeadProgress::More,
    ensures
        (before + chunk).len() <= HEAD_LIMIT,
        !head_ends(before + chunk),
{
}

/// A head that is whole stays whole with more bytes behind it, however large
/// it is: the limit is for heads without an end.
pub proof fn law_a_whole_head_is_taken(before: Seq<u8>, chunk: Seq<u8>)
    requires
        head_ends(before),
        chunk.len() > 0,
    ensures
        progress(before, chunk) == HeadProgress::Complete,
{
    let at = choose|at: int| blank_line_at(before, at);
    assert(blank_line_at(before + chunk, at));
}

/// Without a header of each of the four names no request is an upgrade.
pub proof fn law_upgrade_needs_all_four_headers(fields: Seq<HeaderModel>)
    requires
        all_signs(signs_in(fields)),
    ensures
        has_field(fields, "connection"@),
        has_field(fields, "upgrade"@),
        has_field(fields, "sec-websocket-version"@),
        has_field(fields, "sec-websocket-key"@),
{
    lemma_signs_have_fields(fields);
}

/// Whether a field of that name is there, up to case.
pub open spec fn has_field(fields: Seq<HeaderModel>, name: Seq<char>) -> bool {
    exists|i: int| 0 <= i < fields.len() && text::same_ignoring_case(#[trigger] fields[i].0, name)
}

proof fn lemma_field_kept(fields: Seq<HeaderModel>, name: Seq<char>)
    requires
        fields.len() > 0,
        has_field(fields.drop_last(), name) || text::same_ignoring_case(fields.last().0, name),
    ensures
        has_field(fields, name),
{
    if has_field(fields.drop_last(), name) {
        let i = choose|i: int|
            0 <= i < fields.drop_last().len() && text::same_ignoring_case(
                #[trigger] fields.drop_last()[i].0,
                name,
            );
        assert(text::same_ignoring_case(fields[i].0, name));
    } else {
        assert(text::same_ignoring_case(fields[fields.len() - 1].0, name));
    }
}

proof fn lemma_signs_have_fields(fields: Seq<HeaderModel>)
    ensures
        signs_in(fields).connection ==> has_field(fields, "connection"@),
        signs_in(fields).upgrade ==> has_field(fields, "upgrade"@),
        signs_in(fields).version ==> has_field(fields, "sec-websocket-version"@),
        signs_in(fields).key ==> has_field(fields, "sec-websocket-key"@),
    decreases fields.len(),
{
    if fields.len() > 0 {
        lemma_signs_have_fields(fields.drop_last());
        if signs_in(fields).connection {
            lemma_field_kept(fields, "connection"@);
        }
        if signs_in(fields).upgrade {
            lemma_field_kept(fields, "upgrade"@);
        }
        if signs_in(fields).version {
            lemma_field_kept(fields, "sec-websocket-version"@);
        }
        if signs_in(fields).key {
            lemma_field_kept(fields, "sec-websocket-key"@);
        }
    }
}

/// The number of steps that an upgrade in that state can still take.
pub open spec fn steps_left(state: UpgradeState) -> nat {
    match state {
        UpgradeState::Resolving => 4,
        UpgradeState::Connecting => 3,
        UpgradeState::Sending => 2,
        UpgradeState::Awaiting => 1,
        UpgradeState::Finished => 0,
    }
}

/// Every step brings an upgrade nearer to its end, and a tunnel opens only
/// after the backend accepted.
pub proof fn law_upgrades_end<A>(
    state: UpgradeState,
    event: UpgradeEvent<A>,
    next: UpgradeState,
    action: UpgradeAction<A>,
)
    requires
        upgrade_steps(state, event, next, action),
        state != UpgradeState::Finished,
    ensures
        steps_left(next) < steps_left(state),
        action matches UpgradeAction::Tunnel(reply) ==> state == UpgradeState::Awaiting
            && accepts_upgrade(reply@),
{
}

// -- What an upgrade is ------------------------------------------------------

/// A head ends with an empty line, wherever that stands, and not before one.
pub proof fn law_heads_end_with_an_empty_line(a: Seq<u8>, b: Seq<u8>, bytes: Seq<u8>)
    ensures
        head_ends(a + seq![13u8, 10u8, 13u8, 10u8] + b),
        head_ends(bytes) ==> exists|i: int|
            0 <= i && i + 4 <= bytes.len() && #[trigger] bytes.subrange(i, i + 4) == seq![
                13u8,
                10u8,
                13u8,
                10u8,
            ],
{
    let all = a + seq![13u8, 10u8, 13u8, 10u8] + b;
    let n = a.len() as int;
    assert(all[n] == 13 && all[n + 1] == 10 && all[n + 2] == 13 && all[n + 3] == 10);
    assert(blank_line_at(all, n));
    if head_ends(bytes) {
        let at = choose|at: int| blank_line_at(bytes, at);
        assert(bytes.subrange(at, at + 4) =~= seq![13u8, 10u8, 13u8, 10u8]);
    }
}

/// A connection that is closed before the end of the head, and 64 KiB without an
/// end, are refused; below that reading goes on.
pub proof fn law_heads_are_limited(before: Seq<u8>, chunk: Seq<u8>)
    ensures
        chunk.len() == 0 ==> progress(before, chunk) == HeadProgress::Closed,
        chunk.len() > 0 && head_ends(before + chunk) ==> progress(before, chunk)
            == HeadProgress::Complete,
        chunk.len() > 0 && !head_ends(before + chunk) && before.len() + chunk.len() > 65536
            ==> progress(before, chunk) == HeadProgress::TooLarge,
        chunk.len() > 0 && !head_ends(before + chunk) && before.len() + chunk.len() <= 65536
            ==> progress(before, chunk) == HeadProgress::More,
{
}

/// A header line is a name and a value around its first colon, without the space
/// around them; a line without a colon is none.
pub proof fn law_header_lines_are_names_and_values(name: Seq<char>, value: Seq<char>)
    requires
        !name.contains(':'),
    ensures
        field_of(name + seq![':'] + value) == Some((text::trim(name), text::trim(value))),
        field_of(name) is None,
{
    text::law_texts_are_cut_at_one_separator(name, ':', value);
}

/// The fields of a request are those of its header lines, in order, up to the
/// first empty line.
pub proof fn law_fields_end_at_the_empty_line(
    lines: Seq<Seq<char>>,
    line: Seq<char>,
    rest: Seq<Seq<char>>,
)
    ensures
        line.len() == 0 ==> until_blank(seq![line] + rest).len() == 0,
        line.len() > 0 && line != seq!['\r'] ==> until_blank(seq![line] + rest) == seq![line]
            + until_blank(rest),
        fields_of(lines.push(line)) == match field_of(line) {
            Some(field) => fields_of(lines).push(field),
            None => fields_of(lines),
        },
{
    assert((seq![line] + rest).skip(1) =~= rest);
    assert((seq![line] + rest)[0] == line);
    assert(lines.push(line).drop_last() =~= lines);
}

/// A list of tokens holds `upgrade` where one of its parts between commas is
/// that word, in any case and with any space around it.
pub proof fn law_upgrade_is_one_of_the_tokens(a: Seq<char>, b: Seq<char>)
    ensures
        lists_upgrade(a + seq![','] + b) <==> lists_upgrade(a) || lists_upgrade(b),
        !a.contains(',') ==> (lists_upgrade(a) <==> text::lower(text::trim(a)) == seq!['u', 'p', 'g', 'r', 'a', 'd', 'e']),
{
    text::law_texts_are_split_at_separators(a, ',', b);
    reveal_strlit("upgrade");
    assert("upgrade"@ =~= seq!['u', 'p', 'g', 'r', 'a', 'd', 'e']);
    assert(text::lower("upgrade"@) =~= "upgrade"@);
    let left = text::split(a, ',');
    let right = text::split(b, ',');
    let all = left + right;
    if lists_upgrade(a + seq![','] + b) {
        let i = choose|i: int|
            0 <= i < all.len() && text::same_ignoring_case(
                text::trim(#[trigger] all[i]),
                "upgrade"@,
            );
        if i < left.len() {
            assert(all[i] == left[i]);
        } else {
            assert(all[i] == right[i - left.len()]);
        }
    }
    if lists_upgrade(a) {
        let i = choose|i: int|
            0 <= i < left.len() && text::same_ignoring_case(
                text::trim(#[trigger] left[i]),
                "upgrade"@,
            );
        assert(all[i] == left[i]);
    }
    if lists_upgrade(b) {
        let i = choose|i: int|
            0 <= i < right.len() && text::same_ignoring_case(
                text::trim(#[trigger] right[i]),
                "upgrade"@,
            );
        assert(all[left.len() + i] == right[i]);
    }
    if !a.contains(',') {
        assert(left[0] == a);
    }
}

/// The value of the last field of that name, up to case.
pub open spec fn last_value_of(fields: Seq<HeaderModel>, name: Seq<char>) -> Option<Seq<char>>
    decreases fields.len(),
{
    if fields.len() == 0 {
        None
    } else if text::lower(fields.last().0) == text::lower(name) {
        Some(fields.last().1)
    } else {
        last_value_of(fields.drop_last(), name)
    }
}

/// The words by which an upgrade is told, letter by letter.
pub proof fn law_upgrade_headers_are_spelled_out()
    ensures
        "connection"@ == seq!['c', 'o', 'n', 'n', 'e', 'c', 't', 'i', 'o', 'n'],
        "upgrade"@ == seq!['u', 'p', 'g', 'r', 'a', 'd', 'e'],
        "websocket"@ == seq!['w', 'e', 'b', 's', 'o', 'c', 'k', 'e', 't'],
        "sec-websocket-version"@ == seq!['s', 'e', 'c', '-', 'w', 'e', 'b', 's', 'o', 'c', 'k', 'e', 't', '-', 'v', 'e', 'r', 's', 'i', 'o', 'n'],
        "sec-websocket-key"@ == seq!['s', 'e', 'c', '-', 'w', 'e', 'b', 's', 'o', 'c', 'k', 'e', 't', '-', 'k', 'e', 'y'],
{
    reveal_strlit("connection");
    reveal_strlit("upgrade");
    reveal_strlit("websocket");
    reveal_strlit("sec-websocket-version");
    reveal_strlit("sec-websocket-key");
    assert("connection"@ =~= seq!['c', 'o', 'n', 'n', 'e', 'c', 't', 'i', 'o', 'n']);
    assert("upgrade"@ =~= seq!['u', 'p', 'g', 'r', 'a', 'd', 'e']);
    assert("websocket"@ =~= seq!['w', 'e', 'b', 's', 'o', 'c', 'k', 'e', 't']);
    assert("sec-websocket-version"@ =~= seq!['s', 'e', 'c', '-', 'w', 'e', 'b', 's', 'o', 'c', 'k', 'e', 't', '-', 'v', 'e', 'r', 's', 'i', 'o', 'n']);
    assert("sec-websocket-key"@ =~= seq!['s', 'e', 'c', '-', 'w', 'e', 'b', 's', 'o', 'c', 'k', 'e', 't', '-', 'k', 'e', 'y']);
}

/// A request is an upgrade exactly where its last `Connection` field lists
/// `upgrade`, its last `Upgrade` field is `websocket`, and it has a field for
/// the version and one for the key of WebSocket; in any order, and whatever
/// other fields it has.
pub proof fn law_four_fields_make_an_upgrade(fields: Seq<HeaderModel>)
    ensures
        all_signs(signs_in(fields)) <==> {
            &&& last_value_of(fields, seq!['c', 'o', 'n', 'n', 'e', 'c', 't', 'i', 'o', 'n']) matches Some(v) && lists_upgrade(v)
            &&& last_value_of(fields, seq!['u', 'p', 'g', 'r', 'a', 'd', 'e']) matches Some(v) && text::lower(v) == seq!['w', 'e', 'b', 's', 'o', 'c', 'k', 'e', 't']
            &&& last_value_of(fields, seq!['s', 'e', 'c', '-', 'w', 'e', 'b', 's', 'o', 'c', 'k', 'e', 't', '-', 'v', 'e', 'r', 's', 'i', 'o', 'n']) is Some
            &&& last_value_of(fields, seq!['s', 'e', 'c', '-', 'w', 'e', 'b', 's', 'o', 'c', 'k', 'e', 't', '-', 'k', 'e', 'y']) is Some
        },
{
    law_upgrade_headers_are_spelled_out();
    assert(text::lower("websocket"@) =~= "websocket"@);
    lemma_signs_are_last_values(fields);
}

proof fn lemma_signs_are_last_values(fields: Seq<HeaderModel>)
    ensures
        signs_in(fields).connection <==> last_value_of(fields, "connection"@) is Some
            && lists_upgrade(last_value_of(fields, "connection"@)->0),
        signs_in(fields).upgrade <==> last_value_of(fields, "upgrade"@) is Some
            && text::same_ignoring_case(last_value_of(fields, "upgrade"@)->0, "websocket"@),
        signs_in(fields).version <==> last_value_of(fields, "sec-websocket-version"@) is Some,
        signs_in(fields).key <==> last_value_of(fields, "sec-websocket-key"@) is Some,
    decreases fields.len(),
{
    if fields.len() > 0 {
        lemma_signs_are_last_values(fields.drop_last());
        law_upgrade_headers_are_spelled_out();
        let name = fields.last().0;
        assert(text::lower(name).len() == name.len());
        assert(text::lower("connection"@).len() == 10);
        assert(text::lower("upgrade"@).len() == 7);
        assert(text::lower("sec-websocket-version"@).len() == 21);
        assert(text::lower("sec-websocket-key"@).len() == 17);
    }
}

/// A parsed request is an upgrade exactly where its first `Connection` header
/// lists `upgrade`, its first `Upgrade` header is `websocket`, and the headers
/// for the version and the key of WebSocket are there.
pub proof fn law_four_headers_make_an_upgrade(list: Seq<(Seq<char>, Seq<u8>)>)
    ensures
        upgrade_requested(list) <==> {
            let connection = headers::values_of(list, seq!['c', 'o', 'n', 'n', 'e', 'c', 't', 'i', 'o', 'n']);
            let upgrade = headers::values_of(list, seq!['u', 'p', 'g', 'r', 'a', 'd', 'e']);
            &&& connection.len() > 0 && headers::all_visible(connection[0]) && lists_upgrade(
                headers::ascii_text(connection[0]),
            )
            &&& upgrade.len() > 0 && headers::all_visible(upgrade[0]) && text::lower(
                headers::ascii_text(upgrade[0]),
            ) == seq!['w', 'e', 'b', 's', 'o', 'c', 'k', 'e', 't']
            &&& headers::values_of(list, seq!['s', 'e', 'c', '-', 'w', 'e', 'b', 's', 'o', 'c', 'k', 'e', 't', '-', 'v', 'e', 'r', 's', 'i', 'o', 'n']).len() > 0
            &&& headers::values_of(list, seq!['s', 'e', 'c', '-', 'w', 'e', 'b', 's', 'o', 'c', 'k', 'e', 't', '-', 'k', 'e', 'y']).len() > 0
        },
{
    law_upgrade_headers_are_spelled_out();
    assert(text::lower("websocket"@) =~= "websocket"@);
}

/// Routing reads of a raw request its method, `GET` where it has none, the path
/// and the query of its URI, all its fields in order, and as its host that of
/// the last `Host` field, without the port.
pub proof fn law_routing_reads_the_raw_request(
    request: Seq<char>,
    uri: UriModel,
    fields: Seq<HeaderModel>,
    field: HeaderModel,
)
    ensures
        ({
            let r = upgrade_model(request, uri);
            let all = fields_of(header_lines(request));
            let words = text::words(first_line(request));
            &&& r.path == uri.path
            &&& r.query_params == meta::parameters_of(uri.query)
            &&& words.len() > 0 ==> r.method == words[0]
            &&& words.len() == 0 ==> r.method == seq!['G', 'E', 'T']
            &&& r.headers.len() == all.len()
            &&& forall|i: int|
                0 <= i < all.len() ==> (#[trigger] r.headers[i]).0 == text::unicode_lower(all[i].0)
                    && r.headers[i].1 == all[i].1
            &&& r.host == host_in(all)
        }),
        host_in(fields.push(field)) == if text::unicode_lower(field.0) == seq![
            'h',
            'o',
            's',
            't',
        ] {
            Some(meta::host_name(field.1))
        } else {
            host_in(fields)
        },
        host_in(Seq::empty()) is None,
{
    reveal_strlit("GET");
    assert("GET"@ =~= seq!['G', 'E', 'T']);
    reveal_strlit("host");
    assert(meta::HOST@ =~= seq!['h', 'o', 's', 't']);
    assert(fields.push(field).drop_last() =~= fields);
}

/// The URI of a raw request is the second word of its first line, the root where
/// there is none.
pub proof fn law_the_second_word_is_the_uri(raw: Seq<u8>)
    ensures
        ({
            let words = text::words(first_line(decode_utf8(raw)));
            &&& words.len() > 1 ==> upgrade_uri(raw) == words[1]
            &&& words.len() <= 1 ==> upgrade_uri(raw) == seq!['/']
        }),
{
    reveal_strlit("/");
    assert("/"@ =~= seq!['/']);
}

/// The backend accepts an upgrade exactly where `101` stands in the first line
/// of its reply.
pub proof fn law_101_accepts_the_upgrade(reply: Seq<u8>, before: Seq<char>, behind: Seq<char>)
    requires
        valid_utf8(reply),
    ensures
        first_line(decode_utf8(reply)) == before + seq!['1', '0', '1'] + behind ==> accepts_upgrade(
            reply,
        ),
        accepts_upgrade(reply) ==> exists|i: int|
            0 <= i && i + 3 <= first_line(decode_utf8(reply)).len() && #[trigger] first_line(
                decode_utf8(reply),
            ).subrange(i, i + 3) == seq!['1', '0', '1'],
{
    reveal_strlit("101");
    assert("101"@ =~= seq!['1', '0', '1']);
    let line = first_line(decode_utf8(reply));
    text::law_texts_hold_their_parts(before, "101"@, behind, line);
    if accepts_upgrade(reply) {
        let i = choose|i: int| text::stands_at(line, "101"@, i);
        assert(line.subrange(i, i + 3) == seq!['1', '0', '1']);
    }
}

/// An upgrade goes to the first address of the backend. The request is sent on
/// once the connection stands, and the reply read once it is sent; a reply that
/// accepts opens the tunnel, any other is passed on as it is. Where the backend
/// cannot be reached the client gets an answer, and where it breaks off the
/// upgrade fails.
pub proof fn law_upgrades_go_step_by_step<A>(
    addrs: Vec<A>,
    ok: bool,
    reply: Vec<u8>,
    next: UpgradeState,
    action: UpgradeAction<A>,
)
    ensures
        upgrade_steps(
            UpgradeState::Resolving,
            UpgradeEvent::Resolved(Some(addrs)),
            next,
            action,
        ) ==> (addrs@.len() > 0 ==> action == UpgradeAction::Connect(addrs@[0]) && next
            == UpgradeState::Connecting) && (addrs@.len() == 0 ==> action is Answer),
        upgrade_steps(UpgradeState::Resolving, UpgradeEvent::<A>::Resolved(None), next, action)
            ==> action is Answer,
        upgrade_steps(UpgradeState::Connecting, UpgradeEvent::<A>::Connected(ok), next, action)
            ==> (ok ==> action is SendRequest && next == UpgradeState::Sending) && (!ok
            ==> action is Answer),
        upgrade_steps(UpgradeState::Sending, UpgradeEvent::<A>::Sent(ok), next, action) ==> (ok
            ==> action is ReadReply && next == UpgradeState::Awaiting) && (!ok ==> action is Fail),
        upgrade_steps(
            UpgradeState::Awaiting,
            UpgradeEvent::<A>::Replied(Some(reply)),
            next,
            action,
        ) ==> (accepts_upgrade(reply@) ==> action is Tunnel && action->Tunnel_0@ == reply@) && (
        !accepts_upgrade(reply@) ==> action is Answer && action->Answer_0@ == reply@),
        upgrade_steps(UpgradeState::Awaiting, UpgradeEvent::<A>::Replied(None), next, action)
            ==> action is Fail,
{
}

/// An upgrade without a route, or without a backend that has weight, is answered;
/// any other begins with a backend that has weight.
pub proof fn law_upgrades_begin_with_a_backend(route: UpgradeRoute<'_>, start: UpgradeStart<'_>)
    requires
        upgrade_begins(route, start),
    ensures
        route is NoRoute ==> start is Answer,
        route is NotText <==> start is NotText,
        route is BadUri <==> start is BadUri,
        route matches UpgradeRoute::Backends(backends) ==> {
            &&& start is Resolve <==> exists|i: int|
                0 <= i < backends@.len() && (#[trigger] backends@[i]).weight > 0
            &&& start is Resolve ==> (start->Resolve_0).weight > 0 && backends@.contains(
                *start->Resolve_0,
            )
        },
{
    if let UpgradeRoute::Backends(backends) = route {
        balance::law_selection_needs_weight(backends@);
    }
}

} // verus!
