//! Share links and subscriptions: a link `scheme://...` is decoded into a
//! node whose `raw` field holds the outbound configuration as JSON, with
//! members that carry only defaults left out.
//!
//! * `vmess://<Base64 of a JSON object>`, where the object gives `add`,
//!   `port`, `id`, `aid`, `scy`, `net`, `host`, `path`, `type`, `tls`,
//!   `sni` and the name `ps`; a trailing `"@"` and the character before it
//!   are dropped from the Base64 text;
//! * `trojan://<password>@<host>:<port>?<query>#<name>`, where the query
//!   (up to an encoded line feed `%0A`) holds `key=value` pairs joined by
//!   `&`: `sni`, `allowinsecure` and `alpn` (names joined by `,`);
//! * `ss://<Base64 of method:password>@<host>:<port>#<name>`.
//!
//! A subscription is the Base64 of a text with one link per line.

use vstd::prelude::*;

use crate::codec;
use crate::codec::{base64_decode, url_decode, utf8_decode};
use crate::data;
use crate::data::{EntryType, NodeData, NodeModel};
use crate::json;
use crate::json::{check_is_default_and_delete, json_get, json_to_string_pretty, parse_json, Json, JsonValue, Num, JsonNumber};
use crate::outbound;
use crate::outbound::{
    GrpcObject, HttpObject, OutboundKind, OutboundObject, OutboundSettings, QuicHeader, QuicObject,
    StreamSettingsObject, TlsObject, VmessOutbound, VmessServer, VmessUser, WebSocketObject,
};
use crate::shadowsocks;
use crate::text;
use crate::text::{chars_eq_str, chars_of, cut_exec, parse_i32_exec, parse_u32_exec, rfind_exec, slice_chars, split_on_exec, string_of, trim_exec};
use crate::trojan;

verus! {

/// Why a link or a subscription could not be decoded. The errors of the
/// decoders carry the decoder's own message.
#[derive(Debug, Clone, PartialEq, Eq)]
pub enum DecodeError {
    /// The link has no scheme.
    NoScheme,
    /// The scheme is none of `vmess`, `trojan` and `ss`.
    NotImplemented,
    /// A `vmess` link carries nothing after its scheme.
    NoContent,
    /// A text that should be Base64 is not.
    Base64(String),
    /// Decoded bytes are not UTF-8.
    Utf8(String),
    /// The decoded text of a `vmess` link is not JSON.
    Json(String),
    /// A `vmess` link gives no address or no port.
    NoAddressPort,
    /// A port is neither a number nor a string, or is no port number.
    PortIllegal,
    /// A `vmess` link gives no user id.
    NoId,
    /// A percent-encoded name does not decode to UTF-8.
    UrlDecode(String),
    /// A link lacks the `@` before its host or the `:` before its port.
    MalformedUrl,
    /// A query piece is not one `key=value` pair.
    WrongQueryArguments,
    /// The credentials of an `ss` link lack the `:` between method and
    /// password.
    NoMethod,
}

/// The model of a decoding error.
pub enum ErrorModel {
    NoScheme,
    NotImplemented,
    NoContent,
    Base64(Seq<char>),
    Utf8(Seq<char>),
    Json(Seq<char>),
    NoAddressPort,
    PortIllegal,
    NoId,
    UrlDecode(Seq<char>),
    MalformedUrl,
    WrongQueryArguments,
    NoMethod,
}

impl View for DecodeError {
    type V = ErrorModel;

    open spec fn view(&self) -> ErrorModel {
        match self {
            DecodeError::NoScheme => ErrorModel::NoScheme,
            DecodeError::NotImplemented => ErrorModel::NotImplemented,
            DecodeError::NoContent => ErrorModel::NoContent,
            DecodeError::Base64(m) => ErrorModel::Base64(m@),
            DecodeError::Utf8(m) => ErrorModel::Utf8(m@),
            DecodeError::Json(m) => ErrorModel::Json(m@),
            DecodeError::NoAddressPort => ErrorModel::NoAddressPort,
            DecodeError::PortIllegal => ErrorModel::PortIllegal,
            DecodeError::NoId => ErrorModel::NoId,
            DecodeError::UrlDecode(m) => ErrorModel::UrlDecode(m@),
            DecodeError::MalformedUrl => ErrorModel::MalformedUrl,
            DecodeError::WrongQueryArguments => ErrorModel::WrongQueryArguments,
            DecodeError::NoMethod => ErrorModel::NoMethod,
        }
    }
}

/// The message of an error: a decoder's error gives the decoder's message.
pub open spec fn error_message(e: ErrorModel) -> Seq<char> {
    match e {
        ErrorModel::NoScheme => "No scheme"@,
        ErrorModel::NotImplemented => "Not implemented"@,
        ErrorModel::NoContent => "No Content"@,
        ErrorModel::Base64(m) => m,
        ErrorModel::Utf8(m) => m,
        ErrorModel::Json(m) => m,
        ErrorModel::NoAddressPort => "No address|port"@,
        ErrorModel::PortIllegal => "Port illegal"@,
        ErrorModel::NoId => "No id"@,
        ErrorModel::UrlDecode(m) => m,
        ErrorModel::MalformedUrl => "Malformed url"@,
        ErrorModel::WrongQueryArguments => "Wrong query arguments"@,
        ErrorModel::NoMethod => "No method"@,
    }
}

impl DecodeError {
    /// The message of the error (see `error_message`).
    pub fn message(&self) -> (m: String)
        ensures
            m@ == error_message(self@),
    {
        match self {
            DecodeError::NoScheme => String::from_str("No scheme"),
            DecodeError::NotImplemented => String::from_str("Not implemented"),
            DecodeError::NoContent => String::from_str("No Content"),
            DecodeError::Base64(m) => m.clone(),
            DecodeError::Utf8(m) => m.clone(),
            DecodeError::Json(m) => m.clone(),
            DecodeError::NoAddressPort => String::from_str("No address|port"),
            DecodeError::PortIllegal => String::from_str("Port illegal"),
            DecodeError::NoId => String::from_str("No id"),
            DecodeError::UrlDecode(m) => m.clone(),
            DecodeError::MalformedUrl => String::from_str("Malformed url"),
            DecodeError::WrongQueryArguments => String::from_str("Wrong query arguments"),
            DecodeError::NoMethod => String::from_str("No method"),
        }
    }
}

/// The name of a node and its outbound configuration, as a link gives them.
pub struct URLMetaObject {
    pub name: String,
    pub outbound: OutboundObject,
}

/// The separator after a scheme.
pub open spec fn scheme_sep() -> Seq<char> {
    seq![':', '/', '/']
}

/// The scheme of a link: the text before the first `"://"`, or the whole
/// link when there is none.
pub open spec fn scheme_of(url: Seq<char>) -> Seq<char> {
    match text::find(url, scheme_sep()) {
        Some(i) => url.subrange(0, i),
        None => url,
    }
}

/// The text after the first `"://"`, or the whole link when there is none.
pub open spec fn after_first_sep(url: Seq<char>) -> Seq<char> {
    match text::find(url, scheme_sep()) {
        Some(i) => url.subrange(i + 3, url.len() as int),
        None => url,
    }
}

/// The text after the last `"://"`, or the whole link when there is none.
pub open spec fn after_last_sep(url: Seq<char>) -> Seq<char> {
    match text::rfind(url, scheme_sep()) {
        Some(i) => url.subrange(i + 3, url.len() as int),
        None => url,
    }
}

/// The Base64 text of a `vmess` link: the text after the last `"://"`,
/// without the last two characters when it ends with `'@'`.
pub open spec fn vmess_info(url: Seq<char>) -> Seq<char> {
    let p = after_last_sep(url);
    if p.len() > 0 && p.last() == '@' {
        p.subrange(0, p.len() - 2)
    } else {
        p
    }
}

/// Whether a `vmess` link can be cut: when the text after its last `"://"`
/// ends with `'@'`, a one-byte character stands before the `'@'`.
pub open spec fn vmess_url_ok(url: Seq<char>) -> bool {
    let p = after_last_sep(url);
    (p.len() > 0 && p.last() == '@') ==> (p.len() >= 2 && (p[p.len() - 2] as u32) < 128)
}

/// Whether a link can be decoded without the cut of a `vmess` payload
/// going astray (see `vmess_url_ok`).
pub open spec fn url_decodable(url: Seq<char>) -> bool {
    scheme_of(url) == "vmess"@ ==> vmess_url_ok(url)
}

/// The string that a JSON value holds, or `d`.
pub open spec fn str_or(v: Json, d: Seq<char>) -> Seq<char> {
    match v {
        Json::String(s) => s,
        _ => d,
    }
}

/// Member `k` of the decoded `vmess` object.
pub open spec fn jget(root: Json, k: Seq<char>) -> Json {
    json::json_index(root, k)
}

/// The port of a `vmess` object: a number that is a non-negative integer
/// keeps its low 32 bits, any other number gives 0, a string is read as a
/// `u32` or gives 0; anything else is no port.
pub open spec fn vmess_port_value(p: Json) -> Option<u32> {
    match p {
        Json::Number(Num::PosInt(u)) => Some(u as u32),
        Json::Number(_) => Some(0u32),
        Json::String(s) => Some(
            match text::parse_u32(s) {
                Some(v) => v,
                None => 0u32,
            },
        ),
        _ => None,
    }
}

/// The alter id of a `vmess` object: a non-negative integer keeps its low
/// 32 bits, a string is read as an `i32`, and anything else gives 0.
pub open spec fn vmess_alter_id(a: Json) -> i32 {
    match a {
        Json::Number(Num::PosInt(u)) => u as i32,
        Json::String(s) => match text::parse_i32(s) {
            Some(v) => v,
            None => 0i32,
        },
        _ => 0i32,
    }
}

/// The error of a decoded `vmess` object, checked in this order: no
/// address or no port, an illegal port, no id.
pub open spec fn vmess_json_error(root: Json) -> Option<ErrorModel> {
    if jget(root, "add"@) is Null || jget(root, "port"@) is Null {
        Some(ErrorModel::NoAddressPort)
    } else if vmess_port_value(jget(root, "port"@)) is None {
        Some(ErrorModel::PortIllegal)
    } else if !(jget(root, "id"@) is String) {
        Some(ErrorModel::NoId)
    } else {
        None
    }
}

/// The network of a `vmess` object: `net` when it is a string, with `h2`
/// read as `http`.
pub open spec fn vmess_network(root: Json) -> Option<Seq<char>> {
    match jget(root, "net"@) {
        Json::String(n) => Some(if n == "h2"@ { "http"@ } else { n }),
        _ => None,
    }
}

/// The non-empty pieces, in order.
pub open spec fn nonempty(pieces: Seq<Seq<char>>) -> Seq<Seq<char>>
    decreases pieces.len(),
{
    if pieces.len() == 0 {
        Seq::<Seq<char>>::empty()
    } else if pieces.last().len() == 0 {
        nonempty(pieces.drop_last())
    } else {
        nonempty(pieces.drop_last()).push(pieces.last())
    }
}

/// The HTTP/2 hosts of a `vmess` object: the pieces of the trimmed `host`
/// between commas that are not empty, each trimmed.
pub open spec fn http_hosts(pieces: Seq<Seq<char>>) -> Seq<Seq<char>>
    decreases pieces.len(),
{
    if pieces.len() == 0 {
        Seq::<Seq<char>>::empty()
    } else if pieces.last().len() == 0 {
        http_hosts(pieces.drop_last())
    } else {
        http_hosts(pieces.drop_last()).push(text::trim(pieces.last()))
    }
}

/// JSON strings of the texts.
pub open spec fn jtexts(s: Seq<Seq<char>>) -> Json {
    Json::Array(s.map_values(|x: Seq<char>| outbound::jstr(x)))
}

/// Whether the network of a `vmess` object is `n`.
pub open spec fn vmess_net_is(root: Json, n: Seq<char>) -> bool {
    vmess_network(root) == Some(n)
}

/// The `path` of a `vmess` object, or the empty text.
pub open spec fn vmess_path(root: Json) -> Seq<char> {
    str_or(jget(root, "path"@), Seq::empty())
}

/// The `host` of a `vmess` object, or the empty text.
pub open spec fn vmess_host(root: Json) -> Seq<char> {
    str_or(jget(root, "host"@), Seq::empty())
}

/// The gRPC settings of a `vmess` object, as JSON: the service name is the
/// `path`.
pub open spec fn vmess_grpc_json(root: Json) -> Json {
    if vmess_net_is(root, "grpc"@) {
        Json::Object(seq![("serviceName"@, outbound::jstr(vmess_path(root)))])
    } else {
        Json::Null
    }
}

/// The HTTP/2 settings of a `vmess` object, as JSON.
pub open spec fn vmess_http_json(root: Json) -> Json {
    if vmess_net_is(root, "http"@) {
        Json::Object(
            seq![
                ("host"@, jtexts(http_hosts(text::split_on(text::trim(vmess_host(root)), ',')))),
                ("path"@, outbound::jstr(vmess_path(root))),
            ],
        )
    } else {
        Json::Null
    }
}

/// The QUIC settings of a `vmess` object, as JSON: the header type is
/// `type`, the security is `host` and the key is `path`.
pub open spec fn vmess_quic_json(root: Json) -> Json {
    if vmess_net_is(root, "quic"@) {
        Json::Object(
            seq![
                (
                    "header"@,
                    match jget(root, "type"@) {
                        Json::String(t) => Json::Object(seq![("type"@, outbound::jstr(t))]),
                        _ => Json::Null,
                    },
                ),
                ("key"@, outbound::jstr(vmess_path(root))),
                ("security"@, outbound::jstr(vmess_host(root))),
            ],
        )
    } else {
        Json::Null
    }
}

/// The TLS settings of a `vmess` object, as JSON: present when `sni` is a
/// string, which names the server.
pub open spec fn vmess_tls_json(root: Json) -> Json {
    match jget(root, "sni"@) {
        Json::String(s) => Json::Object(
            seq![
                ("allowInsecure"@, Json::Bool(false)),
                ("alpn"@, Json::Array(Seq::empty())),
                ("serverName"@, outbound::jstr(s)),
            ],
        ),
        _ => Json::Null,
    }
}

/// The WebSocket settings of a `vmess` object, as JSON: a string `host`
/// becomes the `Host` header.
pub open spec fn vmess_ws_json(root: Json) -> Json {
    if vmess_net_is(root, "ws"@) {
        Json::Object(
            seq![
                (
                    "headers"@,
                    match jget(root, "host"@) {
                        Json::String(h) => Json::Object(seq![("Host"@, outbound::jstr(h))]),
                        _ => Json::Object(Seq::empty()),
                    },
                ),
                ("path"@, outbound::jstr(vmess_path(root))),
            ],
        )
    } else {
        Json::Null
    }
}

/// The transport settings that a `vmess` object describes, as JSON.
pub open spec fn vmess_stream_json(root: Json) -> Json {
    Json::Object(
        seq![
            ("grpcSettings"@, vmess_grpc_json(root)),
            ("httpSettings"@, vmess_http_json(root)),
            (
                "network"@,
                outbound::jstr(
                    match vmess_network(root) {
                        Some(n) => n,
                        None => Seq::empty(),
                    },
                ),
            ),
            ("quicSettings"@, vmess_quic_json(root)),
            ("security"@, outbound::jstr(str_or(jget(root, "tls"@), Seq::empty()))),
            ("tlsSettings"@, vmess_tls_json(root)),
            ("wsSettings"@, vmess_ws_json(root)),
        ],
    )
}

/// The model of an optional string.
pub open spec fn opt_str(o: Option<String>) -> Option<Seq<char>> {
    match o {
        Some(s) => Some(s@),
        None => None,
    }
}

/// The outbound that a `vmess` object describes, as JSON.
pub open spec fn vmess_outbound_json(root: Json) -> Json {
    let user = Json::Object(
        seq![
            ("alterId"@, outbound::jint(vmess_alter_id(jget(root, "aid"@)))),
            ("id"@, outbound::jstr(str_or(jget(root, "id"@), Seq::empty()))),
            ("security"@, outbound::jstr(str_or(jget(root, "scy"@), "auto"@))),
        ],
    );
    let server = Json::Object(
        seq![
            ("address"@, outbound::jstr(str_or(jget(root, "add"@), "default"@))),
            (
                "port"@,
                outbound::juint(
                    match vmess_port_value(jget(root, "port"@)) {
                        Some(p) => p,
                        None => 0u32,
                    },
                ),
            ),
            ("users"@, Json::Array(seq![user])),
        ],
    );
    Json::Object(
        seq![
            ("protocol"@, outbound::jstr("vmess"@)),
            ("sendThrough"@, outbound::jstr("0.0.0.0"@)),
            (
                "settings"@,
                Json::Object(
                    seq![
                        (
                            "vmess"@,
                            Json::Object(seq![("vnext"@, Json::Array(seq![server]))]),
                        ),
                    ],
                ),
            ),
            ("streamSettings"@, vmess_stream_json(root)),
        ],
    )
}

/// A copy of the string that member `key` holds, when it holds one.
pub fn str_member(root: &JsonValue, key: &str) -> (res: Option<String>)
    ensures
        match res {
            Some(v) => jget(root@, key@) == Json::String(v@),
            None => !(jget(root@, key@) is String),
        },
{
    match json_get(root, key) {
        Some(JsonValue::String(v)) => Some(v.clone()),
        _ => None,
    }
}

/// Whether member `key` is `null` or missing.
pub fn member_is_null(root: &JsonValue, key: &str) -> (b: bool)
    ensures
        b == (jget(root@, key@) is Null),
{
    match json_get(root, key) {
        Some(JsonValue::Null) => true,
        Some(_) => false,
        None => true,
    }
}

/// The port of a `vmess` object (see `vmess_port_value`).
pub fn vmess_port(root: &JsonValue) -> (res: Option<u32>)
    ensures
        res == vmess_port_value(jget(root@, "port"@)),
{
    match json_get(root, "port") {
        Some(JsonValue::Number(JsonNumber::PosInt(u))) => Some(*u as u32),
        Some(JsonValue::Number(_)) => Some(0),
        Some(JsonValue::String(t)) => {
            let cs = chars_of(t.as_str());
            match parse_u32_exec(&cs) {
                Some(v) => Some(v),
                None => Some(0),
            }
        },
        _ => None,
    }
}

/// The alter id of a `vmess` object (see `vmess_alter_id`).
pub fn vmess_aid(root: &JsonValue) -> (res: i32)
    ensures
        res == vmess_alter_id(jget(root@, "aid"@)),
{
    match json_get(root, "aid") {
        Some(JsonValue::Number(JsonNumber::PosInt(u))) => *u as i32,
        Some(JsonValue::String(t)) => {
            let cs = chars_of(t.as_str());
            match parse_i32_exec(&cs) {
                Some(v) => v,
                None => 0,
            }
        },
        _ => 0,
    }
}

/// The HTTP/2 hosts of a `host` text (see `http_hosts`).
pub fn http_host_list(host: &String) -> (res: Vec<String>)
    ensures
        res@.map_values(|x: String| x@) == http_hosts(text::split_on(text::trim(host@), ',')),
{
    let cs = chars_of(host.as_str());
    let t = trim_exec(&cs);
    let pieces = split_on_exec(&t, ',');
    let ghost all = text::views(pieces@);
    let mut out: Vec<String> = Vec::new();
    let mut i: usize = 0;
    while i < pieces.len()
        invariant
            i <= pieces@.len(),
            all == text::views(pieces@),
            all == text::split_on(text::trim(host@), ','),
            out@.map_values(|x: String| x@) == http_hosts(all.subrange(0, i as int)),
        decreases pieces.len() - i,
    {
        assert(all[i as int] == pieces@[i as int]@);
        assert(all.subrange(0, i + 1).drop_last() =~= all.subrange(0, i as int));
        if pieces[i].len() != 0 {
            let piece = trim_exec(&pieces[i]);
            let ghost prev = out@;
            out.push(string_of(&piece));
            assert(out@.map_values(|x: String| x@) =~= prev.map_values(|x: String| x@).push(piece@));
        }
        i = i + 1;
    }
    assert(all.subrange(0, pieces@.len() as int) =~= all);
    out
}

/// The network of a `vmess` object (see `vmess_network`).
pub fn vmess_net(root: &JsonValue) -> (res: Option<String>)
    ensures
        opt_str(res) == vmess_network(root@),
{
    proof {
        reveal_strlit("h2");
        reveal_strlit("http");
    }
    match str_member(root, "net") {
        Some(n) => {
            let ncs = chars_of(n.as_str());
            if chars_eq_str(&ncs, "h2") {
                Some(String::from_str("http"))
            } else {
                Some(n)
            }
        },
        None => None,
    }
}

/// Whether an optional network is `name`.
fn net_is(net: &Option<String>, name: &str) -> (b: bool)
    ensures
        b == (opt_str(*net) == Some(name@)),
{
    match net {
        Some(n) => {
            let ncs = chars_of(n.as_str());
            chars_eq_str(&ncs, name)
        },
        None => false,
    }
}

/// The text that member `key` holds, or the empty text.
fn str_member_or_empty(root: &JsonValue, key: &str) -> (res: String)
    ensures
        res@ == str_or(jget(root@, key@), Seq::empty()),
{
    match str_member(root, key) {
        Some(s) => s,
        None => String::new(),
    }
}

/// The gRPC settings of a `vmess` object (see `vmess_grpc_json`).
fn vmess_grpc(root: &JsonValue, net: &Option<String>) -> (res: Option<GrpcObject>)
    requires
        opt_str(*net) == vmess_network(root@),
    ensures
        outbound::opt_grpc_json(res) == vmess_grpc_json(root@),
{
    if net_is(net, "grpc") {
        Some(GrpcObject { service_name: str_member_or_empty(root, "path") })
    } else {
        None
    }
}

/// The HTTP/2 settings of a `vmess` object (see `vmess_http_json`).
fn vmess_http(root: &JsonValue, net: &Option<String>) -> (res: Option<HttpObject>)
    requires
        opt_str(*net) == vmess_network(root@),
    ensures
        outbound::opt_http_json(res) == vmess_http_json(root@),
{
    if net_is(net, "http") {
        let host = str_member_or_empty(root, "host");
        let hosts = http_host_list(&host);
        proof {
            assert(hosts@.map_values(|x: String| outbound::jstr(x@)) =~= hosts@.map_values(
                |x: String| x@,
            ).map_values(|x: Seq<char>| outbound::jstr(x)));
        }
        Some(HttpObject { host: hosts, path: str_member_or_empty(root, "path") })
    } else {
        None
    }
}

/// The QUIC settings of a `vmess` object (see `vmess_quic_json`).
fn vmess_quic(root: &JsonValue, net: &Option<String>) -> (res: Option<QuicObject>)
    requires
        opt_str(*net) == vmess_network(root@),
    ensures
        outbound::opt_quic_json(res) == vmess_quic_json(root@),
{
    if net_is(net, "quic") {
        let header = match str_member(root, "type") {
            Some(t) => Some(QuicHeader { header_type: t }),
            None => None,
        };
        let q = QuicObject {
            security: str_member_or_empty(root, "host"),
            key: str_member_or_empty(root, "path"),
            header,
        };
        assert(outbound::quic_json(q)->Object_0 =~= vmess_quic_json(root@)->Object_0);
        Some(q)
    } else {
        None
    }
}

/// The TLS settings of a `vmess` object (see `vmess_tls_json`).
fn vmess_tls(root: &JsonValue) -> (res: Option<TlsObject>)
    ensures
        outbound::opt_tls_json(res) == vmess_tls_json(root@),
{
    match str_member(root, "sni") {
        Some(sni) => {
            let alpn: Vec<String> = Vec::new();
            assert(alpn@.map_values(|x: String| outbound::jstr(x@)) =~= Seq::<Json>::empty());
            Some(TlsObject { server_name: sni, allow_insecure: false, alpn })
        },
        None => None,
    }
}

/// The WebSocket settings of a `vmess` object (see `vmess_ws_json`).
fn vmess_ws(root: &JsonValue, net: &Option<String>) -> (res: Option<WebSocketObject>)
    requires
        opt_str(*net) == vmess_network(root@),
    ensures
        outbound::opt_ws_json(res) == vmess_ws_json(root@),
{
    if net_is(net, "ws") {
        let mut headers: Vec<(String, String)> = Vec::new();
        match str_member(root, "host") {
            Some(h) => {
                headers.push((String::from_str("Host"), h));
                assert(headers@.map_values(|h: (String, String)| (h.0@, outbound::jstr(h.1@)))
                    =~= seq![("Host"@, outbound::jstr(headers@[0].1@))]);
            },
            None => {
                assert(headers@.map_values(|h: (String, String)| (h.0@, outbound::jstr(h.1@)))
                    =~= Seq::<(Seq<char>, Json)>::empty());
            },
        }
        let w = WebSocketObject { path: str_member_or_empty(root, "path"), headers };
        assert(outbound::ws_json(w)->Object_0 =~= vmess_ws_json(root@)->Object_0);
        Some(w)
    } else {
        None
    }
}

/// The transport settings that a `vmess` object describes.
pub fn vmess_stream(root: &JsonValue) -> (res: StreamSettingsObject)
    ensures
        outbound::stream_json(res) == vmess_stream_json(root@),
{
    let net = vmess_net(root);
    let network = match &net {
        Some(n) => n.clone(),
        None => String::new(),
    };
    let stream = StreamSettingsObject {
        network,
        security: str_member_or_empty(root, "tls"),
        tls_settings: vmess_tls(root),
        ws_settings: vmess_ws(root, &net),
        http_settings: vmess_http(root, &net),
        grpc_settings: vmess_grpc(root, &net),
        quic_settings: vmess_quic(root, &net),
    };
    assert(outbound::stream_json(stream)->Object_0 =~= vmess_stream_json(root@)->Object_0);
    stream
}

/// The shape of the outbound that a `vmess` object gives: VMess settings
/// with a first server, which has a first user, holding the object's
/// address, port and id.
pub open spec fn vmess_shape(o: OutboundObject, root: Json) -> bool {
    &&& o.settings matches Some(st)
    &&& st.kind matches Some(OutboundKind::Vmess(v))
    &&& v.vnext@.len() > 0
    &&& v.vnext@[0].users@.len() > 0
    &&& v.vnext@[0].address@ == str_or(jget(root, "add"@), "default"@)
    &&& vmess_port_value(jget(root, "port"@)) == Some(v.vnext@[0].port)
    &&& v.vnext@[0].users@[0].id@ == str_or(jget(root, "id"@), Seq::empty())
}

/// What the name and outbound of a `vmess` link are, given its object.
pub open spec fn vmess_meta_ok(m: URLMetaObject, root: Json) -> bool {
    &&& m.name@ == str_or(jget(root, "ps"@), Seq::empty())
    &&& outbound::outbound_json(m.outbound) == vmess_outbound_json(root)
    &&& vmess_shape(m.outbound, root)
}

/// The object of a `vmess` link: its Base64 text (see `vmess_info`) must be
/// non-empty, decode, be UTF-8 and hold JSON.
pub open spec fn vmess_root(url: Seq<char>) -> Result<Json, ErrorModel> {
    let info = vmess_info(url);
    if info.len() == 0 {
        Err(ErrorModel::NoContent)
    } else {
        match codec::spec_base64_decode(info) {
            Err(m) => Err(ErrorModel::Base64(m)),
            Ok(bytes) => match codec::spec_utf8_decode(bytes) {
                Err(m) => Err(ErrorModel::Utf8(m)),
                Ok(t) => match json::spec_json_parse(t) {
                    Err(m) => Err(ErrorModel::Json(m)),
                    Ok(root) => Ok(root),
                },
            },
        }
    }
}

/// The node of a `vmess` link with object `root` and decoded name `name`.
pub open spec fn vmess_node(url: Seq<char>, root: Json, name: Seq<char>) -> NodeModel {
    NodeModel {
        name: name,
        protocol: data::entry_type_number(EntryType::Vmess),
        address: str_or(jget(root, "add"@), "default"@),
        port: (match vmess_port_value(jget(root, "port"@)) {
            Some(p) => p,
            None => 0u32,
        }) as i32,
        password: str_or(jget(root, "id"@), Seq::empty()),
        raw: json::spec_json_pretty(json::strip_defaults(vmess_outbound_json(root))),
        url: url,
        ..data::default_node_model()
    }
}

/// What decoding a `vmess` link gives: the errors of its object in order,
/// then an error when its name (`ps`) does not percent-decode, else the
/// node.
pub open spec fn vmess_decode(url: Seq<char>) -> Result<NodeModel, ErrorModel> {
    match vmess_root(url) {
        Err(e) => Err(e),
        Ok(root) => match vmess_json_error(root) {
            Some(e) => Err(e),
            None => match codec::spec_url_decode(str_or(jget(root, "ps"@), Seq::empty())) {
                Err(m) => Err(ErrorModel::UrlDecode(m)),
                Ok(name) => Ok(vmess_node(url, root, name)),
            },
        },
    }
}

/// The model of a decoded node or its error.
pub open spec fn node_result(r: Result<NodeData, DecodeError>) -> Result<NodeModel, ErrorModel> {
    match r {
        Ok(n) => Ok(n@),
        Err(e) => Err(e@),
    }
}

/// The name and outbound that a decoded `vmess` object describes, or the
/// first of its errors (see `vmess_json_error`).
pub fn vmess_meta_from_json(root: &JsonValue) -> (res: Result<URLMetaObject, DecodeError>)
    ensures
        match res {
            Ok(m) => vmess_json_error(root@) is None && vmess_meta_ok(m, root@),
            Err(e) => vmess_json_error(root@) == Some(e@),
        },
{
    if member_is_null(root, "add") || member_is_null(root, "port") {
        return Err(DecodeError::NoAddressPort);
    }
    let port = match vmess_port(root) {
        Some(p) => p,
        None => return Err(DecodeError::PortIllegal),
    };
    let address = match str_member(root, "add") {
        Some(a) => a,
        None => String::from_str("default"),
    };
    let id = match str_member(root, "id") {
        Some(i) => i,
        None => return Err(DecodeError::NoId),
    };
    let security = match str_member(root, "scy") {
        Some(s) => s,
        None => String::from_str("auto"),
    };
    let user = VmessUser { id, alter_id: vmess_aid(root), security };
    let mut users: Vec<VmessUser> = Vec::new();
    users.push(user);
    let server = VmessServer { address, port, users };
    assert(outbound::vmess_server_json(server) == vmess_outbound_json(root@)->Object_0[2].1->Object_0[0].1->Object_0[0].1->Array_0[0]) by {
        assert(server.users@.map_values(|u: VmessUser| outbound::vmess_user_json(u)) =~= seq![outbound::vmess_user_json(server.users@[0])]);
        assert(outbound::vmess_server_json(server)->Object_0 =~= vmess_outbound_json(root@)->Object_0[2].1->Object_0[0].1->Object_0[0].1->Array_0[0]->Object_0);
    }
    let mut vnext: Vec<VmessServer> = Vec::new();
    vnext.push(server);
    assert(vnext@.map_values(|x: VmessServer| outbound::vmess_server_json(x)) =~= seq![outbound::vmess_server_json(vnext@[0])]);
    let settings = OutboundSettings { kind: Some(OutboundKind::Vmess(VmessOutbound { vnext })) };
    let outbound = OutboundObject {
        protocol: String::from_str("vmess"),
        send_through: String::from_str("0.0.0.0"),
        settings: Some(settings),
        stream_settings: Some(vmess_stream(root)),
    };
    assert(outbound::settings_json(settings)->Object_0 =~= vmess_outbound_json(root@)->Object_0[2].1->Object_0);
    assert(outbound::outbound_json(outbound)->Object_0 =~= vmess_outbound_json(root@)->Object_0);
    let name = str_member_or_empty(root, "ps");
    Ok(URLMetaObject { name, outbound })
}

/// The text after the first `"://"` of a link (see `after_first_sep`).
pub fn after_first_sep_exec(url: &Vec<char>) -> (res: Vec<char>)
    ensures
        res@ == after_first_sep(url@),
{
    proof {
        reveal_strlit("://");
        assert("://"@ == scheme_sep());
    }
    match cut_exec(url, "://") {
        Some(p) => p.1,
        None => url.clone(),
    }
}

/// The scheme of a link (see `scheme_of`).
pub fn scheme_of_exec(url: &Vec<char>) -> (res: Vec<char>)
    ensures
        res@ == scheme_of(url@),
{
    proof {
        reveal_strlit("://");
        assert("://"@ == scheme_sep());
    }
    match cut_exec(url, "://") {
        Some(p) => p.0,
        None => url.clone(),
    }
}

/// The Base64 text of a `vmess` link (see `vmess_info`).
fn vmess_info_exec(url: &Vec<char>) -> (res: Vec<char>)
    requires
        vmess_url_ok(url@),
    ensures
        res@ == vmess_info(url@),
{
    let sep = chars_of("://");
    proof {
        reveal_strlit("://");
        assert(sep@ == scheme_sep());
        text::lemma_rfind_from(url@, scheme_sep(), url@.len() - 3);
    }
    let len = url.len();
    let p = match rfind_exec(url, &sep) {
        Some(i) => {
            assert(text::occurs_at(url@, scheme_sep(), i as int));
            assert(scheme_sep().len() == 3);
            slice_chars(url, i + 3, len)
        },
        None => slice_chars(url, 0, len),
    };
    assert(url@.subrange(0, url@.len() as int) =~= url@);
    let n = p.len();
    if n > 0 && p[n - 1] == '@' {
        slice_chars(&p, 0, n - 2)
    } else {
        p
    }
}

/// Decodes the object of a `vmess` link (see `vmess_root`) and reads its
/// name and outbound.
fn vmess_base64_decode(url_str: &str) -> (res: Result<URLMetaObject, DecodeError>)
    requires
        vmess_url_ok(url_str@),
    ensures
        match vmess_root(url_str@) {
            Err(e) => res matches Err(e2) && e2@ == e,
            Ok(root) => match res {
                Ok(m) => vmess_json_error(root) is None && vmess_meta_ok(m, root),
                Err(e) => vmess_json_error(root) == Some(e@),
            },
        },
{
    let cs = chars_of(url_str);
    let info = vmess_info_exec(&cs);
    if info.len() == 0 {
        return Err(DecodeError::NoContent);
    }
    let info_text = string_of(&info);
    let bytes = match base64_decode(info_text.as_str()) {
        Ok(b) => b,
        Err(m) => return Err(DecodeError::Base64(m)),
    };
    let decoded = match utf8_decode(bytes) {
        Ok(t) => t,
        Err(m) => return Err(DecodeError::Utf8(m)),
    };
    let root = match parse_json(decoded.as_str()) {
        Ok(r) => r,
        Err(m) => return Err(DecodeError::Json(m)),
    };
    vmess_meta_from_json(&root)
}

/// Decodes a `vmess` link into a node (see `vmess_decode`): the name is
/// percent-decoded, the address, port and password come from the first
/// server and user, `raw` is the outbound as indented JSON without its
/// defaults, and `url` is the link.
pub fn vmess_outbound_from_base64(url_str: String) -> (res: Result<NodeData, DecodeError>)
    requires
        vmess_url_ok(url_str@),
    ensures
        node_result(res) == vmess_decode(url_str@),
{
    let meta = match vmess_base64_decode(url_str.as_str()) {
        Ok(m) => m,
        Err(e) => return Err(e),
    };
    let ghost root = vmess_root(url_str@)->Ok_0;
    let (address, port, password) = match &meta.outbound.settings {
        Some(st) => match &st.kind {
            Some(OutboundKind::Vmess(v)) => {
                let server = &v.vnext[0];
                (server.address.clone(), server.port, server.users[0].id.clone())
            },
            _ => {
                proof {
                    assert(false);
                }
                return Err(DecodeError::NoContent);
            },
        },
        None => {
            proof {
                assert(false);
            }
            return Err(DecodeError::NoContent);
        },
    };
    let mut raw = outbound::outbound_to_json(&meta.outbound);
    check_is_default_and_delete(&mut raw);
    let name = match url_decode(meta.name.as_str()) {
        Ok(n) => n,
        Err(m) => return Err(DecodeError::UrlDecode(m)),
    };
    let mut node = NodeData::default();
    node.protocol = EntryType::Vmess.number();
    node.name = name;
    node.address = address;
    node.port = port as i32;
    node.password = password;
    node.raw = json_to_string_pretty(&raw);
    node.url = url_str;
    Ok(node)
}

/// What decoding a link gives, by its scheme: a link without a scheme and
/// a scheme other than `vmess`, `trojan` and `ss` are errors.
pub open spec fn decode_url(url: Seq<char>) -> Result<NodeModel, ErrorModel> {
    let scheme = scheme_of(url);
    if scheme.len() == 0 {
        Err(ErrorModel::NoScheme)
    } else if scheme == "vmess"@ {
        vmess_decode(url)
    } else if scheme == "trojan"@ {
        trojan::trojan_decode(url)
    } else if scheme == "ss"@ {
        shadowsocks::ss_decode(url)
    } else {
        Err(ErrorModel::NotImplemented)
    }
}

/// The text after the last `"://"` of a link (see `after_last_sep`).
fn after_last_sep_exec(url: &Vec<char>) -> (res: Vec<char>)
    ensures
        res@ == after_last_sep(url@),
{
    let sep = chars_of("://");
    proof {
        reveal_strlit("://");
        assert(sep@ == scheme_sep());
        text::lemma_rfind_from(url@, scheme_sep(), url@.len() - 3);
    }
    let len = url.len();
    match rfind_exec(url, &sep) {
        Some(i) => {
            assert(text::occurs_at(url@, scheme_sep(), i as int));
            assert(scheme_sep().len() == 3);
            slice_chars(url, i + 3, len)
        },
        None => url.clone(),
    }
}

/// Whether a link can be decoded (see `url_decodable`).
pub fn url_is_decodable(url: &Vec<char>) -> (b: bool)
    ensures
        b == url_decodable(url@),
{
    let scheme = scheme_of_exec(url);
    if !chars_eq_str(&scheme, "vmess") {
        return true;
    }
    let p = after_last_sep_exec(url);
    let n = p.len();
    if n > 0 && p[n - 1] == '@' {
        n >= 2 && (p[n - 2] as u32) < 128
    } else {
        true
    }
}

/// Decodes a share link into a node by its scheme (see `decode_url`):
/// `vmess`, `trojan` and `ss` links are read by their own rules.
pub fn decode_outbound_from_url(url: &str) -> (res: Result<NodeData, DecodeError>)
    requires
        url_decodable(url@),
    ensures
        node_result(res) == decode_url(url@),
{
    let cs = chars_of(url);
    let scheme = scheme_of_exec(&cs);
    if scheme.len() == 0 {
        return Err(DecodeError::NoScheme);
    }
    let url_string = String::from_str(url);
    if chars_eq_str(&scheme, "vmess") {
        vmess_outbound_from_base64(url_string)
    } else if chars_eq_str(&scheme, "trojan") {
        trojan::trojan_outbound_from_url(url_string)
    } else if chars_eq_str(&scheme, "ss") {
        shadowsocks::shadowsocks_outbound_from_url(url_string)
    } else {
        Err(DecodeError::NotImplemented)
    }
}

/// The nodes of the lines that decode, in order; lines that do not decode
/// are skipped.
pub open spec fn nodes_of(ls: Seq<Seq<char>>) -> Seq<NodeModel>
    decreases ls.len(),
{
    if ls.len() == 0 {
        Seq::<NodeModel>::empty()
    } else {
        match decode_url(ls.last()) {
            Ok(n) => nodes_of(ls.drop_last()).push(n),
            Err(_) => nodes_of(ls.drop_last()),
        }
    }
}

/// Whether every line can be decoded (see `url_decodable`).
pub open spec fn lines_decodable(t: Seq<char>) -> bool {
    forall|i: int| 0 <= i < text::lines(t).len() ==> url_decodable(#[trigger] text::lines(t)[i])
}

/// The text of a subscription: its Base64 decoded, as UTF-8.
pub open spec fn subscription_text(base64: Seq<char>) -> Result<Seq<char>, ErrorModel> {
    match codec::spec_base64_decode(base64) {
        Err(m) => Err(ErrorModel::Base64(m)),
        Ok(bytes) => match codec::spec_utf8_decode(bytes) {
            Err(m) => Err(ErrorModel::Utf8(m)),
            Ok(t) => Ok(t),
        },
    }
}

/// Whether every link of a subscription can be decoded.
pub open spec fn subscription_decodable(base64: Seq<char>) -> bool {
    subscription_text(base64) matches Ok(t) ==> lines_decodable(t)
}

/// What a subscription gives: the nodes of the lines of its text that
/// decode, or the error of its text.
pub open spec fn subscription_nodes(base64: Seq<char>) -> Result<Seq<NodeModel>, ErrorModel> {
    match subscription_text(base64) {
        Err(e) => Err(e),
        Ok(t) => Ok(nodes_of(text::lines(t))),
    }
}

/// The models of decoded nodes or their error.
pub open spec fn nodes_result(r: Result<Vec<NodeData>, DecodeError>) -> Result<Seq<NodeModel>, ErrorModel> {
    match r {
        Ok(v) => Ok(v@.map_values(|n: NodeData| n@)),
        Err(e) => Err(e@),
    }
}

/// The nodes of the lines of a text that decode (see `nodes_of`).
pub fn nodes_from_text(t: &str) -> (res: Vec<NodeData>)
    requires
        lines_decodable(t@),
    ensures
        res@.map_values(|n: NodeData| n@) == nodes_of(text::lines(t@)),
{
    let cs = chars_of(t);
    let ls = text::lines_exec(&cs);
    let ghost all = text::views(ls@);
    let mut nodes: Vec<NodeData> = Vec::new();
    let mut i: usize = 0;
    while i < ls.len()
        invariant
            i <= ls@.len(),
            all == text::views(ls@),
            all == text::lines(t@),
            lines_decodable(t@),
            nodes@.map_values(|n: NodeData| n@) == nodes_of(all.subrange(0, i as int)),
        decreases ls.len() - i,
    {
        assert(all[i as int] == ls@[i as int]@);
        assert(all.subrange(0, i + 1).drop_last() =~= all.subrange(0, i as int));
        assert(url_decodable(all[i as int]));
        let line = string_of(&ls[i]);
        match decode_outbound_from_url(line.as_str()) {
            Ok(n) => {
                let ghost prev = nodes@;
                nodes.push(n);
                assert(nodes@.map_values(|n: NodeData| n@) =~= prev.map_values(|n: NodeData| n@).push(
                    nodes@.last()@,
                ));
            },
            Err(_) => {},
        }
        i = i + 1;
    }
    assert(all.subrange(0, ls@.len() as int) =~= all);
    nodes
}

/// The text of a subscription (see `subscription_text`).
fn subscription_text_exec(base64: &str) -> (res: Result<String, DecodeError>)
    ensures
        match res {
            Ok(t) => subscription_text(base64@) == Ok::<Seq<char>, ErrorModel>(t@),
            Err(e) => subscription_text(base64@) == Err::<Seq<char>, ErrorModel>(e@),
        },
{
    let bytes = match base64_decode(base64) {
        Ok(b) => b,
        Err(m) => return Err(DecodeError::Base64(m)),
    };
    match utf8_decode(bytes) {
        Ok(t) => Ok(t),
        Err(m) => Err(DecodeError::Utf8(m)),
    }
}

/// Decodes a subscription (see `subscription_nodes`): the Base64 text
/// holds one link per line, and links that do not decode are skipped.
pub fn get_nodes_from_base64(base64: &str) -> (res: Result<Vec<NodeData>, DecodeError>)
    requires
        subscription_decodable(base64@),
    ensures
        nodes_result(res) == subscription_nodes(base64@),
{
    match subscription_text_exec(base64) {
        Ok(t) => Ok(nodes_from_text(t.as_str())),
        Err(e) => Err(e),
    }
}

/// Decodes a subscription when every one of its links can be decoded (see
/// `get_nodes_from_base64`), and gives `None` otherwise.
pub fn try_get_nodes_from_base64(base64: &str) -> (res: Option<Result<Vec<NodeData>, DecodeError>>)
    ensures
        match res {
            Some(r) => subscription_decodable(base64@) && nodes_result(r) == subscription_nodes(base64@),
            None => !subscription_decodable(base64@),
        },
{
    match subscription_text_exec(base64) {
        Ok(t) => {
            let cs = chars_of(t.as_str());
            let ls = text::lines_exec(&cs);
            let ghost all = text::views(ls@);
            let mut i: usize = 0;
            while i < ls.len()
                invariant
                    i <= ls@.len(),
                    all == text::views(ls@),
                    all == text::lines(t@),
                    subscription_text(base64@) == Ok::<Seq<char>, ErrorModel>(t@),
                    forall|j: int| 0 <= j < i ==> url_decodable(#[trigger] all[j]),
                decreases ls.len() - i,
            {
                assert(all[i as int] == ls@[i as int]@);
                if !url_is_decodable(&ls[i]) {
                    assert(!url_decodable(text::lines(t@)[i as int]));
                    assert(!lines_decodable(t@));
                    return None;
                }
                i = i + 1;
            }
            Some(get_nodes_from_base64(base64))
        },
        Err(_) => Some(get_nodes_from_base64(base64)),
    }
}

/// The protocol number of the nodes that links of a scheme decode into.
pub open spec fn scheme_protocol(scheme: Seq<char>) -> i32 {
    if scheme == "vmess"@ {
        data::entry_type_number(EntryType::Vmess)
    } else if scheme == "trojan"@ {
        data::entry_type_number(EntryType::Trojan)
    } else {
        data::entry_type_number(EntryType::Shadowsocks)
    }
}

/// A node decoded from a link keeps the link in `url`, has the protocol
/// that the link's scheme names, and holds in `raw` the indented JSON of
/// an outbound in which no member carries only defaults.
pub proof fn law_decoded_node(url: Seq<char>)
    ensures
        decode_url(url) matches Ok(n) ==> {
            &&& n.url == url
            &&& n.protocol == scheme_protocol(scheme_of(url))
            &&& exists|j: Json| n.raw == json::spec_json_pretty(j) && #[trigger] json::no_default_members(j)
        },
{
    if decode_url(url) is Ok {
        let scheme = scheme_of(url);
        let n = decode_url(url)->Ok_0;
        if scheme == "vmess"@ {
            let root = vmess_root(url)->Ok_0;
            let j = json::strip_defaults(vmess_outbound_json(root));
            json::law_strip_leaves_no_defaults(vmess_outbound_json(root));
            assert(n.raw == json::spec_json_pretty(j));
        } else if scheme == "trojan"@ {
            let l = trojan::trojan_parse(url)->Ok_0;
            let j = json::strip_defaults(trojan::trojan_json(l));
            json::law_strip_leaves_no_defaults(trojan::trojan_json(l));
            assert(n.raw == json::spec_json_pretty(j));
        } else {
            let l = shadowsocks::ss_parse(url)->Ok_0;
            let j = json::strip_defaults(shadowsocks::ss_json(l));
            json::law_strip_leaves_no_defaults(shadowsocks::ss_json(l));
            assert(n.raw == json::spec_json_pretty(j));
        }
    }
}

/// The value at `k1.k2.k3` of a JSON value (`null` where a member is
/// missing).
pub open spec fn value_at(j: Json, k1: Seq<char>, k2: Seq<char>, k3: Seq<char>) -> Json {
    json::json_index(json::json_index(json::json_index(j, k1), k2), k3)
}

/// The outbound JSON that a `vmess` link's object describes gives the
/// fields of its transport settings as the object names them: the gRPC
/// service name is `path`, the QUIC key is `path` and the QUIC security is
/// `host` (each the empty text when the member is no string), and a string
/// `type` is the QUIC header type.
proof fn lemma_vmess_transport_fields(root: Json)
    ensures
        vmess_net_is(root, "grpc"@) ==> value_at(vmess_outbound_json(root), "streamSettings"@, "grpcSettings"@, "serviceName"@)
            == Json::String(str_or(jget(root, "path"@), Seq::empty())),
        vmess_net_is(root, "quic"@) ==> value_at(vmess_outbound_json(root), "streamSettings"@, "quicSettings"@, "key"@)
            == Json::String(str_or(jget(root, "path"@), Seq::empty())),
        vmess_net_is(root, "quic"@) ==> value_at(vmess_outbound_json(root), "streamSettings"@, "quicSettings"@, "security"@)
            == Json::String(str_or(jget(root, "host"@), Seq::empty())),
        vmess_net_is(root, "quic"@) && jget(root, "type"@) is String ==> value_at(
            vmess_outbound_json(root),
            "streamSettings"@,
            "quicSettings"@,
            "header"@,
        ) == Json::Object(seq![("type"@, jget(root, "type"@))]),
{
    reveal_strlit("protocol");
    reveal_strlit("sendThrough");
    reveal_strlit("settings");
    reveal_strlit("streamSettings");
    reveal_strlit("grpcSettings");
    reveal_strlit("httpSettings");
    reveal_strlit("network");
    reveal_strlit("quicSettings");
    reveal_strlit("serviceName");
    reveal_strlit("header");
    reveal_strlit("key");
    reveal_strlit("security");
    reveal_with_fuel(json::member_lookup, 8);
    let o = vmess_outbound_json(root)->Object_0;
    assert(o.drop_first().drop_first().drop_first()[0].0 == "streamSettings"@);
    assert(json::json_index(vmess_outbound_json(root), "streamSettings"@) == vmess_stream_json(root));
    let st = vmess_stream_json(root)->Object_0;
    assert(st[0].0 == "grpcSettings"@);
    assert(json::json_index(vmess_stream_json(root), "grpcSettings"@) == vmess_grpc_json(root));
    assert(st.drop_first().drop_first().drop_first()[0].0 == "quicSettings"@);
    assert("grpcSettings"@[0] == 'g' && "quicSettings"@[0] == 'q' && "httpSettings"@[0] == 'h');
    assert("network"@.len() == 7 && "quicSettings"@.len() == 12);
    assert(st[0].0 != "quicSettings"@);
    assert(st[1].0 != "quicSettings"@);
    assert(st[2].0 != "quicSettings"@);
    assert(json::json_index(vmess_stream_json(root), "quicSettings"@) == vmess_quic_json(root));
    if vmess_net_is(root, "quic"@) {
        let q = vmess_quic_json(root)->Object_0;
        assert(q.drop_first()[0].0 == "key"@);
        assert(json::json_index(vmess_quic_json(root), "key"@) == Json::String(vmess_path(root)));
        assert("header"@.len() == 6 && "key"@.len() == 3 && "security"@.len() == 8);
        assert(q.drop_first().drop_first()[0].0 == "security"@);
        assert(json::json_index(vmess_quic_json(root), "security"@) == Json::String(vmess_host(root)));
        assert(q[0].0 == "header"@);
    }
}

/// A node decoded from a `vmess` link whose object asks for gRPC carries,
/// in `raw`, an outbound whose gRPC service name is the object's `path`
/// (the empty text when `path` is no string).
pub proof fn law_vmess_grpc_service_name(url: Seq<char>, root: Json)
    requires
        scheme_of(url) == "vmess"@,
        vmess_root(url) == Ok::<Json, ErrorModel>(root),
        jget(root, "net"@) == Json::String("grpc"@),
        decode_url(url) is Ok,
    ensures
        exists|j: Json|
            decode_url(url)->Ok_0.raw == json::spec_json_pretty(json::strip_defaults(j)) && #[trigger] value_at(
                j,
                "streamSettings"@,
                "grpcSettings"@,
                "serviceName"@,
            ) == Json::String(str_or(jget(root, "path"@), Seq::empty())),
{
    reveal_strlit("vmess");
    reveal_strlit("grpc");
    reveal_strlit("h2");
    assert("grpc"@.len() == 4);
    assert("h2"@.len() == 2);
    assert("grpc"@ != "h2"@);
    assert(vmess_network(root) == Some("grpc"@));
    assert(vmess_net_is(root, "grpc"@));
    lemma_vmess_transport_fields(root);
    let j = vmess_outbound_json(root);
    assert(decode_url(url)->Ok_0.raw == json::spec_json_pretty(json::strip_defaults(j)));
    assert(value_at(j, "streamSettings"@, "grpcSettings"@, "serviceName"@) == Json::String(
        str_or(jget(root, "path"@), Seq::empty()),
    ));
}

/// A node decoded from a `vmess` link whose object asks for QUIC carries,
/// in `raw`, an outbound whose QUIC key is the object's `path` and whose
/// QUIC security is the object's `host` (each the empty text when the
/// member is no string), with a header of the object's `type` when that is
/// a string.
pub proof fn law_vmess_quic_key_and_security(url: Seq<char>, root: Json)
    requires
        scheme_of(url) == "vmess"@,
        vmess_root(url) == Ok::<Json, ErrorModel>(root),
        jget(root, "net"@) == Json::String("quic"@),
        decode_url(url) is Ok,
    ensures
        exists|j: Json|
            decode_url(url)->Ok_0.raw == json::spec_json_pretty(json::strip_defaults(j)) && #[trigger] value_at(
                j,
                "streamSettings"@,
                "quicSettings"@,
                "key"@,
            ) == Json::String(str_or(jget(root, "path"@), Seq::empty())) && value_at(
                j,
                "streamSettings"@,
                "quicSettings"@,
                "security"@,
            ) == Json::String(str_or(jget(root, "host"@), Seq::empty())) && (jget(root, "type"@) is String ==> value_at(
                j,
                "streamSettings"@,
                "quicSettings"@,
                "header"@,
            ) == Json::Object(seq![("type"@, jget(root, "type"@))])),
{
    reveal_strlit("vmess");
    reveal_strlit("quic");
    reveal_strlit("h2");
    assert("quic"@.len() == 4);
    assert("h2"@.len() == 2);
    assert("quic"@ != "h2"@);
    assert(vmess_network(root) == Some("quic"@));
    assert(vmess_net_is(root, "quic"@));
    lemma_vmess_transport_fields(root);
    let j = vmess_outbound_json(root);
    assert(decode_url(url)->Ok_0.raw == json::spec_json_pretty(json::strip_defaults(j)));
    assert(value_at(j, "streamSettings"@, "quicSettings"@, "key"@) == Json::String(
        str_or(jget(root, "path"@), Seq::empty()),
    ));
}

/// The number of lines that decode.
pub open spec fn count_decoded(ls: Seq<Seq<char>>) -> nat
    decreases ls.len(),
{
    if ls.len() == 0 {
        0
    } else {
        count_decoded(ls.drop_last()) + if decode_url(ls.last()) is Ok {
            1nat
        } else {
            0nat
        }
    }
}

/// A prefix of the lines holds no more decoding lines than the whole, and
/// one fewer at least when the line after the prefix decodes.
proof fn lemma_count_decoded_prefix(ls: Seq<Seq<char>>, k: int)
    requires
        0 <= k <= ls.len(),
    ensures
        count_decoded(ls.take(k)) <= count_decoded(ls),
        k < ls.len() && decode_url(ls[k]) is Ok ==> count_decoded(ls.take(k)) + 1 <= count_decoded(ls),
    decreases ls.len(),
{
    if k == ls.len() {
        assert(ls.take(k) =~= ls);
    } else {
        let d = ls.drop_last();
        if k == ls.len() - 1 {
            assert(ls.take(k) =~= d);
        } else {
            assert(d.take(k) =~= ls.take(k));
            lemma_count_decoded_prefix(d, k);
            assert(d[k] == ls[k]);
        }
    }
}

/// Every line of a subscription that decodes gives a node, whatever the
/// lines before it gave: the nodes are exactly the decoding lines' nodes,
/// in order; the node of line `k` stands after one node for each
/// decoding line before it.
pub proof fn law_every_decoding_line_gives_a_node(ls: Seq<Seq<char>>)
    ensures
        nodes_of(ls).len() == count_decoded(ls),
        forall|k: int|
            0 <= k < ls.len() && decode_url(ls[k]) is Ok ==> nodes_of(ls)[count_decoded(ls.take(k)) as int]
                == #[trigger] decode_url(ls[k])->Ok_0,
    decreases ls.len(),
{
    if ls.len() > 0 {
        let d = ls.drop_last();
        law_every_decoding_line_gives_a_node(d);
        assert forall|k: int| 0 <= k < ls.len() && decode_url(ls[k]) is Ok implies nodes_of(ls)[count_decoded(
            ls.take(k),
        ) as int] == #[trigger] decode_url(ls[k])->Ok_0 by {
            if k == ls.len() - 1 {
                assert(ls.take(k) =~= d);
            } else {
                assert(d.take(k) =~= ls.take(k));
                assert(d[k] == ls[k]);
                lemma_count_decoded_prefix(d, k);
            }
        }
    }
}

/// The value at `k1.k2` of a JSON value (`null` where a member is
/// missing).
pub open spec fn value_at2(j: Json, k1: Seq<char>, k2: Seq<char>) -> Json {
    json::json_index(json::json_index(j, k1), k2)
}

/// What the transport settings of a `vmess` object's outbound say, field
/// by field, in terms of the object's own members.
pub open spec fn vmess_stream_fields_hold(root: Json, j: Json) -> bool {
    &&& value_at2(j, "streamSettings"@, "security"@) == Json::String(str_or(jget(root, "tls"@), Seq::empty()))
    &&& jget(root, "net"@) matches Json::String(n) ==> value_at2(j, "streamSettings"@, "network"@) == Json::String(
        if n == "h2"@ {
            "http"@
        } else {
            n
        },
    )
    &&& !(jget(root, "net"@) is String) ==> value_at2(j, "streamSettings"@, "network"@) == Json::String(Seq::empty())
    &&& jget(root, "sni"@) matches Json::String(s) ==> value_at(j, "streamSettings"@, "tlsSettings"@, "serverName"@)
        == Json::String(s)
    &&& !(jget(root, "sni"@) is String) ==> value_at2(j, "streamSettings"@, "tlsSettings"@) == Json::Null
    &&& jget(root, "net"@) == Json::String("ws"@) ==> value_at(j, "streamSettings"@, "wsSettings"@, "path"@)
        == Json::String(str_or(jget(root, "path"@), Seq::empty()))
    &&& (jget(root, "net"@) == Json::String("ws"@) && jget(root, "host"@) is String) ==> json::json_index(
        value_at(j, "streamSettings"@, "wsSettings"@, "headers"@),
        "Host"@,
    ) == jget(root, "host"@)
    &&& (jget(root, "net"@) == Json::String("http"@) || jget(root, "net"@) == Json::String("h2"@)) ==> value_at(
        j,
        "streamSettings"@,
        "httpSettings"@,
        "path"@,
    ) == Json::String(str_or(jget(root, "path"@), Seq::empty()))
}

/// The transport settings that a `vmess` object describes hold its own
/// members, field by field (see `vmess_stream_fields_hold`).
proof fn lemma_vmess_stream_fields(root: Json)
    ensures
        vmess_stream_fields_hold(root, vmess_outbound_json(root)),
{
    reveal_strlit("protocol");
    reveal_strlit("sendThrough");
    reveal_strlit("settings");
    reveal_strlit("streamSettings");
    reveal_strlit("grpcSettings");
    reveal_strlit("httpSettings");
    reveal_strlit("network");
    reveal_strlit("quicSettings");
    reveal_strlit("security");
    reveal_strlit("tlsSettings");
    reveal_strlit("wsSettings");
    reveal_strlit("allowInsecure");
    reveal_strlit("alpn");
    reveal_strlit("serverName");
    reveal_strlit("headers");
    reveal_strlit("path");
    reveal_strlit("host");
    reveal_strlit("Host");
    reveal_strlit("ws");
    reveal_strlit("http");
    reveal_strlit("h2");
    reveal_with_fuel(json::member_lookup, 8);
    let o = vmess_outbound_json(root)->Object_0;
    assert(o.drop_first().drop_first().drop_first()[0].0 == "streamSettings"@);
    assert(json::json_index(vmess_outbound_json(root), "streamSettings"@) == vmess_stream_json(root));
    let sj = vmess_stream_json(root);
    let st = sj->Object_0;
    assert("grpcSettings"@[0] == 'g' && "quicSettings"@[0] == 'q' && "httpSettings"@[0] == 'h');
    assert("network"@.len() == 7 && "security"@.len() == 8 && "tlsSettings"@.len() == 11);
    assert("wsSettings"@.len() == 10 && "grpcSettings"@.len() == 12 && "httpSettings"@.len() == 12);
    assert("quicSettings"@.len() == 12);
    assert(json::json_index(sj, "httpSettings"@) == vmess_http_json(root));
    assert(json::json_index(sj, "network"@) == st[2].1);
    assert(json::json_index(sj, "security"@) == st[4].1);
    assert(json::json_index(sj, "tlsSettings"@) == vmess_tls_json(root));
    assert(json::json_index(sj, "wsSettings"@) == vmess_ws_json(root));
    assert("ws"@.len() == 2 && "h2"@.len() == 2 && "http"@.len() == 4);
    assert("ws"@[0] == 'w' && "h2"@[0] == 'h');
    if jget(root, "sni"@) is String {
        let t = vmess_tls_json(root)->Object_0;
        assert("allowInsecure"@.len() == 13 && "alpn"@.len() == 4 && "serverName"@.len() == 10);
        assert(t.drop_first().drop_first()[0].0 == "serverName"@);
    }
    if jget(root, "net"@) == Json::String("ws"@) {
        assert(vmess_net_is(root, "ws"@));
        let w = vmess_ws_json(root)->Object_0;
        assert("headers"@.len() == 7 && "path"@.len() == 4);
        assert(w.drop_first()[0].0 == "path"@);
        assert(json::json_index(vmess_ws_json(root), "path"@) == Json::String(vmess_path(root)));
    }
    if jget(root, "net"@) == Json::String("http"@) || jget(root, "net"@) == Json::String("h2"@) {
        assert(vmess_net_is(root, "http"@));
        let h = vmess_http_json(root)->Object_0;
        assert("host"@.len() == 4 && "path"@.len() == 4 && "host"@[0] == 'h' && "path"@[0] == 'p');
        assert(h.drop_first()[0].0 == "path"@);
        assert(json::json_index(vmess_http_json(root), "path"@) == Json::String(vmess_path(root)));
    }
}

/// A node decoded from a `vmess` link holds the link's own values: the
/// address is `add` (or `default` when it is no string), the password is
/// the user id `id`, the port is `port` (a number, or a string read as a
/// port), the name is `ps` percent-decoded, the protocol is VMess and the
/// link itself is kept; and its `raw` outbound carries the object's
/// transport members field by field (see `vmess_stream_fields_hold`).
pub proof fn law_vmess_node_fields(url: Seq<char>, root: Json)
    requires
        scheme_of(url) == "vmess"@,
        vmess_root(url) == Ok::<Json, ErrorModel>(root),
        decode_url(url) is Ok,
    ensures
        decode_url(url)->Ok_0.address == str_or(jget(root, "add"@), "default"@),
        decode_url(url)->Ok_0.password == str_or(jget(root, "id"@), Seq::empty()),
        decode_url(url)->Ok_0.url == url,
        decode_url(url)->Ok_0.protocol == data::entry_type_number(EntryType::Vmess),
        codec::spec_url_decode(str_or(jget(root, "ps"@), Seq::empty())) == Ok::<Seq<char>, Seq<char>>(
            decode_url(url)->Ok_0.name,
        ),
        jget(root, "port"@) matches Json::Number(Num::PosInt(u)) ==> decode_url(url)->Ok_0.port == (u as u32) as i32,
        jget(root, "port"@) matches Json::String(s) ==> decode_url(url)->Ok_0.port == (match text::parse_u32(s) {
            Some(p) => p,
            None => 0u32,
        }) as i32,
        exists|j: Json|
            decode_url(url)->Ok_0.raw == json::spec_json_pretty(json::strip_defaults(j))
                && #[trigger] vmess_stream_fields_hold(root, j),
{
    reveal_strlit("vmess");
    lemma_vmess_stream_fields(root);
    let j = vmess_outbound_json(root);
    assert(decode_url(url)->Ok_0.raw == json::spec_json_pretty(json::strip_defaults(j)));
}


/// The first server listed under `settings.<proto>.servers` of an
/// outbound's JSON (`null` where there is none).
pub open spec fn first_server(j: Json, proto: Seq<char>) -> Json {
    first_elem(value_at(j, "settings"@, proto, "servers"@))
}

/// The first element of a JSON array (`null` where there is none).
pub open spec fn first_elem(v: Json) -> Json {
    match v {
        Json::Array(a) => if a.len() > 0 {
            a[0]
        } else {
            Json::Null
        },
        _ => Json::Null,
    }
}

/// What the outbound of a Trojan link says, field by field, in terms of
/// the link's own parts: one Trojan server at the link's host and port
/// with its password, and TLS settings whose server name is the last
/// `sni` value of the query and which allow an insecure certificate
/// exactly when the last `allowinsecure` value is `true`.
pub open spec fn trojan_fields_hold(l: trojan::TrojanLink, j: Json) -> bool {
    &&& json::json_index(j, "protocol"@) == Json::String("trojan"@)
    &&& json::json_index(first_server(j, "trojan"@), "address"@) == Json::String(l.host)
    &&& json::json_index(first_server(j, "trojan"@), "password"@) == Json::String(l.password)
    &&& json::json_index(first_server(j, "trojan"@), "port"@) == Json::Number(Num::PosInt(l.port as u64))
    &&& value_at(j, "streamSettings"@, "tlsSettings"@, "serverName"@) == Json::String(
        trojan::param_or_empty(l.pairs, "sni"@),
    )
    &&& value_at(j, "streamSettings"@, "tlsSettings"@, "allowInsecure"@) == Json::Bool(
        trojan::param(l.pairs, "allowinsecure"@) == Some("true"@),
    )
}

/// The outbound JSON of a Trojan link holds the link's parts field by
/// field (see `trojan_fields_hold`).
proof fn lemma_trojan_fields(l: trojan::TrojanLink)
    ensures
        trojan_fields_hold(l, trojan::trojan_json(l)),
{
    reveal_strlit("protocol");
    reveal_strlit("sendThrough");
    reveal_strlit("settings");
    reveal_strlit("streamSettings");
    reveal_strlit("trojan");
    reveal_strlit("servers");
    reveal_strlit("address");
    reveal_strlit("password");
    reveal_strlit("port");
    reveal_strlit("grpcSettings");
    reveal_strlit("httpSettings");
    reveal_strlit("network");
    reveal_strlit("quicSettings");
    reveal_strlit("security");
    reveal_strlit("tlsSettings");
    reveal_strlit("wsSettings");
    reveal_strlit("allowInsecure");
    reveal_strlit("alpn");
    reveal_strlit("serverName");
    reveal_with_fuel(json::member_lookup, 8);
    let j = trojan::trojan_json(l);
    let o = j->Object_0;
    assert("protocol"@.len() == 8 && "sendThrough"@.len() == 11 && "settings"@.len() == 8);
    assert("streamSettings"@.len() == 14);
    assert(o[2].0 == "settings"@);
    assert(o[3].0 == "streamSettings"@);
    assert(o.drop_first().drop_first()[0].0 == "settings"@);
    assert(o.drop_first().drop_first().drop_first()[0].0 == "streamSettings"@);
    let server = Json::Object(
        seq![
            ("address"@, outbound::jstr(l.host)),
            ("password"@, outbound::jstr(l.password)),
            ("port"@, outbound::juint(l.port)),
        ],
    );
    let inner = Json::Object(seq![("servers"@, Json::Array(seq![server]))]);
    let sett = Json::Object(seq![("trojan"@, inner)]);
    assert("protocol"@[0] == 'p' && "settings"@[0] == 's');
    assert(o[0].0 != "settings"@);
    assert(o[1].0 != "settings"@);
    assert(json::json_index(j, "settings"@) == sett);
    assert(sett->Object_0[0].0 == "trojan"@);
    assert(json::json_index(sett, "trojan"@) == inner);
    assert(inner->Object_0[0].0 == "servers"@);
    assert(json::json_index(inner, "servers"@) == Json::Array(seq![server]));
    assert(value_at(j, "settings"@, "trojan"@, "servers"@) == Json::Array(seq![server]));
    assert(first_server(j, "trojan"@) == server);
    assert("address"@.len() == 7 && "password"@.len() == 8 && "port"@.len() == 4);
    assert("address"@[0] == 'a' && "password"@[0] == 'p' && "port"@[1] == 'o' && "password"@[1] == 'a');
    let sj = json::json_index(j, "streamSettings"@);
    let st = sj->Object_0;
    assert("grpcSettings"@[0] == 'g' && "quicSettings"@[0] == 'q' && "httpSettings"@[0] == 'h');
    assert("network"@.len() == 7 && "security"@.len() == 8 && "tlsSettings"@.len() == 11);
    assert("grpcSettings"@.len() == 12 && "httpSettings"@.len() == 12 && "quicSettings"@.len() == 12);
    assert(st.drop_first().drop_first().drop_first().drop_first().drop_first()[0].0 == "tlsSettings"@);
    assert(json::json_index(sj, "tlsSettings"@) == trojan::trojan_tls_json(l.pairs));
    let t = trojan::trojan_tls_json(l.pairs)->Object_0;
    assert("allowInsecure"@.len() == 13 && "alpn"@.len() == 4 && "serverName"@.len() == 10);
    assert(t.drop_first().drop_first()[0].0 == "serverName"@);
}

/// A node decoded from a Trojan link holds the link's own parts: the
/// address is its host, the password and port are its own, the name is
/// its fragment percent-decoded, the protocol is Trojan and the link itself
/// is kept; and its `raw` outbound carries them field by field (see
/// `trojan_fields_hold`).
pub proof fn law_trojan_node_fields(url: Seq<char>, l: trojan::TrojanLink)
    requires
        scheme_of(url) == "trojan"@,
        trojan::trojan_parse(url) == Ok::<trojan::TrojanLink, ErrorModel>(l),
        decode_url(url) is Ok,
    ensures
        decode_url(url)->Ok_0.address == l.host,
        decode_url(url)->Ok_0.password == l.password,
        decode_url(url)->Ok_0.port == l.port as i32,
        decode_url(url)->Ok_0.url == url,
        decode_url(url)->Ok_0.protocol == data::entry_type_number(EntryType::Trojan),
        codec::spec_url_decode(l.name) == Ok::<Seq<char>, Seq<char>>(decode_url(url)->Ok_0.name),
        exists|j: Json|
            decode_url(url)->Ok_0.raw == json::spec_json_pretty(json::strip_defaults(j))
                && #[trigger] trojan_fields_hold(l, j),
{
    reveal_strlit("vmess");
    reveal_strlit("trojan");
    assert("vmess"@.len() == 5 && "trojan"@.len() == 6);
    lemma_trojan_fields(l);
    let j = trojan::trojan_json(l);
    assert(decode_url(url)->Ok_0.raw == json::spec_json_pretty(json::strip_defaults(j)));
}


/// What the outbound of a Shadowsocks link says, field by field, in terms
/// of the link's own parts: one Shadowsocks server at the link's host and
/// port, with its method and password.
pub open spec fn ss_fields_hold(l: shadowsocks::ShadowsocksLink, j: Json) -> bool {
    &&& json::json_index(j, "protocol"@) == Json::String("shadowsocks"@)
    &&& json::json_index(first_server(j, "shadowsocks"@), "address"@) == Json::String(l.host)
    &&& json::json_index(first_server(j, "shadowsocks"@), "method"@) == Json::String(l.method)
    &&& json::json_index(first_server(j, "shadowsocks"@), "password"@) == Json::String(l.password)
    &&& json::json_index(first_server(j, "shadowsocks"@), "port"@) == Json::Number(Num::PosInt(l.port as u64))
}

/// The outbound JSON of a Shadowsocks link holds the link's parts field by
/// field (see `ss_fields_hold`).
proof fn lemma_ss_fields(l: shadowsocks::ShadowsocksLink)
    ensures
        ss_fields_hold(l, shadowsocks::ss_json(l)),
{
    reveal_strlit("protocol");
    reveal_strlit("sendThrough");
    reveal_strlit("settings");
    reveal_strlit("streamSettings");
    reveal_strlit("shadowsocks");
    reveal_strlit("servers");
    reveal_strlit("address");
    reveal_strlit("method");
    reveal_strlit("password");
    reveal_strlit("port");
    reveal_with_fuel(json::member_lookup, 8);
    let j = shadowsocks::ss_json(l);
    let o = j->Object_0;
    assert("protocol"@.len() == 8 && "sendThrough"@.len() == 11 && "settings"@.len() == 8);
    assert("protocol"@[0] == 'p' && "settings"@[0] == 's');
    assert(o[0].0 != "settings"@);
    assert(o[1].0 != "settings"@);
    let server = Json::Object(
        seq![
            ("address"@, outbound::jstr(l.host)),
            ("method"@, outbound::jstr(l.method)),
            ("password"@, outbound::jstr(l.password)),
            ("port"@, outbound::juint(l.port)),
        ],
    );
    let inner = Json::Object(seq![("servers"@, Json::Array(seq![server]))]);
    let sett = Json::Object(seq![("shadowsocks"@, inner)]);
    assert(json::json_index(j, "settings"@) == sett);
    assert(sett->Object_0[0].0 == "shadowsocks"@);
    assert(json::json_index(sett, "shadowsocks"@) == inner);
    assert(inner->Object_0[0].0 == "servers"@);
    assert(json::json_index(inner, "servers"@) == Json::Array(seq![server]));
    assert(value_at(j, "settings"@, "shadowsocks"@, "servers"@) == Json::Array(seq![server]));
    assert(first_server(j, "shadowsocks"@) == server);
    assert("address"@.len() == 7 && "method"@.len() == 6 && "password"@.len() == 8 && "port"@.len() == 4);
    assert("address"@[0] == 'a' && "method"@[0] == 'm' && "password"@[0] == 'p' && "port"@[1] == 'o'
        && "password"@[1] == 'a');
}

/// A node decoded from a Shadowsocks link holds the link's own parts: the
/// address is its host, the password and port are its own, the name is
/// its fragment percent-decoded, the protocol is Shadowsocks and the link
/// itself is kept; and its `raw` outbound carries them, with the method,
/// field by field (see `ss_fields_hold`).
pub proof fn law_ss_node_fields(url: Seq<char>, l: shadowsocks::ShadowsocksLink)
    requires
        scheme_of(url) == "ss"@,
        shadowsocks::ss_parse(url) == Ok::<shadowsocks::ShadowsocksLink, ErrorModel>(l),
        decode_url(url) is Ok,
    ensures
        decode_url(url)->Ok_0.address == l.host,
        decode_url(url)->Ok_0.password == l.password,
        decode_url(url)->Ok_0.port == l.port as i32,
        decode_url(url)->Ok_0.url == url,
        decode_url(url)->Ok_0.protocol == data::entry_type_number(EntryType::Shadowsocks),
        codec::spec_url_decode(l.name) == Ok::<Seq<char>, Seq<char>>(decode_url(url)->Ok_0.name),
        exists|j: Json|
            decode_url(url)->Ok_0.raw == json::spec_json_pretty(json::strip_defaults(j))
                && #[trigger] ss_fields_hold(l, j),
{
    reveal_strlit("vmess");
    reveal_strlit("trojan");
    reveal_strlit("ss");
    assert("vmess"@.len() == 5 && "trojan"@.len() == 6 && "ss"@.len() == 2);
    lemma_ss_fields(l);
    let j = shadowsocks::ss_json(l);
    assert(decode_url(url)->Ok_0.raw == json::spec_json_pretty(json::strip_defaults(j)));
}


/// What the server of a `vmess` object's outbound says, field by field, in
/// terms of the object's own members: the address is `add` (or `default`),
/// the port is `port` (a number, or a string read as a port), and the
/// first user has the id `id`, the security `scy` (or `auto`) and the
/// alter id `aid` (a small number as it is; anything but a number or a
/// string gives 0).
pub open spec fn vmess_server_fields_hold(root: Json, j: Json) -> bool {
    let server = first_elem(value_at(j, "settings"@, "vmess"@, "vnext"@));
    let user = first_elem(json::json_index(server, "users"@));
    &&& json::json_index(j, "protocol"@) == Json::String("vmess"@)
    &&& json::json_index(server, "address"@) == Json::String(str_or(jget(root, "add"@), "default"@))
    &&& jget(root, "port"@) matches Json::Number(Num::PosInt(u)) ==> json::json_index(server, "port"@) == Json::Number(
        Num::PosInt((u as u32) as u64),
    )
    &&& jget(root, "port"@) matches Json::String(t) ==> json::json_index(server, "port"@) == Json::Number(
        Num::PosInt(
            (match text::parse_u32(t) {
                Some(p) => p,
                None => 0u32,
            }) as u64,
        ),
    )
    &&& json::json_index(user, "id"@) == Json::String(str_or(jget(root, "id"@), Seq::empty()))
    &&& json::json_index(user, "security"@) == Json::String(str_or(jget(root, "scy"@), "auto"@))
    &&& jget(root, "aid"@) matches Json::Number(Num::PosInt(u)) ==> (u <= 0x7fff_ffff ==> json::json_index(
        user,
        "alterId"@,
    ) == Json::Number(Num::PosInt(u)))
    &&& !(jget(root, "aid"@) is Number) && !(jget(root, "aid"@) is String) ==> json::json_index(user, "alterId"@)
        == Json::Number(Num::PosInt(0))
}

/// The server that a `vmess` object describes holds its own members, field
/// by field (see `vmess_server_fields_hold`).
proof fn lemma_vmess_server_fields(root: Json)
    ensures
        vmess_server_fields_hold(root, vmess_outbound_json(root)),
{
    reveal_strlit("protocol");
    reveal_strlit("sendThrough");
    reveal_strlit("settings");
    reveal_strlit("vmess");
    reveal_strlit("vnext");
    reveal_strlit("address");
    reveal_strlit("port");
    reveal_strlit("users");
    reveal_strlit("alterId");
    reveal_strlit("id");
    reveal_strlit("security");
    reveal_with_fuel(json::member_lookup, 8);
    let j = vmess_outbound_json(root);
    let o = j->Object_0;
    assert("protocol"@.len() == 8 && "sendThrough"@.len() == 11 && "settings"@.len() == 8);
    assert("protocol"@[0] == 'p' && "settings"@[0] == 's');
    assert(o[0].0 != "settings"@);
    assert(o[1].0 != "settings"@);
    let sett = json::json_index(j, "settings"@);
    assert(sett->Object_0[0].0 == "vmess"@);
    let vm = json::json_index(sett, "vmess"@);
    assert(vm->Object_0[0].0 == "vnext"@);
    let server = first_elem(value_at(j, "settings"@, "vmess"@, "vnext"@));
    let so = server->Object_0;
    assert("address"@.len() == 7 && "port"@.len() == 4 && "users"@.len() == 5);
    assert(so[0].0 == "address"@);
    assert(so[1].0 == "port"@);
    assert(so[2].0 == "users"@);
    let user = first_elem(json::json_index(server, "users"@));
    let uo = user->Object_0;
    assert("alterId"@.len() == 7 && "id"@.len() == 2 && "security"@.len() == 8);
    assert(uo[0].0 == "alterId"@);
    assert(uo[1].0 == "id"@);
    assert(uo[2].0 == "security"@);
}

/// A node decoded from a `vmess` link carries, in `raw`, an outbound whose
/// server holds the object's own members field by field (see
/// `vmess_server_fields_hold`).
pub proof fn law_vmess_server_fields(url: Seq<char>, root: Json)
    requires
        scheme_of(url) == "vmess"@,
        vmess_root(url) == Ok::<Json, ErrorModel>(root),
        decode_url(url) is Ok,
    ensures
        exists|j: Json|
            decode_url(url)->Ok_0.raw == json::spec_json_pretty(json::strip_defaults(j))
                && #[trigger] vmess_server_fields_hold(root, j),
{
    reveal_strlit("vmess");
    lemma_vmess_server_fields(root);
    let j = vmess_outbound_json(root);
    assert(decode_url(url)->Ok_0.raw == json::spec_json_pretty(json::strip_defaults(j)));
}

} // verus!
