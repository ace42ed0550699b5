//! The outbound configuration that a share link describes, and its JSON
//! form (members named in camelCase, in key order, absent options as
//! `null`).

use vstd::prelude::*;

use crate::json::{json_views, member_views, Json, JsonNumber, JsonValue, Num};

verus! {

/// One user of a VMess server.
pub struct VmessUser {
    pub id: String,
    pub alter_id: i32,
    pub security: String,
}

/// One VMess server.
pub struct VmessServer {
    pub address: String,
    pub port: u32,
    pub users: Vec<VmessUser>,
}

/// The VMess outbound settings.
pub struct VmessOutbound {
    pub vnext: Vec<VmessServer>,
}

/// One Trojan server.
pub struct TrojanServer {
    pub address: String,
    pub port: u32,
    pub password: String,
}

/// The Trojan outbound settings.
pub struct TrojanOutbound {
    pub servers: Vec<TrojanServer>,
}

/// One Shadowsocks server.
pub struct ShadowsocksServer {
    pub address: String,
    pub port: u32,
    pub method: String,
    pub password: String,
}

/// The Shadowsocks outbound settings.
pub struct ShadowsocksOutbound {
    pub servers: Vec<ShadowsocksServer>,
}

/// The protocol-specific settings of an outbound.
pub enum OutboundKind {
    Vmess(VmessOutbound),
    Trojan(TrojanOutbound),
    Shadowsocks(ShadowsocksOutbound),
}

/// The settings of an outbound: at most one protocol's settings.
pub struct OutboundSettings {
    pub kind: Option<OutboundKind>,
}

/// TLS settings.
pub struct TlsObject {
    pub server_name: String,
    pub allow_insecure: bool,
    pub alpn: Vec<String>,
}

/// WebSocket transport settings; `headers` maps header names to values.
pub struct WebSocketObject {
    pub path: String,
    pub headers: Vec<(String, String)>,
}

/// HTTP/2 transport settings.
pub struct HttpObject {
    pub host: Vec<String>,
    pub path: String,
}

/// gRPC transport settings.
pub struct GrpcObject {
    pub service_name: String,
}

/// The header of QUIC transport settings.
pub struct QuicHeader {
    pub header_type: String,
}

/// QUIC transport settings.
pub struct QuicObject {
    pub security: String,
    pub key: String,
    pub header: Option<QuicHeader>,
}

/// Transport settings of an outbound.
pub struct StreamSettingsObject {
    pub network: String,
    pub security: String,
    pub tls_settings: Option<TlsObject>,
    pub ws_settings: Option<WebSocketObject>,
    pub http_settings: Option<HttpObject>,
    pub grpc_settings: Option<GrpcObject>,
    pub quic_settings: Option<QuicObject>,
}

/// An outbound configuration.
pub struct OutboundObject {
    pub protocol: String,
    pub send_through: String,
    pub settings: Option<OutboundSettings>,
    pub stream_settings: Option<StreamSettingsObject>,
}

/// A JSON string.
pub open spec fn jstr(s: Seq<char>) -> Json {
    Json::String(s)
}

/// A JSON number of an unsigned value.
pub open spec fn juint(n: u32) -> Json {
    Json::Number(Num::PosInt(n as u64))
}

/// A JSON number of a signed value.
pub open spec fn jint(n: i32) -> Json {
    if n < 0 {
        Json::Number(Num::NegInt(n as i64))
    } else {
        Json::Number(Num::PosInt(n as u64))
    }
}

/// A JSON array of strings.
pub open spec fn jstrs(s: Seq<String>) -> Json {
    Json::Array(s.map_values(|x: String| jstr(x@)))
}

/// The JSON form of a VMess user.
pub open spec fn vmess_user_json(u: VmessUser) -> Json {
    Json::Object(
        seq![
            ("alterId"@, jint(u.alter_id)),
            ("id"@, jstr(u.id@)),
            ("security"@, jstr(u.security@)),
        ],
    )
}

/// The JSON form of a VMess server.
pub open spec fn vmess_server_json(s: VmessServer) -> Json {
    Json::Object(
        seq![
            ("address"@, jstr(s.address@)),
            ("port"@, juint(s.port)),
            ("users"@, Json::Array(s.users@.map_values(|u: VmessUser| vmess_user_json(u)))),
        ],
    )
}

/// The JSON form of a Trojan server.
pub open spec fn trojan_server_json(s: TrojanServer) -> Json {
    Json::Object(
        seq![
            ("address"@, jstr(s.address@)),
            ("password"@, jstr(s.password@)),
            ("port"@, juint(s.port)),
        ],
    )
}

/// The JSON form of a Shadowsocks server.
pub open spec fn shadowsocks_server_json(s: ShadowsocksServer) -> Json {
    Json::Object(
        seq![
            ("address"@, jstr(s.address@)),
            ("method"@, jstr(s.method@)),
            ("password"@, jstr(s.password@)),
            ("port"@, juint(s.port)),
        ],
    )
}

/// The JSON form of the settings: the protocol's settings under the
/// protocol's name, or no member at all.
pub open spec fn settings_json(s: OutboundSettings) -> Json {
    match s.kind {
        Some(OutboundKind::Vmess(v)) => Json::Object(
            seq![
                (
                    "vmess"@,
                    Json::Object(
                        seq![
                            (
                                "vnext"@,
                                Json::Array(
                                    v.vnext@.map_values(|x: VmessServer| vmess_server_json(x)),
                                ),
                            ),
                        ],
                    ),
                ),
            ],
        ),
        Some(OutboundKind::Trojan(t)) => Json::Object(
            seq![
                (
                    "trojan"@,
                    Json::Object(
                        seq![
                            (
                                "servers"@,
                                Json::Array(
                                    t.servers@.map_values(|x: TrojanServer| trojan_server_json(x)),
                                ),
                            ),
                        ],
                    ),
                ),
            ],
        ),
        Some(OutboundKind::Shadowsocks(t)) => Json::Object(
            seq![
                (
                    "shadowsocks"@,
                    Json::Object(
                        seq![
                            (
                                "servers"@,
                                Json::Array(
                                    t.servers@.map_values(
                                        |x: ShadowsocksServer| shadowsocks_server_json(x),
                                    ),
                                ),
                            ),
                        ],
                    ),
                ),
            ],
        ),
        None => Json::Object(Seq::empty()),
    }
}

/// The JSON form of TLS settings.
pub open spec fn tls_json(t: TlsObject) -> Json {
    Json::Object(
        seq![
            ("allowInsecure"@, Json::Bool(t.allow_insecure)),
            ("alpn"@, jstrs(t.alpn@)),
            ("serverName"@, jstr(t.server_name@)),
        ],
    )
}

/// The JSON form of WebSocket settings.
pub open spec fn ws_json(w: WebSocketObject) -> Json {
    Json::Object(
        seq![
            (
                "headers"@,
                Json::Object(w.headers@.map_values(|h: (String, String)| (h.0@, jstr(h.1@)))),
            ),
            ("path"@, jstr(w.path@)),
        ],
    )
}

/// The JSON form of HTTP/2 settings.
pub open spec fn http_json(h: HttpObject) -> Json {
    Json::Object(seq![("host"@, jstrs(h.host@)), ("path"@, jstr(h.path@))])
}

/// The JSON form of gRPC settings.
pub open spec fn grpc_json(g: GrpcObject) -> Json {
    Json::Object(seq![("serviceName"@, jstr(g.service_name@))])
}

/// The JSON form of an optional QUIC header.
pub open spec fn quic_header_json(h: Option<QuicHeader>) -> Json {
    match h {
        Some(h) => Json::Object(seq![("type"@, jstr(h.header_type@))]),
        None => Json::Null,
    }
}

/// The JSON form of QUIC settings.
pub open spec fn quic_json(q: QuicObject) -> Json {
    Json::Object(
        seq![
            ("header"@, quic_header_json(q.header)),
            ("key"@, jstr(q.key@)),
            ("security"@, jstr(q.security@)),
        ],
    )
}

/// The JSON form of optional gRPC settings.
pub open spec fn opt_grpc_json(g: Option<GrpcObject>) -> Json {
    match g {
        Some(g) => grpc_json(g),
        None => Json::Null,
    }
}

/// The JSON form of optional HTTP/2 settings.
pub open spec fn opt_http_json(h: Option<HttpObject>) -> Json {
    match h {
        Some(h) => http_json(h),
        None => Json::Null,
    }
}

/// The JSON form of optional QUIC settings.
pub open spec fn opt_quic_json(q: Option<QuicObject>) -> Json {
    match q {
        Some(q) => quic_json(q),
        None => Json::Null,
    }
}

/// The JSON form of optional TLS settings.
pub open spec fn opt_tls_json(t: Option<TlsObject>) -> Json {
    match t {
        Some(t) => tls_json(t),
        None => Json::Null,
    }
}

/// The JSON form of optional WebSocket settings.
pub open spec fn opt_ws_json(w: Option<WebSocketObject>) -> Json {
    match w {
        Some(w) => ws_json(w),
        None => Json::Null,
    }
}

/// The JSON form of optional settings.
pub open spec fn opt_settings_json(st: Option<OutboundSettings>) -> Json {
    match st {
        Some(st) => settings_json(st),
        None => Json::Null,
    }
}

/// The JSON form of optional transport settings.
pub open spec fn opt_stream_json(st: Option<StreamSettingsObject>) -> Json {
    match st {
        Some(st) => stream_json(st),
        None => Json::Null,
    }
}

/// The JSON form of transport settings.
pub open spec fn stream_json(s: StreamSettingsObject) -> Json {
    Json::Object(
        seq![
            (
                "grpcSettings"@,
                opt_grpc_json(s.grpc_settings),
            ),
            (
                "httpSettings"@,
                opt_http_json(s.http_settings),
            ),
            ("network"@, jstr(s.network@)),
            (
                "quicSettings"@,
                opt_quic_json(s.quic_settings),
            ),
            ("security"@, jstr(s.security@)),
            (
                "tlsSettings"@,
                opt_tls_json(s.tls_settings),
            ),
            (
                "wsSettings"@,
                opt_ws_json(s.ws_settings),
            ),
        ],
    )
}

/// The JSON form of an outbound.
pub open spec fn outbound_json(o: OutboundObject) -> Json {
    Json::Object(
        seq![
            ("protocol"@, jstr(o.protocol@)),
            ("sendThrough"@, jstr(o.send_through@)),
            (
                "settings"@,
                opt_settings_json(o.settings),
            ),
            (
                "streamSettings"@,
                opt_stream_json(o.stream_settings),
            ),
        ],
    )
}

/// Appends the member `(k, x)`.
pub fn push_member(v: &mut Vec<(String, JsonValue)>, k: &str, x: JsonValue)
    ensures
        member_views(final(v)@) == member_views(old(v)@).push((k@, x@)),
{
    let ghost prev = v@;
    v.push((String::from_str(k), x));
    assert(v@.drop_last() =~= prev);
}

/// Appends the element `x`.
pub fn push_elem(v: &mut Vec<JsonValue>, x: JsonValue)
    ensures
        json_views(final(v)@) == json_views(old(v)@).push(x@),
{
    let ghost prev = v@;
    v.push(x);
    assert(v@.drop_last() =~= prev);
}

/// A JSON string of a copy of `s`.
pub fn str_json(s: &String) -> (res: JsonValue)
    ensures
        res@ == jstr(s@),
{
    JsonValue::String(s.clone())
}

/// A JSON number of an unsigned value.
pub fn uint_json(n: u32) -> (res: JsonValue)
    ensures
        res@ == juint(n),
{
    JsonValue::Number(JsonNumber::PosInt(n as u64))
}

/// A JSON number of a signed value.
pub fn int_json(n: i32) -> (res: JsonValue)
    ensures
        res@ == jint(n),
{
    if n < 0 {
        JsonValue::Number(JsonNumber::NegInt(n as i64))
    } else {
        JsonValue::Number(JsonNumber::PosInt(n as u64))
    }
}

/// A JSON array of copies of the strings.
pub fn strings_json(v: &Vec<String>) -> (res: JsonValue)
    ensures
        res@ == jstrs(v@),
{
    let mut out: Vec<JsonValue> = Vec::new();
    let mut i: usize = 0;
    while i < v.len()
        invariant
            i <= v@.len(),
            json_views(out@) == v@.subrange(0, i as int).map_values(|x: String| jstr(x@)),
        decreases v.len() - i,
    {
        push_elem(&mut out, str_json(&v[i]));
        assert(v@.subrange(0, i + 1).map_values(|x: String| jstr(x@)) =~= v@.subrange(
            0,
            i as int,
        ).map_values(|x: String| jstr(x@)).push(jstr(v@[i as int]@)));
        i = i + 1;
    }
    assert(v@.subrange(0, v@.len() as int) =~= v@);
    JsonValue::Array(out)
}

/// The JSON form of a VMess user.
pub fn vmess_user_to_json(u: &VmessUser) -> (res: JsonValue)
    ensures
        res@ == vmess_user_json(*u),
{
    let mut m: Vec<(String, JsonValue)> = Vec::new();
    push_member(&mut m, "alterId", int_json(u.alter_id));
    push_member(&mut m, "id", str_json(&u.id));
    push_member(&mut m, "security", str_json(&u.security));
    assert(member_views(m@) =~= seq![
        ("alterId"@, jint(u.alter_id)),
        ("id"@, jstr(u.id@)),
        ("security"@, jstr(u.security@)),
    ]);
    JsonValue::Object(m)
}

/// The JSON form of a VMess server.
pub fn vmess_server_to_json(sv: &VmessServer) -> (res: JsonValue)
    ensures
        res@ == vmess_server_json(*sv),
{
    let mut users: Vec<JsonValue> = Vec::new();
    let mut i: usize = 0;
    while i < sv.users.len()
        invariant
            i <= sv.users@.len(),
            json_views(users@) == sv.users@.subrange(0, i as int).map_values(
                |u: VmessUser| vmess_user_json(u),
            ),
        decreases sv.users.len() - i,
    {
        push_elem(&mut users, vmess_user_to_json(&sv.users[i]));
        assert(sv.users@.subrange(0, i + 1).map_values(|u: VmessUser| vmess_user_json(u))
            =~= sv.users@.subrange(0, i as int).map_values(|u: VmessUser| vmess_user_json(u)).push(
            vmess_user_json(sv.users@[i as int]),
        ));
        i = i + 1;
    }
    assert(sv.users@.subrange(0, sv.users@.len() as int) =~= sv.users@);
    let mut m: Vec<(String, JsonValue)> = Vec::new();
    push_member(&mut m, "address", str_json(&sv.address));
    push_member(&mut m, "port", uint_json(sv.port));
    push_member(&mut m, "users", JsonValue::Array(users));
    assert(member_views(m@) =~= seq![
        ("address"@, jstr(sv.address@)),
        ("port"@, juint(sv.port)),
        ("users"@, Json::Array(sv.users@.map_values(|u: VmessUser| vmess_user_json(u)))),
    ]);
    JsonValue::Object(m)
}

/// The JSON form of a Trojan server.
pub fn trojan_server_to_json(sv: &TrojanServer) -> (res: JsonValue)
    ensures
        res@ == trojan_server_json(*sv),
{
    let mut m: Vec<(String, JsonValue)> = Vec::new();
    push_member(&mut m, "address", str_json(&sv.address));
    push_member(&mut m, "password", str_json(&sv.password));
    push_member(&mut m, "port", uint_json(sv.port));
    assert(member_views(m@) =~= seq![
        ("address"@, jstr(sv.address@)),
        ("password"@, jstr(sv.password@)),
        ("port"@, juint(sv.port)),
    ]);
    JsonValue::Object(m)
}

/// The JSON form of a Shadowsocks server.
pub fn shadowsocks_server_to_json(sv: &ShadowsocksServer) -> (res: JsonValue)
    ensures
        res@ == shadowsocks_server_json(*sv),
{
    let mut m: Vec<(String, JsonValue)> = Vec::new();
    push_member(&mut m, "address", str_json(&sv.address));
    push_member(&mut m, "method", str_json(&sv.method));
    push_member(&mut m, "password", str_json(&sv.password));
    push_member(&mut m, "port", uint_json(sv.port));
    assert(member_views(m@) =~= seq![
        ("address"@, jstr(sv.address@)),
        ("method"@, jstr(sv.method@)),
        ("password"@, jstr(sv.password@)),
        ("port"@, juint(sv.port)),
    ]);
    JsonValue::Object(m)
}

/// An object with the one member `(k, x)`.
pub fn single_member(k: &str, x: JsonValue) -> (res: JsonValue)
    ensures
        res@ == Json::Object(seq![(k@, x@)]),
{
    let mut m: Vec<(String, JsonValue)> = Vec::new();
    push_member(&mut m, k, x);
    assert(member_views(m@) =~= seq![(k@, x@)]);
    JsonValue::Object(m)
}

/// The JSON form of the settings.
pub fn settings_to_json(st: &OutboundSettings) -> (res: JsonValue)
    ensures
        res@ == settings_json(*st),
{
    match &st.kind {
        Some(OutboundKind::Vmess(v)) => {
            let mut out: Vec<JsonValue> = Vec::new();
            let mut i: usize = 0;
            while i < v.vnext.len()
                invariant
                    i <= v.vnext@.len(),
                    json_views(out@) == v.vnext@.subrange(0, i as int).map_values(
                        |x: VmessServer| vmess_server_json(x),
                    ),
                decreases v.vnext.len() - i,
            {
                push_elem(&mut out, vmess_server_to_json(&v.vnext[i]));
                assert(v.vnext@.subrange(0, i + 1).map_values(|x: VmessServer| vmess_server_json(x))
                    =~= v.vnext@.subrange(0, i as int).map_values(
                    |x: VmessServer| vmess_server_json(x),
                ).push(vmess_server_json(v.vnext@[i as int])));
                i = i + 1;
            }
            assert(v.vnext@.subrange(0, v.vnext@.len() as int) =~= v.vnext@);
            single_member("vmess", single_member("vnext", JsonValue::Array(out)))
        },
        Some(OutboundKind::Trojan(t)) => {
            let mut out: Vec<JsonValue> = Vec::new();
            let mut i: usize = 0;
            while i < t.servers.len()
                invariant
                    i <= t.servers@.len(),
                    json_views(out@) == t.servers@.subrange(0, i as int).map_values(
                        |x: TrojanServer| trojan_server_json(x),
                    ),
                decreases t.servers.len() - i,
            {
                push_elem(&mut out, trojan_server_to_json(&t.servers[i]));
                assert(t.servers@.subrange(0, i + 1).map_values(
                    |x: TrojanServer| trojan_server_json(x),
                ) =~= t.servers@.subrange(0, i as int).map_values(
                    |x: TrojanServer| trojan_server_json(x),
                ).push(trojan_server_json(t.servers@[i as int])));
                i = i + 1;
            }
            assert(t.servers@.subrange(0, t.servers@.len() as int) =~= t.servers@);
            single_member("trojan", single_member("servers", JsonValue::Array(out)))
        },
        Some(OutboundKind::Shadowsocks(t)) => {
            let mut out: Vec<JsonValue> = Vec::new();
            let mut i: usize = 0;
            while i < t.servers.len()
                invariant
                    i <= t.servers@.len(),
                    json_views(out@) == t.servers@.subrange(0, i as int).map_values(
                        |x: ShadowsocksServer| shadowsocks_server_json(x),
                    ),
                decreases t.servers.len() - i,
            {
                push_elem(&mut out, shadowsocks_server_to_json(&t.servers[i]));
                assert(t.servers@.subrange(0, i + 1).map_values(
                    |x: ShadowsocksServer| shadowsocks_server_json(x),
                ) =~= t.servers@.subrange(0, i as int).map_values(
                    |x: ShadowsocksServer| shadowsocks_server_json(x),
                ).push(shadowsocks_server_json(t.servers@[i as int])));
                i = i + 1;
            }
            assert(t.servers@.subrange(0, t.servers@.len() as int) =~= t.servers@);
            single_member("shadowsocks", single_member("servers", JsonValue::Array(out)))
        },
        None => {
            let m: Vec<(String, JsonValue)> = Vec::new();
            assert(member_views(m@) =~= Seq::<(Seq<char>, Json)>::empty());
            JsonValue::Object(m)
        },
    }
}

/// The JSON form of TLS settings.
pub fn tls_to_json(t: &TlsObject) -> (res: JsonValue)
    ensures
        res@ == tls_json(*t),
{
    let mut m: Vec<(String, JsonValue)> = Vec::new();
    push_member(&mut m, "allowInsecure", JsonValue::Bool(t.allow_insecure));
    push_member(&mut m, "alpn", strings_json(&t.alpn));
    push_member(&mut m, "serverName", str_json(&t.server_name));
    assert(member_views(m@) =~= seq![
        ("allowInsecure"@, Json::Bool(t.allow_insecure)),
        ("alpn"@, jstrs(t.alpn@)),
        ("serverName"@, jstr(t.server_name@)),
    ]);
    JsonValue::Object(m)
}

/// The JSON form of WebSocket settings.
pub fn ws_to_json(w: &WebSocketObject) -> (res: JsonValue)
    ensures
        res@ == ws_json(*w),
{
    let mut hs: Vec<(String, JsonValue)> = Vec::new();
    let mut i: usize = 0;
    while i < w.headers.len()
        invariant
            i <= w.headers@.len(),
            member_views(hs@) == w.headers@.subrange(0, i as int).map_values(
                |h: (String, String)| (h.0@, jstr(h.1@)),
            ),
        decreases w.headers.len() - i,
    {
        let ghost prev = hs@;
        hs.push((w.headers[i].0.clone(), str_json(&w.headers[i].1)));
        assert(hs@.drop_last() =~= prev);
        assert(w.headers@.subrange(0, i + 1).map_values(|h: (String, String)| (h.0@, jstr(h.1@)))
            =~= w.headers@.subrange(0, i as int).map_values(
            |h: (String, String)| (h.0@, jstr(h.1@)),
        ).push((w.headers@[i as int].0@, jstr(w.headers@[i as int].1@))));
        i = i + 1;
    }
    assert(w.headers@.subrange(0, w.headers@.len() as int) =~= w.headers@);
    let mut m: Vec<(String, JsonValue)> = Vec::new();
    push_member(&mut m, "headers", JsonValue::Object(hs));
    push_member(&mut m, "path", str_json(&w.path));
    assert(member_views(m@) =~= seq![
        ("headers"@, Json::Object(w.headers@.map_values(|h: (String, String)| (h.0@, jstr(h.1@))))),
        ("path"@, jstr(w.path@)),
    ]);
    JsonValue::Object(m)
}

/// The JSON form of HTTP/2 settings.
pub fn http_to_json(h: &HttpObject) -> (res: JsonValue)
    ensures
        res@ == http_json(*h),
{
    let mut m: Vec<(String, JsonValue)> = Vec::new();
    push_member(&mut m, "host", strings_json(&h.host));
    push_member(&mut m, "path", str_json(&h.path));
    assert(member_views(m@) =~= seq![("host"@, jstrs(h.host@)), ("path"@, jstr(h.path@))]);
    JsonValue::Object(m)
}

/// The JSON form of gRPC settings.
pub fn grpc_to_json(g: &GrpcObject) -> (res: JsonValue)
    ensures
        res@ == grpc_json(*g),
{
    single_member("serviceName", str_json(&g.service_name))
}

/// The JSON form of QUIC settings.
pub fn quic_to_json(q: &QuicObject) -> (res: JsonValue)
    ensures
        res@ == quic_json(*q),
{
    let header = match &q.header {
        Some(h) => single_member("type", str_json(&h.header_type)),
        None => JsonValue::Null,
    };
    assert(header@ == quic_header_json(q.header));
    let mut m: Vec<(String, JsonValue)> = Vec::new();
    push_member(&mut m, "header", header);
    push_member(&mut m, "key", str_json(&q.key));
    push_member(&mut m, "security", str_json(&q.security));
    assert(member_views(m@) =~= seq![
        ("header"@, header@),
        ("key"@, jstr(q.key@)),
        ("security"@, jstr(q.security@)),
    ]);
    JsonValue::Object(m)
}

/// The JSON form of transport settings.
pub fn stream_to_json(st: &StreamSettingsObject) -> (res: JsonValue)
    ensures
        res@ == stream_json(*st),
{
    let grpc = match &st.grpc_settings {
        Some(g) => grpc_to_json(g),
        None => JsonValue::Null,
    };
    let http = match &st.http_settings {
        Some(h) => http_to_json(h),
        None => JsonValue::Null,
    };
    let quic = match &st.quic_settings {
        Some(q) => quic_to_json(q),
        None => JsonValue::Null,
    };
    let tls = match &st.tls_settings {
        Some(t) => tls_to_json(t),
        None => JsonValue::Null,
    };
    let ws = match &st.ws_settings {
        Some(w) => ws_to_json(w),
        None => JsonValue::Null,
    };
    assert(grpc@ == opt_grpc_json(st.grpc_settings));
    assert(http@ == opt_http_json(st.http_settings));
    assert(quic@ == opt_quic_json(st.quic_settings));
    assert(tls@ == opt_tls_json(st.tls_settings));
    assert(ws@ == opt_ws_json(st.ws_settings));
    let mut m: Vec<(String, JsonValue)> = Vec::new();
    push_member(&mut m, "grpcSettings", grpc);
    push_member(&mut m, "httpSettings", http);
    push_member(&mut m, "network", str_json(&st.network));
    push_member(&mut m, "quicSettings", quic);
    push_member(&mut m, "security", str_json(&st.security));
    push_member(&mut m, "tlsSettings", tls);
    push_member(&mut m, "wsSettings", ws);
    assert(member_views(m@) =~= seq![
        ("grpcSettings"@, grpc@),
        ("httpSettings"@, http@),
        ("network"@, jstr(st.network@)),
        ("quicSettings"@, quic@),
        ("security"@, jstr(st.security@)),
        ("tlsSettings"@, tls@),
        ("wsSettings"@, ws@),
    ]);
    JsonValue::Object(m)
}

/// The JSON form of an outbound.
pub fn outbound_to_json(o: &OutboundObject) -> (res: JsonValue)
    ensures
        res@ == outbound_json(*o),
{
    let settings = match &o.settings {
        Some(st) => settings_to_json(st),
        None => JsonValue::Null,
    };
    let stream = match &o.stream_settings {
        Some(st) => stream_to_json(st),
        None => JsonValue::Null,
    };
    assert(settings@ == opt_settings_json(o.settings));
    assert(stream@ == opt_stream_json(o.stream_settings));
    let mut m: Vec<(String, JsonValue)> = Vec::new();
    push_member(&mut m, "protocol", str_json(&o.protocol));
    push_member(&mut m, "sendThrough", str_json(&o.send_through));
    push_member(&mut m, "settings", settings);
    push_member(&mut m, "streamSettings", stream);
    assert(member_views(m@) =~= seq![
        ("protocol"@, jstr(o.protocol@)),
        ("sendThrough"@, jstr(o.send_through@)),
        ("settings"@, settings@),
        ("streamSettings"@, stream@),
    ]);
    JsonValue::Object(m)
}

} // verus!
