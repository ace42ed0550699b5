//! Shadowsocks links: `ss://<Base64 of method:password>@<host>:<port>#<name>`.
//! The name may be left out.

use vstd::prelude::*;

use crate::codec;
use crate::codec::{base64_decode, url_decode, utf8_decode};
use crate::data;
use crate::data::{EntryType, NodeData, NodeModel};
use crate::json;
use crate::json::{check_is_default_and_delete, json_to_string_pretty, Json};
use crate::outbound;
use crate::outbound::{
    OutboundKind, OutboundObject, OutboundSettings, ShadowsocksOutbound, ShadowsocksServer,
};
use crate::serialize::{after_first_sep, after_first_sep_exec, node_result, DecodeError, ErrorModel, URLMetaObject};
use crate::text;
use crate::text::{chars_of, cut_exec, cut_or_all_exec, parse_u32_exec, string_of};

verus! {

/// The parts of a Shadowsocks link.
pub struct ShadowsocksLink {
    pub method: Seq<char>,
    pub password: Seq<char>,
    pub host: Seq<char>,
    pub port: u32,
    pub name: Seq<char>,
}

/// The parts of a Shadowsocks link, or the first error: no `'@'` after the
/// credentials, credentials that are no Base64 or no UTF-8, no `':'`
/// between method and password, no `':'` before the port, a port that is
/// no `u32`.
pub open spec fn ss_parse(url: Seq<char>) -> Result<ShadowsocksLink, ErrorModel> {
    match text::cut(after_first_sep(url), "@"@) {
        None => Err(ErrorModel::MalformedUrl),
        Some(cred) => match codec::spec_base64_decode(cred.0) {
            Err(m) => Err(ErrorModel::Base64(m)),
            Ok(bytes) => match codec::spec_utf8_decode(bytes) {
                Err(m) => Err(ErrorModel::Utf8(m)),
                Ok(userinfo) => match text::cut(userinfo, ":"@) {
                    None => Err(ErrorModel::NoMethod),
                    Some(mp) => {
                        let frag = text::cut_or_all(cred.1, "#"@);
                        match text::cut(frag.0, ":"@) {
                            None => Err(ErrorModel::MalformedUrl),
                            Some(hp) => match text::parse_u32(hp.1) {
                                None => Err(ErrorModel::PortIllegal),
                                Some(port) => Ok(
                                    ShadowsocksLink {
                                        method: mp.0,
                                        password: mp.1,
                                        host: hp.0,
                                        port,
                                        name: frag.1,
                                    },
                                ),
                            },
                        }
                    },
                },
            },
        },
    }
}

/// The outbound of a Shadowsocks link, as JSON: one server and no
/// transport settings.
pub open spec fn ss_json(l: ShadowsocksLink) -> Json {
    let server = Json::Object(
        seq![
            ("address"@, outbound::jstr(l.host)),
            ("method"@, outbound::jstr(l.method)),
            ("password"@, outbound::jstr(l.password)),
            ("port"@, outbound::juint(l.port)),
        ],
    );
    Json::Object(
        seq![
            ("protocol"@, outbound::jstr("shadowsocks"@)),
            ("sendThrough"@, outbound::jstr("0.0.0.0"@)),
            (
                "settings"@,
                Json::Object(
                    seq![("shadowsocks"@, Json::Object(seq![("servers"@, Json::Array(seq![server]))]))],
                ),
            ),
            ("streamSettings"@, Json::Null),
        ],
    )
}

/// The shape of the outbound of a Shadowsocks link: Shadowsocks settings
/// whose first server holds the link's host, port and password.
pub open spec fn ss_shape(o: OutboundObject, l: ShadowsocksLink) -> bool {
    &&& o.settings matches Some(st)
    &&& st.kind matches Some(OutboundKind::Shadowsocks(t))
    &&& t.servers@.len() > 0
    &&& t.servers@[0].address@ == l.host
    &&& t.servers@[0].port == l.port
    &&& t.servers@[0].password@ == l.password
}

/// What the name and outbound of a Shadowsocks link are.
pub open spec fn ss_meta_ok(m: URLMetaObject, l: ShadowsocksLink) -> bool {
    &&& m.name@ == l.name
    &&& outbound::outbound_json(m.outbound) == ss_json(l)
    &&& ss_shape(m.outbound, l)
}

/// What decoding a Shadowsocks link gives: the errors of its parts, then
/// an error when its name does not percent-decode, else the node.
pub open spec fn ss_decode(url: Seq<char>) -> Result<NodeModel, ErrorModel> {
    match ss_parse(url) {
        Err(e) => Err(e),
        Ok(l) => match codec::spec_url_decode(l.name) {
            Err(m) => Err(ErrorModel::UrlDecode(m)),
            Ok(name) => Ok(
                NodeModel {
                    name: name,
                    protocol: data::entry_type_number(EntryType::Shadowsocks),
                    address: l.host,
                    port: l.port as i32,
                    password: l.password,
                    raw: json::spec_json_pretty(json::strip_defaults(ss_json(l))),
                    url: url,
                    ..data::default_node_model()
                },
            ),
        },
    }
}

/// Reads the parts of a Shadowsocks link (see `ss_parse`) into its name,
/// still percent-encoded, and its outbound.
pub fn ss_url_decode(url: &str) -> (res: Result<URLMetaObject, DecodeError>)
    ensures
        match ss_parse(url@) {
            Err(e) => res matches Err(e2) && e2@ == e,
            Ok(l) => res matches Ok(m) && ss_meta_ok(m, l),
        },
{
    let cs = chars_of(url);
    let body = after_first_sep_exec(&cs);
    let (cred, rest) = match cut_exec(&body, "@") {
        Some(p) => p,
        None => return Err(DecodeError::MalformedUrl),
    };
    let cred_text = string_of(&cred);
    let bytes = match base64_decode(cred_text.as_str()) {
        Ok(b) => b,
        Err(m) => return Err(DecodeError::Base64(m)),
    };
    let userinfo = match utf8_decode(bytes) {
        Ok(t) => t,
        Err(m) => return Err(DecodeError::Utf8(m)),
    };
    let userinfo_chars = chars_of(userinfo.as_str());
    let (method, password) = match cut_exec(&userinfo_chars, ":") {
        Some(p) => p,
        None => return Err(DecodeError::NoMethod),
    };
    let (hostport, name) = cut_or_all_exec(&rest, "#");
    let (host, port_text) = match cut_exec(&hostport, ":") {
        Some(p) => p,
        None => return Err(DecodeError::MalformedUrl),
    };
    let port = match parse_u32_exec(&port_text) {
        Some(p) => p,
        None => return Err(DecodeError::PortIllegal),
    };
    let ghost l = ss_parse(url@)->Ok_0;
    let server = ShadowsocksServer {
        address: string_of(&host),
        port,
        method: string_of(&method),
        password: string_of(&password),
    };
    let mut servers: Vec<ShadowsocksServer> = Vec::new();
    servers.push(server);
    assert(servers@.map_values(|x: ShadowsocksServer| outbound::shadowsocks_server_json(x)) =~= seq![
        outbound::shadowsocks_server_json(servers@[0]),
    ]);
    let settings = OutboundSettings {
        kind: Some(OutboundKind::Shadowsocks(ShadowsocksOutbound { servers })),
    };
    let outbound = OutboundObject {
        protocol: String::from_str("shadowsocks"),
        send_through: String::from_str("0.0.0.0"),
        settings: Some(settings),
        stream_settings: None,
    };
    assert(outbound::shadowsocks_server_json(server)->Object_0 =~= ss_json(l)->Object_0[2].1->Object_0[0].1->Object_0[0].1->Array_0[0]->Object_0);
    assert(outbound::settings_json(settings)->Object_0 =~= ss_json(l)->Object_0[2].1->Object_0);
    assert(outbound::outbound_json(outbound)->Object_0 =~= ss_json(l)->Object_0);
    Ok(URLMetaObject { name: string_of(&name), outbound })
}

/// Decodes a Shadowsocks link into a node (see `ss_decode`): the name is
/// percent-decoded, the address, port and password come from the server,
/// `raw` is the outbound as indented JSON without its defaults, and `url`
/// is the link.
pub fn shadowsocks_outbound_from_url(url_str: String) -> (res: Result<NodeData, DecodeError>)
    ensures
        node_result(res) == ss_decode(url_str@),
{
    let meta = match ss_url_decode(url_str.as_str()) {
        Ok(m) => m,
        Err(e) => return Err(e),
    };
    let (address, port, password) = match &meta.outbound.settings {
        Some(st) => match &st.kind {
            Some(OutboundKind::Shadowsocks(t)) => {
                let server = &t.servers[0];
                (server.address.clone(), server.port, server.password.clone())
            },
            _ => {
                proof {
                    assert(false);
                }
                return Err(DecodeError::MalformedUrl);
            },
        },
        None => {
            proof {
                assert(false);
            }
            return Err(DecodeError::MalformedUrl);
        },
    };
    let mut raw = outbound::outbound_to_json(&meta.outbound);
    check_is_default_and_delete(&mut raw);
    let name = match url_decode(meta.name.as_str()) {
        Ok(n) => n,
        Err(m) => return Err(DecodeError::UrlDecode(m)),
    };
    let mut node = NodeData::default();
    node.protocol = EntryType::Shadowsocks.number();
    node.name = name;
    node.address = address;
    node.port = port as i32;
    node.password = password;
    node.raw = json_to_string_pretty(&raw);
    node.url = url_str;
    Ok(node)
}


/// A Shadowsocks link is read back into the parts it was written from:
/// after the scheme, credentials without `'@'`, then `'@'`, a host without
/// `':'` or `'#'`, then `':'`, a port text without `'#'`, then optionally
/// `'#'` and a name. Credentials that are no Base64 give the Base64 error;
/// credentials whose Base64 decodes to the UTF-8 text of a method without
/// `':'`, then `':'` and a password, give that method and password with
/// the host and name, and the port that the port text reads as (or the
/// port error).
pub proof fn law_ss_link_parts(
    url: Seq<char>,
    cred: Seq<char>,
    bytes: Seq<u8>,
    method: Seq<char>,
    password: Seq<char>,
    host: Seq<char>,
    port_text: Seq<char>,
    has_name: bool,
    name: Seq<char>,
)
    requires
        after_first_sep(url) == cred + "@"@ + host + ":"@ + port_text + text::optional_piece(has_name, '#', name),
        text::lacks(cred, '@'),
        text::lacks(host, ':'),
        text::lacks(host, '#'),
        text::lacks(port_text, '#'),
        !has_name ==> name.len() == 0,
    ensures
        codec::spec_base64_decode(cred) matches Err(m) ==> ss_parse(url) == Err::<ShadowsocksLink, ErrorModel>(
            ErrorModel::Base64(m),
        ),
        codec::spec_base64_decode(cred) == Ok::<Seq<u8>, Seq<char>>(bytes) && codec::spec_utf8_decode(bytes)
            == Ok::<Seq<char>, Seq<char>>(method + ":"@ + password) && text::lacks(method, ':') ==> {
            &&& text::parse_u32(port_text) is None ==> ss_parse(url) == Err::<ShadowsocksLink, ErrorModel>(
                ErrorModel::PortIllegal,
            )
            &&& text::parse_u32(port_text) matches Some(port) ==> ss_parse(url) == Ok::<ShadowsocksLink, ErrorModel>(
                ShadowsocksLink { method, password, host, port, name },
            )
        },
{
    reveal_strlit("@");
    reveal_strlit(":");
    reveal_strlit("#");
    assert("@"@ =~= seq!['@']);
    assert(":"@ =~= seq![':']);
    assert("#"@ =~= seq!['#']);
    let n = text::optional_piece(has_name, '#', name);
    let f0 = host + seq![':'] + port_text;
    let r = f0 + n;
    assert(after_first_sep(url) =~= cred + seq!['@'] + r);
    text::law_cut_at_first_char(cred, '@', r);
    text::law_cut_at_first_char(host, ':', port_text);
    text::law_cut_at_first_char(method, ':', password);
    assert(text::lacks(seq![':'], '#'));
    text::lemma_lacks_concat(host, seq![':'], '#');
    text::lemma_lacks_concat(host + seq![':'], port_text, '#');
    text::law_cut_at_first_char(f0, '#', name);
    if has_name {
        assert(r =~= f0 + seq!['#'] + name);
    } else {
        assert(r =~= f0);
    }
    assert(text::cut_or_all(r, "#"@) == (f0, name));
    assert(text::cut(f0, ":"@) == Some((host, port_text)));
}

} // verus!
