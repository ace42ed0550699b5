//! Trojan links: `trojan://<password>@<host>:<port>?<query>#<name>`.
//!
//! The query ends at an encoded line feed `%0A` if it holds one; its
//! pieces between `&` that are not empty are `key=value` pairs, and for a
//! key given more than once the last value counts. `sni` names the server,
//! `allowinsecure=true` allows an insecure certificate, and `alpn` lists
//! protocols separated by `,`. The query and the name may be left out.

use vstd::prelude::*;

use crate::codec;
use crate::codec::url_decode;
use crate::data;
use crate::data::{EntryType, NodeData, NodeModel};
use crate::json;
use crate::json::{check_is_default_and_delete, json_to_string_pretty, Json};
use crate::outbound;
use crate::outbound::{
    OutboundKind, OutboundObject, OutboundSettings, StreamSettingsObject, TlsObject, TrojanOutbound,
    TrojanServer,
};
use crate::serialize::{after_first_sep, after_first_sep_exec, jtexts, node_result, nonempty, DecodeError, ErrorModel, URLMetaObject};
use crate::text;
use crate::text::{chars_eq_str, chars_of, cut_exec, cut_or_all_exec, parse_u32_exec, split_on_exec, string_of};

verus! {

/// The parts of a Trojan link.
pub struct TrojanLink {
    pub password: Seq<char>,
    pub host: Seq<char>,
    pub port: u32,
    pub pairs: Seq<(Seq<char>, Seq<char>)>,
    pub name: Seq<char>,
}

/// The `key=value` pairs of the pieces of a query: empty pieces are
/// skipped, and any other piece must split at `'='` into exactly two parts.
pub open spec fn query_pairs(pieces: Seq<Seq<char>>) -> Option<Seq<(Seq<char>, Seq<char>)>>
    decreases pieces.len(),
{
    if pieces.len() == 0 {
        Some(Seq::<(Seq<char>, Seq<char>)>::empty())
    } else {
        match query_pairs(pieces.drop_last()) {
            None => None,
            Some(ps) => if pieces.last().len() == 0 {
                Some(ps)
            } else {
                let kv = text::split_on(pieces.last(), '=');
                if kv.len() == 2 {
                    Some(ps.push((kv[0], kv[1])))
                } else {
                    None
                }
            },
        }
    }
}

/// The last value given for `key`.
pub open spec fn param(pairs: Seq<(Seq<char>, Seq<char>)>, key: Seq<char>) -> Option<Seq<char>>
    decreases pairs.len(),
{
    if pairs.len() == 0 {
        None
    } else if pairs.last().0 == key {
        Some(pairs.last().1)
    } else {
        param(pairs.drop_last(), key)
    }
}

/// The last value given for `key`, or the empty text.
pub open spec fn param_or_empty(pairs: Seq<(Seq<char>, Seq<char>)>, key: Seq<char>) -> Seq<char> {
    match param(pairs, key) {
        Some(v) => v,
        None => Seq::empty(),
    }
}

/// The parts of a Trojan link, or the first error: no `'@'` after the
/// password, no `':'` before the port, a port that is no `u32`, a query
/// piece that is no pair.
pub open spec fn trojan_parse(url: Seq<char>) -> Result<TrojanLink, ErrorModel> {
    match text::cut(after_first_sep(url), "@"@) {
        None => Err(ErrorModel::MalformedUrl),
        Some(cred) => {
            let frag = text::cut_or_all(cred.1, "#"@);
            let main = text::cut_or_all(frag.0, "?"@);
            match text::cut(main.0, ":"@) {
                None => Err(ErrorModel::MalformedUrl),
                Some(hp) => match text::parse_u32(hp.1) {
                    None => Err(ErrorModel::PortIllegal),
                    Some(port) => match query_pairs(
                        text::split_on(text::cut_or_all(main.1, "%0A"@).0, '&'),
                    ) {
                        None => Err(ErrorModel::WrongQueryArguments),
                        Some(pairs) => Ok(
                            TrojanLink { password: cred.0, host: hp.0, port, pairs, name: frag.1 },
                        ),
                    },
                },
            }
        },
    }
}

/// The TLS settings of a Trojan link, as JSON.
pub open spec fn trojan_tls_json(pairs: Seq<(Seq<char>, Seq<char>)>) -> Json {
    Json::Object(
        seq![
            ("allowInsecure"@, Json::Bool(param(pairs, "allowinsecure"@) == Some("true"@))),
            ("alpn"@, jtexts(nonempty(text::split_on(param_or_empty(pairs, "alpn"@), ',')))),
            ("serverName"@, outbound::jstr(param_or_empty(pairs, "sni"@))),
        ],
    )
}

/// The outbound of a Trojan link, as JSON: one server, and transport
/// settings with TLS settings alone.
pub open spec fn trojan_json(l: TrojanLink) -> Json {
    let server = Json::Object(
        seq![
            ("address"@, outbound::jstr(l.host)),
            ("password"@, outbound::jstr(l.password)),
            ("port"@, outbound::juint(l.port)),
        ],
    );
    Json::Object(
        seq![
            ("protocol"@, outbound::jstr("trojan"@)),
            ("sendThrough"@, outbound::jstr("0.0.0.0"@)),
            (
                "settings"@,
                Json::Object(
                    seq![("trojan"@, Json::Object(seq![("servers"@, Json::Array(seq![server]))]))],
                ),
            ),
            (
                "streamSettings"@,
                Json::Object(
                    seq![
                        ("grpcSettings"@, Json::Null),
                        ("httpSettings"@, Json::Null),
                        ("network"@, outbound::jstr(Seq::empty())),
                        ("quicSettings"@, Json::Null),
                        ("security"@, outbound::jstr(Seq::empty())),
                        ("tlsSettings"@, trojan_tls_json(l.pairs)),
                        ("wsSettings"@, Json::Null),
                    ],
                ),
            ),
        ],
    )
}

/// The shape of the outbound of a Trojan link: Trojan settings whose
/// first server holds the link's host, port and password.
pub open spec fn trojan_shape(o: OutboundObject, l: TrojanLink) -> bool {
    &&& o.settings matches Some(st)
    &&& st.kind matches Some(OutboundKind::Trojan(t))
    &&& t.servers@.len() > 0
    &&& t.servers@[0].address@ == l.host
    &&& t.servers@[0].port == l.port
    &&& t.servers@[0].password@ == l.password
}

/// What the name and outbound of a Trojan link are.
pub open spec fn trojan_meta_ok(m: URLMetaObject, l: TrojanLink) -> bool {
    &&& m.name@ == l.name
    &&& outbound::outbound_json(m.outbound) == trojan_json(l)
    &&& trojan_shape(m.outbound, l)
}

/// What decoding a Trojan link gives: the errors of its parts, then an
/// error when its name does not percent-decode, else the node.
pub open spec fn trojan_decode(url: Seq<char>) -> Result<NodeModel, ErrorModel> {
    match trojan_parse(url) {
        Err(e) => Err(e),
        Ok(l) => match codec::spec_url_decode(l.name) {
            Err(m) => Err(ErrorModel::UrlDecode(m)),
            Ok(name) => Ok(
                NodeModel {
                    name: name,
                    protocol: data::entry_type_number(EntryType::Trojan),
                    address: l.host,
                    port: l.port as i32,
                    password: l.password,
                    raw: json::spec_json_pretty(json::strip_defaults(trojan_json(l))),
                    url: url,
                    ..data::default_node_model()
                },
            ),
        },
    }
}

/// The models of key-value pairs.
pub open spec fn pair_views(s: Seq<(Vec<char>, Vec<char>)>) -> Seq<(Seq<char>, Seq<char>)> {
    s.map_values(|p: (Vec<char>, Vec<char>)| (p.0@, p.1@))
}

/// The models of optional key-value pairs.
pub open spec fn opt_pairs_view(o: Option<Vec<(Vec<char>, Vec<char>)>>) -> Option<Seq<(Seq<char>, Seq<char>)>> {
    match o {
        Some(v) => Some(pair_views(v@)),
        None => None,
    }
}

/// The model of an optional character vector.
pub open spec fn opt_chars_view(o: Option<Vec<char>>) -> Option<Seq<char>> {
    match o {
        Some(v) => Some(v@),
        None => None,
    }
}

/// Once a prefix of the pieces holds a piece that is no pair, so do all
/// the pieces.
pub proof fn lemma_query_pairs_prefix(s: Seq<Seq<char>>, k: int)
    requires
        0 <= k <= s.len(),
        query_pairs(s.subrange(0, k)) is None,
    ensures
        query_pairs(s) is None,
    decreases s.len(),
{
    if k == s.len() {
        assert(s.subrange(0, k) =~= s);
    } else {
        assert(s.drop_last().subrange(0, k) =~= s.subrange(0, k));
        lemma_query_pairs_prefix(s.drop_last(), k);
    }
}

/// The `key=value` pairs of a query text (see `query_pairs`).
pub fn query_pairs_exec(query: &Vec<char>) -> (res: Option<Vec<(Vec<char>, Vec<char>)>>)
    ensures
        opt_pairs_view(res) == query_pairs(text::split_on(query@, '&')),
{
    let pieces = split_on_exec(query, '&');
    let ghost all = text::views(pieces@);
    let mut out: Vec<(Vec<char>, Vec<char>)> = Vec::new();
    let mut i: usize = 0;
    assert(all.subrange(0, 0) =~= Seq::<Seq<char>>::empty());
    assert(pair_views(out@) =~= Seq::<(Seq<char>, Seq<char>)>::empty());
    while i < pieces.len()
        invariant
            i <= pieces@.len(),
            all == text::views(pieces@),
            all == text::split_on(query@, '&'),
            query_pairs(all.subrange(0, i as int)) == Some(pair_views(out@)),
        decreases pieces.len() - i,
    {
        assert(all.subrange(0, i + 1).drop_last() =~= all.subrange(0, i as int));
        assert(all[i as int] == pieces@[i as int]@);
        if pieces[i].len() != 0 {
            let kv = split_on_exec(&pieces[i], '=');
            assert(text::views(kv@).len() == kv@.len());
            if kv.len() != 2 {
                proof {
                    lemma_query_pairs_prefix(all, i + 1);
                }
                return None;
            }
            assert(text::views(kv@)[0] == kv@[0]@);
            assert(text::views(kv@)[1] == kv@[1]@);
            let ghost prev = out@;
            out.push((kv[0].clone(), kv[1].clone()));
            assert(pair_views(out@) =~= pair_views(prev).push((kv@[0]@, kv@[1]@)));
        }
        i = i + 1;
    }
    assert(all.subrange(0, pieces@.len() as int) =~= all);
    Some(out)
}

/// The last value given for `key` (see `param`).
pub fn param_exec(pairs: &Vec<(Vec<char>, Vec<char>)>, key: &str) -> (res: Option<Vec<char>>)
    ensures
        opt_chars_view(res) == param(pair_views(pairs@), key@),
{
    let ghost all = pair_views(pairs@);
    let mut found: Option<Vec<char>> = None;
    let mut i: usize = 0;
    while i < pairs.len()
        invariant
            i <= pairs@.len(),
            all == pair_views(pairs@),
            opt_chars_view(found) == param(all.subrange(0, i as int), key@),
        decreases pairs.len() - i,
    {
        assert(all.subrange(0, i + 1).drop_last() =~= all.subrange(0, i as int));
        assert(all[i as int] == (pairs@[i as int].0@, pairs@[i as int].1@));
        if chars_eq_str(&pairs[i].0, key) {
            found = Some(pairs[i].1.clone());
        }
        i = i + 1;
    }
    assert(all.subrange(0, pairs@.len() as int) =~= all);
    found
}

/// The pieces of `s` between the occurrences of `sep` that are not empty.
pub fn nonempty_pieces(s: &Vec<char>, sep: char) -> (res: Vec<String>)
    ensures
        res@.map_values(|x: String| x@) == nonempty(text::split_on(s@, sep)),
{
    let pieces = split_on_exec(s, sep);
    let ghost all = text::views(pieces@);
    let mut out: Vec<String> = Vec::new();
    let mut i: usize = 0;
    while i < pieces.len()
        invariant
            i <= pieces@.len(),
            all == text::views(pieces@),
            all == text::split_on(s@, sep),
            out@.map_values(|x: String| x@) == nonempty(all.subrange(0, i as int)),
        decreases pieces.len() - i,
    {
        assert(all[i as int] == pieces@[i as int]@);
        assert(all.subrange(0, i + 1).drop_last() =~= all.subrange(0, i as int));
        if pieces[i].len() != 0 {
            let ghost prev = out@;
            out.push(string_of(&pieces[i]));
            assert(out@.map_values(|x: String| x@) =~= prev.map_values(|x: String| x@).push(
                pieces@[i as int]@,
            ));
        }
        i = i + 1;
    }
    assert(all.subrange(0, pieces@.len() as int) =~= all);
    out
}

/// The TLS settings of a Trojan link (see `trojan_tls_json`).
pub fn trojan_tls(pairs: &Vec<(Vec<char>, Vec<char>)>) -> (res: TlsObject)
    ensures
        outbound::tls_json(res) == trojan_tls_json(pair_views(pairs@)),
{
    proof {
        reveal_strlit("true");
    }
    let server_name = match param_exec(pairs, "sni") {
        Some(v) => string_of(&v),
        None => String::new(),
    };
    let allow_insecure = match param_exec(pairs, "allowinsecure") {
        Some(v) => chars_eq_str(&v, "true"),
        None => false,
    };
    let alpn_text = match param_exec(pairs, "alpn") {
        Some(v) => v,
        None => Vec::new(),
    };
    let alpn = nonempty_pieces(&alpn_text, ',');
    assert(alpn@.map_values(|x: String| outbound::jstr(x@)) =~= alpn@.map_values(|x: String| x@).map_values(
        |x: Seq<char>| outbound::jstr(x),
    ));
    let tls = TlsObject { server_name, allow_insecure, alpn };
    assert(outbound::tls_json(tls)->Object_0 =~= trojan_tls_json(pair_views(pairs@))->Object_0);
    tls
}

/// Reads the parts of a Trojan link (see `trojan_parse`) into its name,
/// still percent-encoded, and its outbound.
pub fn trojan_url_decode(url: &str) -> (res: Result<URLMetaObject, DecodeError>)
    ensures
        match trojan_parse(url@) {
            Err(e) => res matches Err(e2) && e2@ == e,
            Ok(l) => res matches Ok(m) && trojan_meta_ok(m, l),
        },
{
    let cs = chars_of(url);
    let body = after_first_sep_exec(&cs);
    let (password, rest) = match cut_exec(&body, "@") {
        Some(p) => p,
        None => return Err(DecodeError::MalformedUrl),
    };
    let (main, name) = cut_or_all_exec(&rest, "#");
    let (hostport, query) = cut_or_all_exec(&main, "?");
    let (host, port_text) = match cut_exec(&hostport, ":") {
        Some(p) => p,
        None => return Err(DecodeError::MalformedUrl),
    };
    let port = match parse_u32_exec(&port_text) {
        Some(p) => p,
        None => return Err(DecodeError::PortIllegal),
    };
    let (query_text, _) = cut_or_all_exec(&query, "%0A");
    let pairs = match query_pairs_exec(&query_text) {
        Some(p) => p,
        None => return Err(DecodeError::WrongQueryArguments),
    };
    let ghost l = trojan_parse(url@)->Ok_0;
    assert(l.pairs == pair_views(pairs@));
    let tls = trojan_tls(&pairs);
    let server = TrojanServer { address: string_of(&host), port, password: string_of(&password) };
    let mut servers: Vec<TrojanServer> = Vec::new();
    servers.push(server);
    assert(servers@.map_values(|x: TrojanServer| outbound::trojan_server_json(x)) =~= seq![
        outbound::trojan_server_json(servers@[0]),
    ]);
    let settings = OutboundSettings { kind: Some(OutboundKind::Trojan(TrojanOutbound { servers })) };
    let stream = StreamSettingsObject {
        network: String::new(),
        security: String::new(),
        tls_settings: Some(tls),
        ws_settings: None,
        http_settings: None,
        grpc_settings: None,
        quic_settings: None,
    };
    let outbound = OutboundObject {
        protocol: String::from_str("trojan"),
        send_through: String::from_str("0.0.0.0"),
        settings: Some(settings),
        stream_settings: Some(stream),
    };
    assert(outbound::trojan_server_json(server)->Object_0 =~= trojan_json(l)->Object_0[2].1->Object_0[0].1->Object_0[0].1->Array_0[0]->Object_0);
    assert(outbound::settings_json(settings)->Object_0 =~= trojan_json(l)->Object_0[2].1->Object_0);
    assert(outbound::stream_json(stream)->Object_0 =~= trojan_json(l)->Object_0[3].1->Object_0);
    assert(outbound::outbound_json(outbound)->Object_0 =~= trojan_json(l)->Object_0);
    Ok(URLMetaObject { name: string_of(&name), outbound })
}

/// Decodes a Trojan link into a node (see `trojan_decode`): the name is
/// percent-decoded, the address, port and password come from the server,
/// `raw` is the outbound as indented JSON without its defaults, and `url`
/// is the link.
pub fn trojan_outbound_from_url(url_str: String) -> (res: Result<NodeData, DecodeError>)
    ensures
        node_result(res) == trojan_decode(url_str@),
{
    let meta = match trojan_url_decode(url_str.as_str()) {
        Ok(m) => m,
        Err(e) => return Err(e),
    };
    let (address, port, password) = match &meta.outbound.settings {
        Some(st) => match &st.kind {
            Some(OutboundKind::Trojan(t)) => {
                let server = &t.servers[0];
                (server.address.clone(), server.port, server.password.clone())
            },
            _ => {
                proof {
                    assert(false);
                }
                return Err(DecodeError::MalformedUrl);
            },
        },
        None => {
            proof {
                assert(false);
            }
            return Err(DecodeError::MalformedUrl);
        },
    };
    let mut raw = outbound::outbound_to_json(&meta.outbound);
    check_is_default_and_delete(&mut raw);
    let name = match url_decode(meta.name.as_str()) {
        Ok(n) => n,
        Err(m) => return Err(DecodeError::UrlDecode(m)),
    };
    let mut node = NodeData::default();
    node.protocol = EntryType::Trojan.number();
    node.name = name;
    node.address = address;
    node.port = port as i32;
    node.password = password;
    node.raw = json_to_string_pretty(&raw);
    node.url = url_str;
    Ok(node)
}


/// A Trojan link is read back into the parts it was written from: after
/// the scheme, a password without `'@'`, then `'@'`, a host without `':'`,
/// `'?'` or `'#'`, then `':'`, a port text without `'?'` or `'#'`, then
/// optionally `'?'` and a query without `'#'`, then optionally `'#'` and
/// a name. The link gives that password, host and name, the port that
/// the port text reads as (or the port error), and the pairs of the query
/// up to an encoded line feed (or the query error).
pub proof fn law_trojan_link_parts(
    url: Seq<char>,
    password: Seq<char>,
    host: Seq<char>,
    port_text: Seq<char>,
    has_query: bool,
    query: Seq<char>,
    has_name: bool,
    name: Seq<char>,
)
    requires
        after_first_sep(url) == password + "@"@ + host + ":"@ + port_text + text::optional_piece(has_query, '?', query)
            + text::optional_piece(has_name, '#', name),
        text::lacks(password, '@'),
        text::lacks(host, ':'),
        text::lacks(host, '?'),
        text::lacks(host, '#'),
        text::lacks(port_text, '?'),
        text::lacks(port_text, '#'),
        text::lacks(query, '#'),
        !has_query ==> query.len() == 0,
        !has_name ==> name.len() == 0,
    ensures
        text::parse_u32(port_text) is None ==> trojan_parse(url) == Err::<TrojanLink, ErrorModel>(ErrorModel::PortIllegal),
        text::parse_u32(port_text) matches Some(port) ==> match query_pairs(
            text::split_on(text::cut_or_all(query, "%0A"@).0, '&'),
        ) {
            None => trojan_parse(url) == Err::<TrojanLink, ErrorModel>(ErrorModel::WrongQueryArguments),
            Some(pairs) => trojan_parse(url) == Ok::<TrojanLink, ErrorModel>(
                TrojanLink { password, host, port, pairs, name },
            ),
        },
{
    reveal_strlit("@");
    reveal_strlit(":");
    reveal_strlit("#");
    reveal_strlit("?");
    assert("@"@ =~= seq!['@']);
    assert(":"@ =~= seq![':']);
    assert("#"@ =~= seq!['#']);
    assert("?"@ =~= seq!['?']);
    let q = text::optional_piece(has_query, '?', query);
    let n = text::optional_piece(has_name, '#', name);
    let m0 = host + seq![':'] + port_text;
    let f0 = m0 + q;
    let r = f0 + n;
    assert(after_first_sep(url) =~= password + seq!['@'] + r);
    text::law_cut_at_first_char(password, '@', r);
    text::law_cut_at_first_char(host, ':', port_text);
    assert(text::lacks(seq![':'], '#') && text::lacks(seq![':'], '?'));
    text::lemma_lacks_concat(host, seq![':'], '#');
    text::lemma_lacks_concat(host + seq![':'], port_text, '#');
    text::lemma_lacks_concat(host, seq![':'], '?');
    text::lemma_lacks_concat(host + seq![':'], port_text, '?');
    assert(text::lacks(q, '#')) by {
        if has_query {
            assert(text::lacks(seq!['?'], '#'));
            text::lemma_lacks_concat(seq!['?'], query, '#');
        }
    }
    text::lemma_lacks_concat(m0, q, '#');
    text::law_cut_at_first_char(f0, '#', name);
    if has_name {
        assert(r =~= f0 + seq!['#'] + name);
        assert(text::cut_or_all(r, "#"@) == (f0, name));
    } else {
        assert(r =~= f0);
        assert(text::cut_or_all(r, "#"@) == (f0, name));
    }
    text::law_cut_at_first_char(m0, '?', query);
    if has_query {
        assert(f0 =~= m0 + seq!['?'] + query);
    } else {
        assert(f0 =~= m0);
    }
    assert(text::cut_or_all(f0, "?"@) == (m0, query));
    assert(text::cut(m0, ":"@) == Some((host, port_text)));
}


/// For a key given more than once in a query the last value counts: the
/// value found is that of a pair with the key after which no pair has the
/// key; none is found exactly when no pair has the key.
pub proof fn law_param_last_value_counts(pairs: Seq<(Seq<char>, Seq<char>)>, key: Seq<char>)
    ensures
        param(pairs, key) matches Some(v) ==> exists|i: int|
            0 <= i < pairs.len() && #[trigger] pairs[i] == (key, v) && forall|j: int|
                i < j < pairs.len() ==> pairs[j].0 != key,
        param(pairs, key) is None <==> forall|i: int| 0 <= i < pairs.len() ==> (#[trigger] pairs[i]).0 != key,
    decreases pairs.len(),
{
    if pairs.len() > 0 {
        let d = pairs.drop_last();
        law_param_last_value_counts(d, key);
        let n = pairs.len() - 1;
        if pairs.last().0 == key {
            assert(pairs[n] == (key, pairs.last().1));
        } else {
            if param(d, key) is Some {
                let v = param(d, key)->Some_0;
                let i = choose|i: int|
                    0 <= i < d.len() && #[trigger] d[i] == (key, v) && forall|j: int| i < j < d.len() ==> d[j].0 != key;
                assert(pairs[i] == d[i]);
                assert forall|j: int| i < j < pairs.len() implies pairs[j].0 != key by {
                    if j < n {
                        assert(pairs[j] == d[j]);
                    }
                }
            } else {
                assert forall|i: int| 0 <= i < pairs.len() implies (#[trigger] pairs[i]).0 != key by {
                    if i < n {
                        assert(pairs[i] == d[i]);
                    }
                }
            }
            if forall|i: int| 0 <= i < pairs.len() ==> (#[trigger] pairs[i]).0 != key {
                assert forall|i: int| 0 <= i < d.len() implies (#[trigger] d[i]).0 != key by {
                    assert(pairs[i] == d[i]);
                }
            }
        }
    }
}

} // verus!
