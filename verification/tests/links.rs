use acolors::serialize::{
    decode_outbound_from_url, get_nodes_from_base64, try_get_nodes_from_base64, url_is_decodable, DecodeError,
};

fn b64(s: &str) -> String {
    base64::encode(s)
}

const VMESS: &str = "vmess://eyJhZGQiOiJ0ZXN0MiIsImFpZCI6MzEyLCJob3N0IjoiZmQiLCJpZCI6InRlc3QzIiwibmV0Ijoid3MiLCJwYXRoIjoiYWZkIiwicG9ydCI6MTQyLCJwcyI6InRlc3QxIiwic2N5IjoiY2hhY2hhMjAtcG9seTEzMDUiLCJzbmkiOiI0MTIiLCJ0bHMiOiJ0bHMiLCJ0eXBlIjoibm9uZSIsInYiOiIyIn0=@";

#[test]
fn vmess_link_gives_node_fields() {
    let n = decode_outbound_from_url(VMESS).unwrap();
    assert_eq!(n.name, "test1");
    assert_eq!(n.address, "test2");
    assert_eq!(n.port, 142);
    assert_eq!(n.password, "test3");
    assert_eq!(n.protocol, 0);
    assert_eq!(n.url, VMESS);
    assert_eq!(n.group_id, 0);
}

#[test]
fn trojan_link_gives_node_fields() {
    let url = "trojan://password@host:756?sni=servername&allowinsecure=false&alpn=h2,http/1.1%0Ahttp/1.1#name";
    let n = decode_outbound_from_url(url).unwrap();
    assert_eq!(n.name, "name");
    assert_eq!(n.address, "host");
    assert_eq!(n.port, 756);
    assert_eq!(n.password, "password");
    assert_eq!(n.protocol, 2);
    assert_eq!(n.url, url);
}

#[test]
fn ss_link_gives_node_fields() {
    let n = decode_outbound_from_url("ss://YWVzLTI1Ni1nY206dGVzdDM=@test2:123#test1").unwrap();
    assert_eq!(n.name, "test1");
    assert_eq!(n.address, "test2");
    assert_eq!(n.port, 123);
    assert_eq!(n.password, "test3");
    assert_eq!(n.protocol, 1);
}

#[test]
fn trojan_insecure_last_value_and_percent_name() {
    let n = decode_outbound_from_url("trojan://pw@h:1?allowinsecure=false&allowinsecure=true#a%20b").unwrap();
    assert_eq!(n.name, "a b");
    assert_eq!(
        n.raw,
        r#"{
  "protocol": "trojan",
  "sendThrough": "0.0.0.0",
  "settings": {
    "trojan": {
      "servers": [
        {
          "address": "h",
          "password": "pw",
          "port": 1
        }
      ]
    }
  },
  "streamSettings": {
    "tlsSettings": {
      "allowInsecure": true
    }
  }
}"#
    );
}

#[test]
fn scheme_errors() {
    assert_eq!(decode_outbound_from_url("").unwrap_err(), DecodeError::NoScheme);
    assert_eq!(decode_outbound_from_url("://x").unwrap_err(), DecodeError::NoScheme);
    assert_eq!(decode_outbound_from_url("http://x").unwrap_err(), DecodeError::NotImplemented);
    assert_eq!(decode_outbound_from_url("plain").unwrap_err(), DecodeError::NotImplemented);
}

#[test]
fn vmess_errors() {
    assert_eq!(decode_outbound_from_url("vmess://").unwrap_err(), DecodeError::NoContent);
    assert!(matches!(decode_outbound_from_url("vmess://!!!!").unwrap_err(), DecodeError::Base64(_)));
    let not_json = format!("vmess://{}", b64("not json"));
    assert!(matches!(decode_outbound_from_url(&not_json).unwrap_err(), DecodeError::Json(_)));
    let no_port = format!("vmess://{}", b64(r#"{"add":"a"}"#));
    assert_eq!(decode_outbound_from_url(&no_port).unwrap_err(), DecodeError::NoAddressPort);
    let bad_port = format!("vmess://{}", b64(r#"{"add":"a","port":true}"#));
    assert_eq!(decode_outbound_from_url(&bad_port).unwrap_err(), DecodeError::PortIllegal);
    let no_id = format!("vmess://{}", b64(r#"{"add":"a","port":1}"#));
    assert_eq!(decode_outbound_from_url(&no_id).unwrap_err(), DecodeError::NoId);
    let bad_name = format!("vmess://{}", b64(r#"{"add":"a","port":1,"id":"u","ps":"%ff"}"#));
    assert!(matches!(decode_outbound_from_url(&bad_name).unwrap_err(), DecodeError::UrlDecode(_)));
}

#[test]
fn vmess_string_port_and_h2() {
    let link = format!(
        "vmess://{}",
        b64(r#"{"add":"a","port":"443","id":"u","aid":"7","net":"h2","host":" x.com, ,y.com ","path":"/p"}"#)
    );
    let n = decode_outbound_from_url(&link).unwrap();
    assert_eq!(n.port, 443);
    assert_eq!(
        n.raw,
        r#"{
  "protocol": "vmess",
  "sendThrough": "0.0.0.0",
  "settings": {
    "vmess": {
      "vnext": [
        {
          "address": "a",
          "port": 443,
          "users": [
            {
              "alterId": 7,
              "id": "u",
              "security": "auto"
            }
          ]
        }
      ]
    }
  },
  "streamSettings": {
    "httpSettings": {
      "host": [
        "x.com",
        "",
        "y.com"
      ],
      "path": "/p"
    },
    "network": "http"
  }
}"#
    );
}

#[test]
fn vmess_address_not_a_string_is_default() {
    let link = format!("vmess://{}", b64(r#"{"add":5,"port":-3,"id":"u"}"#));
    let n = decode_outbound_from_url(&link).unwrap();
    assert_eq!(n.address, "default");
    assert_eq!(n.port, 0);
}

#[test]
fn trojan_errors() {
    assert_eq!(decode_outbound_from_url("trojan://nohost").unwrap_err(), DecodeError::MalformedUrl);
    assert_eq!(decode_outbound_from_url("trojan://p@h").unwrap_err(), DecodeError::MalformedUrl);
    assert_eq!(decode_outbound_from_url("trojan://p@h:abc").unwrap_err(), DecodeError::PortIllegal);
    assert_eq!(decode_outbound_from_url("trojan://p@h:1?a").unwrap_err(), DecodeError::WrongQueryArguments);
    assert_eq!(decode_outbound_from_url("trojan://p@h:1?a=b=c").unwrap_err(), DecodeError::WrongQueryArguments);
    assert!(matches!(decode_outbound_from_url("trojan://p@h:1#%ff").unwrap_err(), DecodeError::UrlDecode(_)));
}

#[test]
fn ss_errors() {
    assert_eq!(decode_outbound_from_url("ss://abc").unwrap_err(), DecodeError::MalformedUrl);
    assert!(matches!(decode_outbound_from_url("ss://!!@h:1").unwrap_err(), DecodeError::Base64(_)));
    let no_method = format!("ss://{}@h:1", b64("aes"));
    assert_eq!(decode_outbound_from_url(&no_method).unwrap_err(), DecodeError::NoMethod);
    let bad = format!("ss://{}@h:1", base64::encode([0xffu8, 0xfe]));
    assert!(matches!(decode_outbound_from_url(&bad).unwrap_err(), DecodeError::Utf8(_)));
    let no_port = format!("ss://{}@h", b64("m:p"));
    assert_eq!(decode_outbound_from_url(&no_port).unwrap_err(), DecodeError::MalformedUrl);
}

#[test]
fn subscription_skips_bad_lines() {
    let text = "trojan://p@h:1#one\nss://YWVzLTI1Ni1nY206dGVzdDM=@test2:123#two\r\nbroken\n";
    let nodes = get_nodes_from_base64(&b64(text)).unwrap();
    assert_eq!(nodes.len(), 2);
    assert_eq!(nodes[0].name, "one");
    assert_eq!(nodes[1].name, "two");
    assert!(matches!(get_nodes_from_base64("!!").unwrap_err(), DecodeError::Base64(_)));
    assert!(matches!(get_nodes_from_base64(&base64::encode([0xffu8])).unwrap_err(), DecodeError::Utf8(_)));
}

#[test]
fn subscription_with_uncuttable_vmess_line() {
    let text = "trojan://p@h:1#one\nvmess://abcé@";
    assert!(try_get_nodes_from_base64(&b64(text)).is_none());
    let ok = try_get_nodes_from_base64(&b64("trojan://p@h:1#one")).unwrap().unwrap();
    assert_eq!(ok.len(), 1);
    let chars: Vec<char> = "vmess://é@".chars().collect();
    assert!(!url_is_decodable(&chars));
    let chars: Vec<char> = "vmess://a@".chars().collect();
    assert!(url_is_decodable(&chars));
}

#[test]
fn decode_error_messages() {
    assert_eq!(DecodeError::NoScheme.message(), "No scheme");
    assert_eq!(DecodeError::WrongQueryArguments.message(), "Wrong query arguments");
    match decode_outbound_from_url("vmess://!!!!").unwrap_err() {
        DecodeError::Base64(m) => {
            assert!(!m.is_empty());
            assert_eq!(DecodeError::Base64(m.clone()).message(), m);
        }
        other => panic!("unexpected {:?}", other),
    }
}
