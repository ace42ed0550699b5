use acolors::serialize::{decode_outbound_from_url, DecodeError};

#[test]
fn test_vmess() -> Result<(), DecodeError> {
    let t = decode_outbound_from_url("vmess://eyJhZGQiOiJ0ZXN0MiIsImFpZCI6MzEyLCJob3N0IjoiZmQiLCJpZCI6InRlc3QzIiwibmV0Ijoid3MiLCJwYXRoIjoiYWZkIiwicG9ydCI6MTQyLCJwcyI6InRlc3QxIiwic2N5IjoiY2hhY2hhMjAtcG9seTEzMDUiLCJzbmkiOiI0MTIiLCJ0bHMiOiJ0bHMiLCJ0eXBlIjoibm9uZSIsInYiOiIyIn0=@");
    let data = match t {
        Ok(d) => d,
        Err(e) => {
            println!("Error: {}", e.message());
            return Ok(());
        }
    };
    println!("{}", data.raw);
    assert_eq!(
        data.raw,
        r#"{
  "protocol": "vmess",
  "sendThrough": "0.0.0.0",
  "settings": {
    "vmess": {
      "vnext": [
        {
          "address": "test2",
          "port": 142,
          "users": [
            {
              "alterId": 312,
              "id": "test3",
              "security": "chacha20-poly1305"
            }
          ]
        }
      ]
    }
  },
  "streamSettings": {
    "network": "ws",
    "security": "tls",
    "tlsSettings": {
      "serverName": "412"
    },
    "wsSettings": {
      "headers": {
        "Host": "fd"
      },
      "path": "afd"
    }
  }
}"#
    );
    Ok(())
}

#[test]
fn test_trojan() -> Result<(), DecodeError> {
    let data = decode_outbound_from_url(
        "trojan://password@host:756?sni=servername&allowinsecure=false&alpn=h2,http/1.1%0Ahttp/1.1#name",
    )?;
    println!("{:?}", data);
    println!("{}", data.raw);
    assert_eq!(
        r#"{
  "protocol": "trojan",
  "sendThrough": "0.0.0.0",
  "settings": {
    "trojan": {
      "servers": [
        {
          "address": "host",
          "password": "password",
          "port": 756
        }
      ]
    }
  },
  "streamSettings": {
    "tlsSettings": {
      "alpn": [
        "h2",
        "http/1.1"
      ],
      "serverName": "servername"
    }
  }
}"#,
        data.raw
    );
    Ok(())
}

#[test]
fn test_ss() -> Result<(), DecodeError> {
    let data = decode_outbound_from_url("ss://YWVzLTI1Ni1nY206dGVzdDM=@test2:123#test1")?;
    println!("{:?}", data);
    println!("{}", data.raw);
    assert_eq!(
        r#"{
  "protocol": "shadowsocks",
  "sendThrough": "0.0.0.0",
  "settings": {
    "shadowsocks": {
      "servers": [
        {
          "address": "test2",
          "method": "aes-256-gcm",
          "password": "test3",
          "port": 123
        }
      ]
    }
  }
}"#,
        data.raw
    );
    Ok(())
}
