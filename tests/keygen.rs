use cometkeys::generate::{generate_node_keys, generate_validator_keys, validator_keys};
use cometkeys::error::KeygenError;
use cometkeys::keys::Keypair;
use cometkeys::pubkey::{quote, CosmosPublicKey};

const RFC_SEED: &str = "9d61b19deffd5a60ba844af492ec2cc44449c5697b326919703bac031cae7f60";
const RFC_PUBLIC: &str = "d75a980182b10ab7d54bfed3c964073a0ee172f3daa62325af021a68f707511a";

fn bytes32(hex: &str) -> [u8; 32] {
    let mut out = [0u8; 32];
    for i in 0..32 {
        out[i] = u8::from_str_radix(&hex[2 * i..2 * i + 2], 16).unwrap();
    }
    out
}

#[test]
fn keypair_from_known_seed() {
    let k = Keypair::from_seed(bytes32(RFC_SEED));
    assert_eq!(k.seed(), bytes32(RFC_SEED));
    assert_eq!(k.public_key(), bytes32(RFC_PUBLIC));
}

#[test]
fn node_identifier_of_known_key() {
    let k = Keypair::from_seed(bytes32(RFC_SEED));
    assert_eq!(k.node_identifier(), "21fe31dfa154a261626bf854046fd2271b7bed4b");
    let again = Keypair::from_seed(bytes32(RFC_SEED));
    assert_eq!(k.node_identifier(), again.node_identifier());
    let other = Keypair::from_seed([7u8; 32]);
    assert_ne!(k.node_identifier(), other.node_identifier());
}

#[test]
fn node_identifier_matches_node_key() {
    let k = Keypair::generate().unwrap();
    let sk = ed25519_consensus::SigningKey::from(k.seed());
    let node_key = tendermint_config::NodeKey {
        priv_key: tendermint::private_key::PrivateKey::from(sk),
    };
    assert_eq!(k.node_identifier(), node_key.node_id().to_string());
}

#[test]
fn account_address_of_known_key() {
    let k = Keypair::from_seed(bytes32(RFC_SEED));
    let hex: String = k.account_address().iter().map(|b| format!("{:02x}", b)).collect();
    assert_eq!(hex, "21fe31dfa154a261626bf854046fd2271b7bed4b");
}

#[test]
fn generated_public_key_is_derived_from_seed() {
    for _ in 0..4 {
        let k = Keypair::generate().unwrap();
        let derived = ed25519_consensus::SigningKey::from(k.seed()).verification_key().to_bytes();
        assert_eq!(k.public_key(), derived);
    }
    let a = Keypair::generate().unwrap();
    let b = Keypair::generate().unwrap();
    assert_ne!(a.seed(), b.seed());
}

#[test]
fn encode_known_public_key() {
    let pk = CosmosPublicKey::encode(bytes32(RFC_PUBLIC));
    assert_eq!(pk.type_tag(), "/cosmos.crypto.ed25519.PubKey");
    assert_eq!(pk.key_base64(), "11qYAYKxCrfVS/7TyWQHOg7hcvPapiMlrwIaaPcHURo=");
    assert_eq!(
        pk.to_json(),
        "{\"@type\":\"/cosmos.crypto.ed25519.PubKey\",\"key\":\"11qYAYKxCrfVS/7TyWQHOg7hcvPapiMlrwIaaPcHURo=\"}"
    );
    assert_eq!(
        pk.to_export_text(),
        "\"{\\\"@type\\\":\\\"/cosmos.crypto.ed25519.PubKey\\\",\\\"key\\\":\\\"11qYAYKxCrfVS/7TyWQHOg7hcvPapiMlrwIaaPcHURo=\\\"}\""
    );
    let again = CosmosPublicKey::encode(bytes32(RFC_PUBLIC));
    assert_eq!(again.to_json(), pk.to_json());
}

#[test]
fn encode_sequential_bytes() {
    let mut b = [0u8; 32];
    for i in 0..32 {
        b[i] = i as u8;
    }
    assert_eq!(
        CosmosPublicKey::encode(b).key_base64(),
        "AAECAwQFBgcICQoLDA0ODxAREhMUFRYXGBkaGxwdHh8="
    );
}

#[test]
fn export_text_matches_debug_quoting() {
    let pk = CosmosPublicKey::encode(bytes32(RFC_PUBLIC));
    assert_eq!(pk.to_export_text(), format!("{:?}", pk.to_json()));
    assert_eq!(quote("a\"b\\c"), "\"a\\\"b\\\\c\"");
    assert_eq!(quote(""), "\"\"");
}

#[test]
fn node_key_runs_agree_on_names() {
    let a = generate_node_keys("val,sentry:1", 2, "ns", "svc.local", 26656).unwrap();
    let b = generate_node_keys("val,sentry:1", 2, "ns", "svc.local", 26656).unwrap();
    let names: Vec<&str> = a.iter().map(|e| e.secret_name.as_str()).collect();
    assert_eq!(names, vec!["val-node-key-0", "val-node-key-1", "sentry-node-key-0"]);
    assert_eq!(a.len(), b.len());
    let hosts = [
        "@val-p2p-0.ns.svc.local:26656",
        "@val-p2p-1.ns.svc.local:26656",
        "@sentry-p2p-0.ns.svc.local:26656",
    ];
    for i in 0..a.len() {
        assert_eq!(a[i].secret_name, b[i].secret_name);
        assert_eq!(&a[i].peer_address[40..], hosts[i]);
        assert_eq!(&b[i].peer_address[40..], hosts[i]);
        assert_eq!(&a[i].peer_address[..40], a[i].keypair.node_identifier());
        assert_ne!(a[i].peer_address, b[i].peer_address);
    }
}

#[test]
fn node_key_run_rejects_bad_count() {
    assert_eq!(
        generate_node_keys("a,b:x", 2, "ns", "svc.local", 26656).err(),
        Some(KeygenError::InvalidGroupCount)
    );
}

#[test]
fn node_key_run_with_zero_count_group() {
    let es = generate_node_keys("a:0", 2, "ns", "d", 1).unwrap();
    assert!(es.is_empty());
}

#[test]
fn three_validators() {
    let vs = generate_validator_keys("v", 3).unwrap();
    let dirs: Vec<&str> = vs.iter().map(|v| v.dir_name.as_str()).collect();
    assert_eq!(dirs, vec!["v0", "v1", "v2"]);
    for v in &vs {
        let public = tendermint::PublicKey::from_raw_ed25519(&v.keypair.public_key()).unwrap();
        let expected = tendermint::account::Id::from(public);
        assert_eq!(&v.address[..], expected.as_bytes());
        let text = CosmosPublicKey::encode(v.keypair.public_key()).to_export_text();
        assert_eq!(v.pubkey_text, text);
    }
}

#[test]
fn validator_record_of_known_key() {
    let v = validator_keys("node", 4, Keypair::from_seed(bytes32(RFC_SEED)));
    assert_eq!(v.dir_name, "node4");
    let hex: String = v.address.iter().map(|b| format!("{:02x}", b)).collect();
    assert_eq!(hex, "21fe31dfa154a261626bf854046fd2271b7bed4b");
    assert!(v.pubkey_text.contains("11qYAYKxCrfVS/7TyWQHOg7hcvPapiMlrwIaaPcHURo="));
}

#[test]
fn zero_validators_succeed_with_nothing() {
    let vs = generate_validator_keys("v", 0).unwrap();
    assert!(vs.is_empty());
}

#[test]
fn key_base64_is_44_characters() {
    let pk = CosmosPublicKey::encode(bytes32(RFC_PUBLIC));
    assert_eq!(pk.key_base64().len(), 44);
    assert!(pk.key_base64().ends_with('='));
}
