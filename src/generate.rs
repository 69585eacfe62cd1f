//! The two generation runs: node keys for every slot of a group
//! specification, with their secret names and peer addresses, and validator
//! keys with their directory names, addresses and public-key exports.
use vstd::prelude::*;
use crate::groups::{
    enumerate_slots, parse_groups, parse_spec, slot_views, slots, Slot,
};
use crate::error::KeygenError;
use crate::keys::{account_id_of, ed25519_public_of, node_id_of, Keypair};
use crate::naming::{
    compose_peer_address, peer_address_text, peer_host_text, secret_name, secret_name_text,
    validator_dir_name, validator_dir_text,
};
use crate::pubkey::{ed25519_tag, json_text, base64_of, quoted, CosmosPublicKey};
use crate::text::hex_lower;

verus! {

/// The node key of one slot, with the name of its secret and its peer address.
pub struct NodeKeyEntry {
    pub secret_name: String,
    pub peer_address: String,
    pub keypair: Keypair,
}

/// The identifier text of a keypair's public key.
pub open spec fn id_text(k: Keypair) -> Seq<char> {
    hex_lower(node_id_of(k.public_bytes()))
}

/// `e` is the entry of `slot` in a network of `namespace`, `domain` and `port`.
pub open spec fn entry_fits(
    e: NodeKeyEntry,
    slot: (Seq<char>, nat),
    namespace: Seq<char>,
    domain: Seq<char>,
    port: nat,
) -> bool {
    &&& e.keypair.public_bytes() == ed25519_public_of(e.keypair.seed_bytes())
    &&& id_text(e.keypair).len() == 40
    &&& e.secret_name@ == secret_name_text(slot.0, slot.1)
    &&& e.peer_address@ == peer_address_text(
        id_text(e.keypair),
        slot.0,
        slot.1,
        namespace,
        domain,
        port,
    )
}

/// `es` holds one entry per slot of `ss`, in the same order.
pub open spec fn entries_fit(
    es: Seq<NodeKeyEntry>,
    ss: Seq<(Seq<char>, nat)>,
    namespace: Seq<char>,
    domain: Seq<char>,
    port: nat,
) -> bool {
    &&& es.len() == ss.len()
    &&& forall|k: int| 0 <= k < es.len() ==> entry_fits(#[trigger] es[k], ss[k], namespace, domain, port)
}

/// The entry of `slot` for a given keypair.
pub fn node_key_entry(
    slot: &Slot,
    keypair: Keypair,
    namespace: &str,
    domain: &str,
    port: u16,
) -> (r: NodeKeyEntry)
    ensures
        entry_fits(r, (slot.group@, slot.index as nat), namespace@, domain@, port as nat),
        r.keypair == keypair,
{
    let id = keypair.node_identifier();
    let name = secret_name(slot.group.as_str(), slot.index);
    let address = compose_peer_address(
        id.as_str(),
        slot.group.as_str(),
        slot.index,
        namespace,
        domain,
        port,
    );
    NodeKeyEntry { secret_name: name, peer_address: address, keypair }
}

/// Generates a node key for every slot of the group specification `spec`
/// (`default` nodes where a group gives no count). Fails before any key is
/// drawn where the specification is malformed, and where the entropy source
/// fails, which can only happen where there is a key to draw.
pub fn generate_node_keys(
    spec: &str,
    default: usize,
    namespace: &str,
    domain: &str,
    port: u16,
) -> (r: Result<Vec<NodeKeyEntry>, KeygenError>)
    ensures
        parse_spec(spec@, default as nat) is None <==> r matches Err(
            KeygenError::InvalidGroupCount,
        ),
        r matches Err(e) ==> e == KeygenError::InvalidGroupCount || e
            == KeygenError::EntropyUnavailable,
        r matches Err(KeygenError::EntropyUnavailable) ==> slots(
            parse_spec(spec@, default as nat)->0,
        ).len() > 0,
        r matches Ok(es) ==> entries_fit(
            es@,
            slots(parse_spec(spec@, default as nat)->0),
            namespace@,
            domain@,
            port as nat,
        ),
{
    let groups = match parse_groups(spec, default) {
        Ok(g) => g,
        Err(e) => {
            return Err(e);
        },
    };
    let all = enumerate_slots(&groups);
    let ghost ss = slot_views(all@);
    let mut out: Vec<NodeKeyEntry> = Vec::new();
    let mut k: usize = 0;
    while k < all.len()
        invariant
            k <= all@.len(),
            ss == slot_views(all@),
            ss == slots(parse_spec(spec@, default as nat)->0),
            parse_spec(spec@, default as nat) is Some,
            out@.len() == k,
            forall|m: int| 0 <= m < k ==> entry_fits(#[trigger] out@[m], ss[m], namespace@, domain@, port as nat),
        decreases all@.len() - k,
    {
        let keypair = match Keypair::generate() {
            Ok(kp) => kp,
            Err(e) => {
                return Err(e);
            },
        };
        let entry = node_key_entry(&all[k], keypair, namespace, domain, port);
        out.push(entry);
        k = k + 1;
    }
    Ok(out)
}

/// Two runs with the same configuration name the same secrets in the same
/// order, and their peer addresses agree everywhere but in the identifier
/// before the `@`.
pub proof fn lemma_reruns_agree_on_names(
    spec: Seq<char>,
    default: nat,
    namespace: Seq<char>,
    domain: Seq<char>,
    port: nat,
    a: Seq<NodeKeyEntry>,
    b: Seq<NodeKeyEntry>,
)
    requires
        parse_spec(spec, default) is Some,
        entries_fit(a, slots(parse_spec(spec, default)->0), namespace, domain, port),
        entries_fit(b, slots(parse_spec(spec, default)->0), namespace, domain, port),
    ensures
        a.len() == b.len(),
        forall|k: int|
            0 <= k < a.len() ==> {
                &&& #[trigger] a[k].secret_name@ == b[k].secret_name@
                &&& a[k].peer_address@.skip(40) == b[k].peer_address@.skip(40)
                &&& a[k].peer_address@.skip(40) == "@"@ + peer_host_text(
                    slots(parse_spec(spec, default)->0)[k].0,
                    slots(parse_spec(spec, default)->0)[k].1,
                    namespace,
                    domain,
                    port,
                )
            },
{
    let ss = slots(parse_spec(spec, default)->0);
    assert forall|k: int| 0 <= k < a.len() implies {
        &&& #[trigger] a[k].secret_name@ == b[k].secret_name@
        &&& a[k].peer_address@.skip(40) == b[k].peer_address@.skip(40)
        &&& a[k].peer_address@.skip(40) == "@"@ + peer_host_text(ss[k].0, ss[k].1, namespace, domain, port)
    } by {
        assert(entry_fits(a[k], ss[k], namespace, domain, port));
        assert(entry_fits(b[k], ss[k], namespace, domain, port));
        let host = "@"@ + peer_host_text(ss[k].0, ss[k].1, namespace, domain, port);
        assert(a[k].peer_address@ =~= id_text(a[k].keypair) + host);
        assert(b[k].peer_address@ =~= id_text(b[k].keypair) + host);
        assert(a[k].peer_address@.skip(40) =~= host);
        assert(b[k].peer_address@.skip(40) =~= host);
    }
}

/// The keys of one validator: the name of its directory, its account
/// address, its keypair and the text export of its public key.
pub struct ValidatorKeys {
    pub dir_name: String,
    pub address: [u8; 20],
    pub keypair: Keypair,
    pub pubkey_text: String,
}

/// `v` is the record of validator `index` under `prefix`.
pub open spec fn validator_fits(v: ValidatorKeys, prefix: Seq<char>, index: nat) -> bool {
    &&& v.dir_name@ == validator_dir_text(prefix, index)
    &&& v.keypair.public_bytes() == ed25519_public_of(v.keypair.seed_bytes())
    &&& v.address@ == account_id_of(v.keypair.public_bytes())
    &&& v.pubkey_text@ == quoted(json_text(ed25519_tag(), base64_of(v.keypair.public_bytes())))
}

/// The record of validator `index` under `prefix` for a given keypair.
pub fn validator_keys(prefix: &str, index: usize, keypair: Keypair) -> (r: ValidatorKeys)
    ensures
        validator_fits(r, prefix@, index as nat),
        r.keypair == keypair,
{
    let dir_name = validator_dir_name(prefix, index);
    let address = keypair.account_address();
    let pubkey_text = CosmosPublicKey::of_keypair(&keypair).to_export_text();
    ValidatorKeys { dir_name, address, keypair, pubkey_text }
}

/// Generates the keys of validators `0..count` under `prefix`; fails where
/// the entropy source fails, which can only happen where `count > 0`.
pub fn generate_validator_keys(prefix: &str, count: usize) -> (r: Result<Vec<ValidatorKeys>, KeygenError>)
    ensures
        r matches Err(e) ==> e == KeygenError::EntropyUnavailable,
        r is Err ==> count > 0,
        r matches Ok(vs) ==> vs@.len() == count && forall|k: int|
            0 <= k < count ==> validator_fits(#[trigger] vs@[k], prefix@, k as nat),
{
    let mut out: Vec<ValidatorKeys> = Vec::new();
    let mut k: usize = 0;
    while k < count
        invariant
            k <= count,
            out@.len() == k,
            forall|m: int| 0 <= m < k ==> validator_fits(#[trigger] out@[m], prefix@, m as nat),
        decreases count - k,
    {
        let keypair = match Keypair::generate() {
            Ok(kp) => kp,
            Err(e) => {
                return Err(e);
            },
        };
        out.push(validator_keys(prefix, k, keypair));
        k = k + 1;
    }
    Ok(out)
}

} // verus!
