//! Names and addresses derived from a slot: secret names, validator
//! directory names and peer addresses.
use vstd::prelude::*;
use crate::text::{decimal, push_decimal};

verus! {

/// `<group>-node-key-<index>`.
pub open spec fn secret_name_text(group: Seq<char>, index: nat) -> Seq<char> {
    group + "-node-key-"@ + decimal(index)
}

/// `<group>-p2p-<index>.<namespace>.<domain>:<port>`.
pub open spec fn peer_host_text(
    group: Seq<char>,
    index: nat,
    namespace: Seq<char>,
    domain: Seq<char>,
    port: nat,
) -> Seq<char> {
    group + "-p2p-"@ + decimal(index) + "."@ + namespace + "."@ + domain + ":"@ + decimal(port)
}

/// `<id>@<host>`, the host as `peer_host_text` gives it.
pub open spec fn peer_address_text(
    id: Seq<char>,
    group: Seq<char>,
    index: nat,
    namespace: Seq<char>,
    domain: Seq<char>,
    port: nat,
) -> Seq<char> {
    id + "@"@ + peer_host_text(group, index, namespace, domain, port)
}

/// `<prefix><index>`.
pub open spec fn validator_dir_text(prefix: Seq<char>, index: nat) -> Seq<char> {
    prefix + decimal(index)
}

/// The name of the secret that holds the node key of slot `index` of `group`.
pub fn secret_name(group: &str, index: usize) -> (r: String)
    ensures
        r@ == secret_name_text(group@, index as nat),
{
    let mut s = group.to_owned();
    s.append("-node-key-");
    push_decimal(&mut s, index as u64);
    s
}

/// The name of the directory that holds the keys of validator `index`.
pub fn validator_dir_name(prefix: &str, index: usize) -> (r: String)
    ensures
        r@ == validator_dir_text(prefix@, index as nat),
{
    let mut s = prefix.to_owned();
    push_decimal(&mut s, index as u64);
    s
}

/// The peer address of node `index` of `group`, known by identifier `id`.
/// Nothing is escaped: names holding `@`, `:` or `.` give ambiguous
/// addresses.
pub fn compose_peer_address(
    id: &str,
    group: &str,
    index: usize,
    namespace: &str,
    domain: &str,
    port: u16,
) -> (r: String)
    ensures
        r@ == peer_address_text(id@, group@, index as nat, namespace@, domain@, port as nat),
{
    let mut s = id.to_owned();
    s.append("@");
    s.append(group);
    s.append("-p2p-");
    push_decimal(&mut s, index as u64);
    s.append(".");
    s.append(namespace);
    s.append(".");
    s.append(domain);
    s.append(":");
    push_decimal(&mut s, port as u64);
    proof {
        assert(s@ =~= peer_address_text(id@, group@, index as nat, namespace@, domain@, port as nat));
    }
    s
}

} // verus!
