//! Server keys: strings of the form `network@address`.

use vstd::prelude::*;
use vstd::string::StrSliceExecFns;

verus! {

/// The position of the first `@` in `key` at or after `from`, or the length
/// of `key` where there is none.
pub open spec fn find_at(key: Seq<char>, from: int) -> int
    decreases key.len() - from,
{
    if from < 0 || from >= key.len() {
        key.len() as int
    } else if key[from] == '@' {
        from
    } else {
        find_at(key, from + 1)
    }
}

/// Whether `key` names its network.
pub open spec fn has_network(key: Seq<char>) -> bool {
    find_at(key, 0) < key.len()
}

/// The network of a key: what stands before its first `@`, and `tcp` where
/// it has no `@`.
pub open spec fn network_of(key: Seq<char>) -> Seq<char> {
    if has_network(key) {
        key.subrange(0, find_at(key, 0))
    } else {
        "tcp"@
    }
}

/// The address of a key: what stands between its first `@` and the next
/// one, or the end; and the whole key where it has no `@`.
pub open spec fn address_of(key: Seq<char>) -> Seq<char> {
    if has_network(key) {
        key.subrange(find_at(key, 0) + 1, find_at(key, find_at(key, 0) + 1))
    } else {
        key
    }
}

/// `find_at` finds the first `@`: it lies within the key at or after
/// `from`, no `@` stands between `from` and it, and it is the length of the
/// key exactly where no `@` follows `from`.
pub proof fn lemma_find_at(key: Seq<char>, from: int)
    requires
        0 <= from <= key.len(),
    ensures
        from <= find_at(key, from) <= key.len(),
        forall|i: int| from <= i < find_at(key, from) ==> key[i] != '@',
        find_at(key, from) < key.len() ==> key[find_at(key, from)] == '@',
    decreases key.len() - from,
{
    if from < key.len() && key[from] != '@' {
        lemma_find_at(key, from + 1);
    }
}

/// A server's endpoint: the network to reach it over and its address there.
#[derive(Debug, PartialEq, Eq)]
pub struct Endpoint {
    pub network: String,
    pub address: String,
}

/// The position of the first `@` in `key` at or after `from`.
fn locate_at(key: &str, from: usize) -> (at: usize)
    requires
        from <= key@.len(),
    ensures
        at == find_at(key@, from as int),
{
    let len: usize = key.unicode_len();
    let mut i: usize = from;
    while i < len
        invariant
            from <= i <= len,
            len == key@.len(),
            find_at(key@, from as int) == find_at(key@, i as int),
        decreases len - i,
    {
        if key.get_char(i) == '@' {
            return i;
        }
        i += 1;
    }
    i
}

/// Splits a server key into network and address. A key without `@` is an
/// address on `tcp`.
pub fn parse_server_key(key: &String) -> (endpoint: Endpoint)
    ensures
        endpoint.network@ == network_of(key@),
        endpoint.address@ == address_of(key@),
{
    let text = key.as_str();
    let len: usize = text.unicode_len();
    let first: usize = locate_at(text, 0);
    proof {
        lemma_find_at(key@, 0);
    }
    if first == len {
        Endpoint { network: "tcp".to_owned(), address: key.clone() }
    } else {
        let second: usize = locate_at(text, first + 1);
        proof {
            lemma_find_at(key@, first as int + 1);
        }
        Endpoint {
            network: text.substring_char(0, first).to_owned(),
            address: text.substring_char(first + 1, second).to_owned(),
        }
    }
}

} // verus!
