//! Which network address the stream is announced on.

use vstd::prelude::*;

use crate::text::{contains_str, contains_text};

verus! {

/// What the address choice reads of a network interface.
pub struct NetworkInterface {
    /// The interface name, such as `eth0` or `virbr0`.
    pub name: String,
    /// The interface is up.
    pub is_up: bool,
    /// The interface is a loopback interface.
    pub is_loopback: bool,
    /// Its IP addresses, each in the usual text form, in the order the
    /// system lists them.
    pub ips: Vec<String>,
}

/// An interface the stream can be announced on: up, not loopback, with at
/// least one IP address, and not a virtual bridge (`virbr` in its name).
pub open spec fn is_usable_interface(e: NetworkInterface) -> bool {
    &&& e.is_up
    &&& !e.is_loopback
    &&& e.ips@.len() > 0
    &&& !contains_text(e.name@, "virbr"@)
}

/// `i` is the first usable interface of `s`.
pub open spec fn is_first_usable(s: Seq<NetworkInterface>, i: int) -> bool {
    &&& 0 <= i < s.len()
    &&& is_usable_interface(s[i])
    &&& forall|j: int| 0 <= j < i ==> !is_usable_interface(#[trigger] s[j])
}

/// The address announced when no interface is usable.
pub open spec fn unspecified_address() -> Seq<char> {
    "0.0.0.0"@
}

/// The IP address the stream is announced on for the interfaces `s`: the
/// first address of the first usable interface, or `0.0.0.0` when no
/// interface is usable.
pub open spec fn spec_ip_addr(s: Seq<NetworkInterface>) -> Seq<char> {
    if exists|i: int| is_first_usable(s, i) {
        s[choose|i: int| is_first_usable(s, i)].ips@[0]@
    } else {
        unspecified_address()
    }
}

/// An interface is usable exactly when it is up, not loopback, has at least
/// one IP address, and the five characters `virbr` occur nowhere in its
/// name: other bridges, such as `br0` or `vmbr0`, are usable.
pub proof fn lemma_usable_exact(e: NetworkInterface)
    ensures
        is_usable_interface(e) == (e.is_up && !e.is_loopback && e.ips@.len() > 0 && !(exists|i: int|
            0 <= i && i + 5 <= e.name@.len() && #[trigger] e.name@.subrange(i, i + 5) == "virbr"@)),
{
    reveal_strlit("virbr");
    assert("virbr"@.len() == 5);
}

/// Whether the interface is usable for the stream.
pub fn is_usable(e: &NetworkInterface) -> (r: bool)
    ensures
        r == is_usable_interface(*e),
        r == (e.is_up && !e.is_loopback && e.ips@.len() > 0 && !(exists|i: int|
            0 <= i && i + 5 <= e.name@.len() && #[trigger] e.name@.subrange(i, i + 5) == "virbr"@)),
{
    proof {
        lemma_usable_exact(*e);
    }
    e.is_up && !e.is_loopback && e.ips.len() > 0 && !contains_str(e.name.as_str(), "virbr")
}

/// The index of the first usable interface, if there is one.
pub fn default_interface(interfaces: &Vec<NetworkInterface>) -> (r: Option<usize>)
    ensures
        match r {
            Some(i) => is_first_usable(interfaces@, i as int),
            None => forall|j: int| 0 <= j < interfaces@.len() ==> !is_usable_interface(#[trigger] interfaces@[j]),
        },
{
    let n = interfaces.len();
    for i in 0..n
        invariant
            n == interfaces@.len(),
            forall|j: int| 0 <= j < i ==> !is_usable_interface(#[trigger] interfaces@[j]),
    {
        if is_usable(&interfaces[i]) {
            return Some(i);
        }
    }
    None
}

/// The IP address the stream is announced on: the first address of the
/// first usable interface, or `0.0.0.0` when no interface is usable.
pub fn get_ip_addr(interfaces: &Vec<NetworkInterface>) -> (r: String)
    ensures
        r@ == spec_ip_addr(interfaces@),
        forall|k: int|
            0 <= k < interfaces@.len() && is_usable_interface(#[trigger] interfaces@[k]) && (forall|j: int|
                0 <= j < k ==> !is_usable_interface(interfaces@[j])) ==> r@ == interfaces@[k].ips@[0]@,
        (forall|j: int| 0 <= j < interfaces@.len() ==> !is_usable_interface(#[trigger] interfaces@[j]))
            ==> r@ == "0.0.0.0"@,
{
    proof {
        assert forall|k: int|
            0 <= k < interfaces@.len() && is_usable_interface(#[trigger] interfaces@[k]) && (forall|j: int|
                0 <= j < k ==> !is_usable_interface(interfaces@[j])) implies spec_ip_addr(interfaces@)
            == interfaces@[k].ips@[0]@ by {
            lemma_ip_addr_of_first_usable(interfaces@, k);
        }
        if forall|j: int| 0 <= j < interfaces@.len() ==> !is_usable_interface(#[trigger] interfaces@[j]) {
            lemma_ip_addr_none_usable(interfaces@);
        }
    }
    match default_interface(interfaces) {
        Some(i) => {
            let r = interfaces[i].ips[0].clone();
            proof {
                let k = choose|k: int| is_first_usable(interfaces@, k);
                lemma_first_usable_unique(interfaces@, i as int, k);
            }
            r
        },
        None => {
            proof {
                assert(!exists|k: int| is_first_usable(interfaces@, k));
            }
            String::from_str("0.0.0.0")
        },
    }
}

/// When interface `k` is usable and none before it is, the address is the
/// first entry of `k`'s addresses, however many it has.
pub proof fn lemma_ip_addr_of_first_usable(s: Seq<NetworkInterface>, k: int)
    requires
        0 <= k < s.len(),
        is_usable_interface(s[k]),
        forall|j: int| 0 <= j < k ==> !is_usable_interface(#[trigger] s[j]),
    ensures
        spec_ip_addr(s) == s[k].ips@[0]@,
{
    assert(is_first_usable(s, k));
    let c = choose|i: int| is_first_usable(s, i);
    lemma_first_usable_unique(s, k, c);
}

/// When no interface is usable, the address is `0.0.0.0`.
pub proof fn lemma_ip_addr_none_usable(s: Seq<NetworkInterface>)
    requires
        forall|j: int| 0 <= j < s.len() ==> !is_usable_interface(#[trigger] s[j]),
    ensures
        spec_ip_addr(s) == "0.0.0.0"@,
{
    assert(!exists|i: int| is_first_usable(s, i));
}

/// There is at most one first usable interface, so the address chosen by
/// `get_ip_addr` is determined by the interfaces.
pub proof fn lemma_first_usable_unique(s: Seq<NetworkInterface>, i: int, k: int)
    requires
        is_first_usable(s, i),
        is_first_usable(s, k),
    ensures
        i == k,
{
    if i < k {
        assert(!is_usable_interface(s[i]));
    } else if k < i {
        assert(!is_usable_interface(s[k]));
    }
}

} // verus!
