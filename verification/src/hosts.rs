//! Allowed hosts: the patterns that a request's host is held against.
//!
//! A configuration only tidies them: each pattern loses the white space
//! around it. What a pattern matches is for the server to say.

use crate::text::{trim, trimmed};
use vstd::prelude::*;

verus! {

/// `hosts`, each without the white space around it: as many as given, in
/// the order given, equal ones kept.
pub open spec fn normalized_hosts(hosts: Seq<Seq<char>>) -> Seq<Seq<char>> {
    hosts.map_values(|host: Seq<char>| trimmed(host))
}

/// Tidies the allowed hosts: the result holds, at each place, the host given
/// at that place without the white space around it.
pub fn normalize_hosts(hosts: &Vec<String>) -> (tidy: Vec<String>)
    ensures
        tidy.deep_view() == normalized_hosts(hosts.deep_view()),
        tidy@.len() == hosts@.len(),
        forall|i: int| 0 <= i < hosts@.len() ==> (#[trigger] tidy@[i])@ == trimmed(hosts@[i]@),
{
    let n: usize = hosts.len();
    let mut tidy: Vec<String> = Vec::new();
    let mut i: usize = 0;
    while i < n
        invariant
            n == hosts@.len(),
            i <= n,
            tidy@.len() == i,
            forall|j: int| 0 <= j < i ==> (#[trigger] tidy@[j])@ == trimmed(hosts@[j]@),
        decreases n - i,
    {
        tidy.push(trim(hosts[i].as_str()).to_owned());
        i += 1;
    }
    tidy
}

} // verus!
