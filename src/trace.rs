//! Reading hops out of a traceroute's output and choosing three targets.

use vstd::prelude::*;
use crate::address::{public_addr, HostAddr};
use crate::words::{space_pred, split_words, words};

verus! {

/// How a platform's trace utility frames its output: the number of banner
/// lines before the first hop, and which word of a hop line holds the
/// hop's address.
#[derive(PartialEq, Eq, Structural, Debug, Clone, Copy)]
pub struct TraceFormat {
    pub banner_lines: usize,
    pub field: usize,
}

impl TraceFormat {
    /// `tracert -d`: four banner lines, the address as the eighth word.
    pub fn windows() -> (r: TraceFormat)
        ensures
            r.banner_lines == 4,
            r.field == 7,
    {
        TraceFormat { banner_lines: 4, field: 7 }
    }

    /// `traceroute -n`: one banner line, the address as the second word.
    pub fn unix() -> (r: TraceFormat)
        ensures
            r.banner_lines == 1,
            r.field == 1,
    {
        TraceFormat { banner_lines: 1, field: 1 }
    }

    /// The word of a hop line that should hold the hop's address; `None`
    /// when the line has too few words.
    pub fn hop_token(&self, line: &Vec<char>) -> (r: Option<Vec<char>>)
        ensures
            r is Some <==> self.field < words(line@, space_pred(false)).len(),
            r matches Some(t) ==> t@ == words(line@, space_pred(false))[self.field as int],
    {
        let mut ws = split_words(line, false);
        if self.field < ws.len() {
            let t = ws.swap_remove(self.field);
            Some(t)
        } else {
            None
        }
    }
}

/// One hop of a trace: no response (a timeout, or a word that does not
/// resolve), or a host and the first address it resolves to.
#[derive(Debug)]
pub enum TraceHop {
    NoResponse,
    Responded { host: Vec<char>, addr: HostAddr },
}

pub open spec fn responds(h: TraceHop) -> bool {
    h is Responded
}

pub open spec fn public_hop(h: TraceHop) -> bool {
    match h {
        TraceHop::Responded { addr, .. } => public_addr(addr),
        TraceHop::NoResponse => false,
    }
}

/// Whether hops `a`, `b`, `c` of the trace are, in order, a responding hop
/// and two public ones after it.
pub open spec fn candidate(hops: Seq<TraceHop>, a: int, b: int, c: int) -> bool {
    0 <= a < b < c < hops.len() && responds(hops[a]) && public_hop(hops[b]) && public_hop(hops[c])
}

/// The three targets of a trace, by position: the first hop that responds,
/// then the first two publicly routable hops after it. `None` when the
/// trace holds no such three.
pub fn select_hops(hops: &Vec<TraceHop>) -> (r: Option<(usize, usize, usize)>)
    ensures
        r is None <==> forall|a: int, b: int, c: int| !candidate(hops@, a, b, c),
        r matches Some((a, b, c)) ==> {
            &&& candidate(hops@, a as int, b as int, c as int)
            &&& forall|i: int| 0 <= i < a ==> !responds(#[trigger] hops@[i])
            &&& forall|i: int| a < i < b ==> !public_hop(#[trigger] hops@[i])
            &&& forall|i: int| b < i < c ==> !public_hop(#[trigger] hops@[i])
        },
{
    let n = hops.len();
    let mut a: usize = 0;
    while a < n
        invariant
            n == hops@.len(),
            a <= n,
            forall|i: int| 0 <= i < a ==> !responds(#[trigger] hops@[i]),
        ensures
            a <= n,
            forall|i: int| 0 <= i < a ==> !responds(#[trigger] hops@[i]),
            a < n ==> responds(hops@[a as int]),
        decreases n - a,
    {
        if let TraceHop::Responded { .. } = &hops[a] {
            break;
        }
        a = a + 1;
    }
    if a == n {
        assert forall|x: int, y: int, z: int| !candidate(hops@, x, y, z) by {
            if candidate(hops@, x, y, z) {
                assert(!responds(hops@[x]));
            }
        }
        return None;
    }
    let mut found: Vec<usize> = Vec::new();
    let mut i: usize = a + 1;
    while i < n && found.len() < 2
        invariant
            n == hops@.len(),
            a < i <= n,
            responds(hops@[a as int]),
            found@.len() <= 2,
            forall|k: int| 0 <= k < found@.len() ==> a < #[trigger] found@[k] < i
                && public_hop(hops@[found@[k] as int]),
            found@.len() == 2 ==> found@[0] < found@[1],
            forall|j: int| a < j < i && public_hop(#[trigger] hops@[j]) ==>
                (found@.len() >= 1 && j >= found@[0]),
            forall|j: int| a < j < i && public_hop(#[trigger] hops@[j]) && j != found@[0] ==>
                (found@.len() == 2 && j >= found@[1]),
        decreases n - i,
    {
        let public = match &hops[i] {
            TraceHop::Responded { addr, .. } => addr.is_public(),
            TraceHop::NoResponse => false,
        };
        if public {
            found.push(i);
        }
        i = i + 1;
    }
    if found.len() < 2 {
        assert forall|x: int, y: int, z: int| !candidate(hops@, x, y, z) by {
            if candidate(hops@, x, y, z) {
                if x < a {
                    assert(!responds(hops@[x]));
                } else {
                    assert(public_hop(hops@[y]));
                    assert(public_hop(hops@[z]));
                }
            }
        }
        return None;
    }
    assert(candidate(hops@, a as int, found@[0] as int, found@[1] as int));
    Some((a, found[0], found[1]))
}

} // verus!
