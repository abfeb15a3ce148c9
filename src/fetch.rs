//! Bounded fetching: the admission and bookkeeping half of fetching one page
//! per URL with at most a fixed number of requests in flight. The caller
//! performs the requests; this state decides which URL goes next and keeps each
//! outcome under the index of its URL.

use vstd::prelude::*;

verus! {

/// The most requests in flight at any instant.
pub const CONCURRENT_REQUESTS: usize = 20;

/// The page body that stands for a fetch outcome: the body, or the empty
/// string when the fetch failed.
pub open spec fn body_or_empty(outcome: Option<Seq<char>>) -> Seq<char> {
    match outcome {
        Some(b) => b,
        None => Seq::empty(),
    }
}

/// The abstract state of a [`BoundedFetcher`].
pub ghost struct FetchState {
    /// The index of the next URL to admit; URLs are admitted in order.
    pub next: nat,
    /// The indices admitted and not yet completed.
    pub outstanding: Seq<nat>,
    /// For each URL, its body once completed.
    pub bodies: Seq<Option<Seq<char>>>,
}

impl FetchState {
    pub open spec fn wf(self) -> bool {
        &&& self.next <= self.bodies.len()
        &&& self.outstanding.len() <= CONCURRENT_REQUESTS
        &&& self.outstanding.no_duplicates()
        &&& forall|k: int|
            0 <= k < self.outstanding.len() ==> #[trigger] self.outstanding[k] < self.next
        &&& forall|i: int|
            0 <= i < self.bodies.len() ==> (#[trigger] self.bodies[i] is None <==> (i >= self.next
                || self.outstanding.contains(i as nat)))
    }

    /// Every URL has been admitted and completed.
    pub open spec fn done(self) -> bool {
        self.next == self.bodies.len() && self.outstanding.len() == 0
    }
}

/// In every well-formed state at most [`CONCURRENT_REQUESTS`] requests are
/// in flight, every in-flight index is a URL of the input, and a finished run
/// holds exactly one body per URL.
pub proof fn lemma_bounded_in_flight(s: FetchState)
    requires
        s.wf(),
    ensures
        s.outstanding.len() <= CONCURRENT_REQUESTS,
        forall|k: int| 0 <= k < s.outstanding.len() ==> #[trigger] s.outstanding[k] < s.bodies.len(),
        s.done() ==> forall|i: int| 0 <= i < s.bodies.len() ==> #[trigger] s.bodies[i] is Some,
{
    assert forall|k: int| 0 <= k < s.outstanding.len() implies #[trigger] s.outstanding[k] < s.bodies.len() by {
        assert(s.outstanding[k] < s.next);
    }
}

/// A run never gets stuck: until it is done, either a request is in flight,
/// whose completion is awaited, or the next URL can be handed out.
pub proof fn lemma_progress(s: FetchState)
    requires
        s.wf(),
        !s.done(),
    ensures
        s.outstanding.len() > 0 || (s.outstanding.len() < CONCURRENT_REQUESTS && s.next
            < s.bodies.len()),
{
}

/// Admission control and result collection for fetching `n` URLs.
pub struct BoundedFetcher {
    next: usize,
    outstanding: Vec<usize>,
    bodies: Vec<Option<String>>,
}

pub open spec fn opt_view(o: Option<String>) -> Option<Seq<char>> {
    match o {
        Some(s) => Some(s@),
        None => None,
    }
}

impl View for BoundedFetcher {
    type V = FetchState;

    closed spec fn view(&self) -> FetchState {
        FetchState {
            next: self.next as nat,
            outstanding: self.outstanding@.map_values(|i: usize| i as nat),
            bodies: self.bodies@.map_values(|o: Option<String>| opt_view(o)),
        }
    }
}

impl BoundedFetcher {
    pub open spec fn wf(&self) -> bool {
        self@.wf()
    }

    /// A fetcher for `n` URLs, none admitted yet.
    pub fn new(n: usize) -> (r: Self)
        ensures
            r.wf(),
            r@.next == 0,
            r@.outstanding.len() == 0,
            r@.bodies.len() == n,
    {
        let mut bodies: Vec<Option<String>> = Vec::new();
        let mut i: usize = 0;
        while i < n
            invariant
                0 <= i <= n,
                bodies@.len() == i,
                forall|j: int| 0 <= j < i ==> #[trigger] bodies@[j] is None,
            decreases n - i,
        {
            bodies.push(None);
            i = i + 1;
        }
        let r = BoundedFetcher { next: 0, outstanding: Vec::new(), bodies };
        assert(r@.outstanding.len() == 0);
        assert forall|j: int| 0 <= j < r@.bodies.len() implies (#[trigger] r@.bodies[j] is None
            <==> (j >= r@.next || r@.outstanding.contains(j as nat))) by {
            assert(r@.bodies[j] == opt_view(bodies@[j]));
        }
        r
    }

    /// The number of URLs.
    pub fn len(&self) -> (r: usize)
        ensures
            r == self@.bodies.len(),
    {
        self.bodies.len()
    }

    /// Hands out the next URL, in input order, when fewer than
    /// [`CONCURRENT_REQUESTS`] are in flight; returns its index.
    pub fn next_request(&mut self) -> (r: Option<usize>)
        requires
            old(self).wf(),
        ensures
            final(self).wf(),
            if old(self)@.outstanding.len() < CONCURRENT_REQUESTS && old(self)@.next < old(
                self,
            )@.bodies.len() {
                &&& r == Some(old(self)@.next as usize)
                &&& final(self)@ == (FetchState {
                    next: old(self)@.next + 1,
                    outstanding: old(self)@.outstanding.push(old(self)@.next),
                    bodies: old(self)@.bodies,
                })
            } else {
                r is None && final(self)@ == old(self)@
            },
    {
        if self.outstanding.len() < CONCURRENT_REQUESTS && self.next < self.bodies.len() {
            let i = self.next;
            let ghost before = self@;
            self.outstanding.push(i);
            self.next = i + 1;
            proof {
                assert(self@.outstanding == before.outstanding.push(i as nat));
                assert(self@.bodies == before.bodies);
                assert forall|k: int| 0 <= k < self@.outstanding.len() implies #[trigger] self@.outstanding[k] < self@.next by {
                    if k < before.outstanding.len() {
                        assert(self@.outstanding[k] == before.outstanding[k]);
                    }
                }
                assert forall|j: int| 0 <= j < self@.bodies.len() implies (#[trigger] self@.bodies[j] is None
                    <==> (j >= self@.next || self@.outstanding.contains(j as nat))) by {
                    if j == i {
                        assert(self@.outstanding[before.outstanding.len() as int] == j);
                    } else if self@.outstanding.contains(j as nat) {
                        let k = choose|k: int| 0 <= k < self@.outstanding.len() && self@.outstanding[k] == j as nat;
                        assert(before.outstanding[k] == j as nat);
                    } else if before.outstanding.contains(j as nat) {
                        let k = choose|k: int| 0 <= k < before.outstanding.len() && before.outstanding[k] == j as nat;
                        assert(self@.outstanding[k] == j as nat);
                    }
                }
                assert(!before.outstanding.contains(i as nat));
            }
            Some(i)
        } else {
            None
        }
    }

    /// Records the outcome of the request for URL `index`: its body, or `None`
    /// when the request failed, which is kept as the empty body. Returns
    /// `false`, changing nothing, when `index` is not in flight.
    pub fn complete(&mut self, index: usize, outcome: Option<String>) -> (r: bool)
        requires
            old(self).wf(),
        ensures
            final(self).wf(),
            r == old(self)@.outstanding.contains(index as nat),
            r ==> final(self)@.next == old(self)@.next
                && final(self)@.outstanding.len() + 1 == old(self)@.outstanding.len()
                && (forall|x: nat| #[trigger] final(self)@.outstanding.contains(x)
                    <==> (old(self)@.outstanding.contains(x) && x != index))
                && final(self)@.bodies == old(self)@.bodies.update(
                    index as int,
                    Some(body_or_empty(opt_view(outcome))),
                ),
            !r ==> final(self)@ == old(self)@,
    {
        let mut k: usize = 0;
        while k < self.outstanding.len()
            invariant
                self.wf(),
                *self == *old(self),
                0 <= k <= self.outstanding@.len(),
                forall|j: int| 0 <= j < k ==> #[trigger] self.outstanding@[j] != index,
            ensures
                *self == *old(self),
                0 <= k <= self.outstanding@.len(),
                forall|j: int| 0 <= j < k ==> #[trigger] self.outstanding@[j] != index,
                k < self.outstanding@.len() ==> self.outstanding@[k as int] == index,
            decreases self.outstanding@.len() - k,
        {
            if self.outstanding[k] == index {
                break;
            }
            k = k + 1;
        }
        if k == self.outstanding.len() {
            proof {
                if self@.outstanding.contains(index as nat) {
                    let j = choose|j: int| 0 <= j < self@.outstanding.len() && self@.outstanding[j] == index as nat;
                    assert(self.outstanding@[j] == index);
                }
            }
            return false;
        }
        let ghost before = self@;
        assert(before.outstanding[k as int] == index as nat);
        let body = match outcome {
            Some(b) => b,
            None => String::new(),
        };
        self.outstanding.remove(k);
        self.bodies[index] = Some(body);
        proof {
            assert(self@.outstanding == before.outstanding.remove(k as int));
            assert(self@.bodies == before.bodies.update(index as int, Some(body_or_empty(opt_view(outcome)))));
            assert forall|x: nat| #[trigger] self@.outstanding.contains(x)
                <==> (before.outstanding.contains(x) && x != index) by {
                if self@.outstanding.contains(x) {
                    let j = choose|j: int| 0 <= j < self@.outstanding.len() && self@.outstanding[j] == x;
                    if j < k {
                        assert(before.outstanding[j] == x);
                    } else {
                        assert(before.outstanding[j + 1] == x);
                    }
                }
                if before.outstanding.contains(x) && x != index {
                    let j = choose|j: int| 0 <= j < before.outstanding.len() && before.outstanding[j] == x;
                    if j < k {
                        assert(self@.outstanding[j] == x);
                    } else {
                        assert(self@.outstanding[j - 1] == x);
                    }
                }
            }
            assert forall|a: int| 0 <= a < self@.outstanding.len() implies #[trigger] self@.outstanding[a] < self@.next by {
                if a < k {
                    assert(self@.outstanding[a] == before.outstanding[a]);
                } else {
                    assert(self@.outstanding[a] == before.outstanding[a + 1]);
                }
            }
            assert forall|a: int, b: int| 0 <= a < self@.outstanding.len() && 0 <= b < self@.outstanding.len() && a != b
                implies #[trigger] self@.outstanding[a] != #[trigger] self@.outstanding[b] by {
                let a1 = if a < k { a } else { a + 1 };
                let b1 = if b < k { b } else { b + 1 };
                assert(self@.outstanding[a] == before.outstanding[a1]);
                assert(self@.outstanding[b] == before.outstanding[b1]);
            }
            assert forall|j: int| 0 <= j < self@.bodies.len() implies (#[trigger] self@.bodies[j] is None
                <==> (j >= self@.next || self@.outstanding.contains(j as nat))) by {
                if j != index {
                    assert(self@.bodies[j] == before.bodies[j]);
                    assert(self@.outstanding.contains(j as nat) == before.outstanding.contains(j as nat));
                } else {
                    assert(!self@.outstanding.contains(j as nat));
                }
            }
        }
        true
    }

    /// Every URL has been admitted and completed.
    pub fn is_done(&self) -> (r: bool)
        requires
            self.wf(),
        ensures
            r == self@.done(),
    {
        self.next == self.bodies.len() && self.outstanding.len() == 0
    }

    /// The bodies, one per URL, each under the index of its URL.
    pub fn into_bodies(self) -> (r: Vec<String>)
        requires
            self.wf(),
            self@.done(),
        ensures
            r@.len() == self@.bodies.len(),
            forall|i: int| 0 <= i < r@.len() ==> self@.bodies[i] == Some(#[trigger] r@[i]@),
    {
        let ghost st = self@;
        let ghost n = st.bodies.len() as int;
        let mut out: Vec<String> = Vec::new();
        let mut rest = self.bodies;
        while rest.len() > 0
            invariant
                st.wf(),
                st.done(),
                n == st.bodies.len(),
                out@.len() + rest@.len() == n,
                forall|j: int| 0 <= j < rest@.len() ==> opt_view(#[trigger] rest@[j]) == st.bodies[out@.len() + j],
                forall|j: int| 0 <= j < out@.len() ==> st.bodies[j] == Some(#[trigger] out@[j]@),
            decreases rest@.len(),
        {
            let ghost k = out@.len() as int;
            assert(opt_view(rest@[0]) == st.bodies[k]);
            assert(st.bodies[k] is Some);
            let ghost old_rest = rest@;
            let first = rest.remove(0);
            match first {
                Some(b) => out.push(b),
                None => out.push(String::new()),
            }
            assert forall|j: int| 0 <= j < rest@.len() implies opt_view(#[trigger] rest@[j]) == st.bodies[out@.len() + j] by {
                assert(rest@[j] == old_rest[j + 1]);
            }
            assert forall|j: int| 0 <= j < out@.len() implies st.bodies[j] == Some(#[trigger] out@[j]@) by {
                if j == k {
                } else {
                    assert(out@[j] == out@.drop_last()[j]);
                }
            }
        }
        out
    }
}

} // verus!
