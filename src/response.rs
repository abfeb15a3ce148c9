//! A batch of recipe search hits and the two passes that annotate it.

use vstd::prelude::*;
use crate::domain::{check_if_scrapable, scrapable};
use crate::sniff::{body_is_valid, valid_body};

verus! {

/// A link to a page of results.
#[derive(Default, Debug, Clone, PartialEq)]
pub struct Next {
    pub href: String,
    pub title: String,
}

/// Pagination links of a batch.
#[derive(Default, Debug, Clone, PartialEq)]
pub struct Links {
    pub next: Option<Next>,
}

/// The link of a hit to itself.
#[derive(Default, Debug, Clone, PartialEq)]
pub struct Links2 {
    pub self_field: Next,
}

/// One search result: the URL of its recipe page and the two flags that a
/// validation pass sets, both unknown (`None`) on a fresh hit.
#[derive(Default, Debug, Clone, PartialEq)]
pub struct Hit {
    pub recipe_url: String,
    pub links: Links2,
    pub is_scrapable: Option<bool>,
    pub is_valid: Option<bool>,
}

/// Why a validation pass failed as a whole.
#[derive(Debug, Clone, Copy, PartialEq, Eq)]
pub enum SetAllHitsValidError {
    /// The fetch phase failed as a whole: no bodies came back.
    GetHitBodiesFailed,
    /// A body could not be written back to its hit: the bodies did not
    /// correspond one for one to the hits.
    SetStatusFailed,
    /// The lock that guards a batch shared between tasks was poisoned.
    MutexPoisoned,
}

impl Hit {
    pub fn set_scrapable(&mut self, is_scrapable: bool)
        ensures
            final(self).is_scrapable == Some(is_scrapable),
            final(self).recipe_url == old(self).recipe_url,
            final(self).links == old(self).links,
            final(self).is_valid == old(self).is_valid,
    {
        self.is_scrapable = Some(is_scrapable);
    }

    pub fn set_valid(&mut self, is_valid: bool)
        ensures
            final(self).is_valid == Some(is_valid),
            final(self).recipe_url == old(self).recipe_url,
            final(self).links == old(self).links,
            final(self).is_scrapable == old(self).is_scrapable,
    {
        self.is_valid = Some(is_valid);
    }
}

/// A batch of search hits with its pagination data.
#[derive(Default, Debug, Clone, PartialEq)]
pub struct EdamamResponse {
    pub from: i64,
    pub to: i64,
    pub count: i64,
    pub links: Option<Links>,
    pub hits: Vec<Hit>,
}

/// `after` is `before` with, at most, the flags of its hits changed.
pub open spec fn same_but_flags(before: EdamamResponse, after: EdamamResponse) -> bool {
    &&& after.from == before.from
    &&& after.to == before.to
    &&& after.count == before.count
    &&& after.links == before.links
    &&& after.hits@.len() == before.hits@.len()
    &&& forall|i: int|
        0 <= i < before.hits@.len() ==> (#[trigger] after.hits@[i]).recipe_url
            == before.hits@[i].recipe_url && after.hits@[i].links == before.hits@[i].links
}

/// Every hit carries the flags that the allow-list `list` and the fetched
/// `bodies` (one per hit, in order) give it.
pub open spec fn annotated(hits: Seq<Hit>, list: Seq<String>, bodies: Seq<Seq<char>>) -> bool {
    &&& hits.len() == bodies.len()
    &&& forall|i: int|
        0 <= i < hits.len() ==> (#[trigger] hits[i]).is_scrapable == Some(
            scrapable(hits[i].recipe_url@, list),
        ) && hits[i].is_valid == Some(valid_body(bodies[i]))
}

/// Validation is repeatable: two batches with the same URLs, annotated from
/// the same allow-list and the same fetched bodies, carry the same flags.
pub proof fn lemma_validation_repeatable(
    first: Seq<Hit>,
    second: Seq<Hit>,
    list: Seq<String>,
    bodies: Seq<Seq<char>>,
)
    requires
        annotated(first, list, bodies),
        annotated(second, list, bodies),
        first.len() == second.len(),
        forall|i: int| 0 <= i < first.len() ==> (#[trigger] first[i]).recipe_url@ == second[i].recipe_url@,
    ensures
        forall|i: int|
            0 <= i < first.len() ==> (#[trigger] first[i]).is_scrapable == second[i].is_scrapable
                && first[i].is_valid == second[i].is_valid,
{
    assert forall|i: int| 0 <= i < first.len() implies (#[trigger] first[i]).is_scrapable == second[i].is_scrapable
        && first[i].is_valid == second[i].is_valid by {
        assert(first[i].recipe_url@ == second[i].recipe_url@);
        assert(second[i].is_scrapable == Some(scrapable(second[i].recipe_url@, list)));
    }
}

impl EdamamResponse {
    /// Sets the scrapable flag of every hit: whether the registrable domain
    /// of its URL is in `scrapable_domains`. A URL that cannot be classified
    /// makes its hit not scrapable; the pass itself never fails.
    pub fn set_all_hits_scrapable_status(&mut self, scrapable_domains: &[String])
        ensures
            same_but_flags(*old(self), *final(self)),
            forall|i: int|
                0 <= i < old(self).hits@.len() ==> (#[trigger] final(self).hits@[i]).is_scrapable
                    == Some(scrapable(old(self).hits@[i].recipe_url@, scrapable_domains@))
                    && final(self).hits@[i].is_valid == old(self).hits@[i].is_valid,
    {
        let mut i: usize = 0;
        while i < self.hits.len()
            invariant
                same_but_flags(*old(self), *self),
                0 <= i <= self.hits@.len(),
                forall|j: int|
                    0 <= j < i ==> (#[trigger] self.hits@[j]).is_scrapable == Some(
                        scrapable(old(self).hits@[j].recipe_url@, scrapable_domains@),
                    ),
                forall|j: int|
                    0 <= j < self.hits@.len() ==> (#[trigger] self.hits@[j]).is_valid
                        == old(self).hits@[j].is_valid,
            decreases self.hits@.len() - i,
        {
            let flag = match check_if_scrapable(self.hits[i].recipe_url.as_str(), scrapable_domains) {
                Ok(b) => b,
                Err(_) => false,
            };
            self.hits[i].set_scrapable(flag);
            i = i + 1;
        }
    }

    /// The URL of each hit, in order.
    pub fn hit_urls(&self) -> (r: Vec<String>)
        ensures
            r@.len() == self.hits@.len(),
            forall|i: int| 0 <= i < r@.len() ==> (#[trigger] r@[i])@ == self.hits@[i].recipe_url@,
    {
        let mut urls: Vec<String> = Vec::new();
        let mut i: usize = 0;
        while i < self.hits.len()
            invariant
                0 <= i <= self.hits@.len(),
                urls@.len() == i,
                forall|j: int| 0 <= j < i ==> (#[trigger] urls@[j])@ == self.hits@[j].recipe_url@,
            decreases self.hits@.len() - i,
        {
            urls.push(self.hits[i].recipe_url.clone());
            i = i + 1;
        }
        urls
    }

    /// Sets the valid flag of every hit from the body fetched for it:
    /// `bodies[i]` belongs to hit `i`, and an empty body stands for a failed
    /// fetch. A body that cannot be sniffed makes its hit not valid. `None`
    /// for `bodies` means that the fetch phase failed as a whole.
    pub fn set_all_hits_valid_status(&mut self, bodies: Option<Vec<String>>) -> (r: Result<
        (),
        SetAllHitsValidError,
    >)
        ensures
            same_but_flags(*old(self), *final(self)),
            forall|i: int|
                0 <= i < old(self).hits@.len() ==> (#[trigger] final(self).hits@[i]).is_scrapable
                    == old(self).hits@[i].is_scrapable,
            bodies is None ==> r == Err::<(), SetAllHitsValidError>(
                SetAllHitsValidError::GetHitBodiesFailed,
            ) && *final(self) == *old(self),
            bodies is Some ==> (r is Ok <==> bodies->Some_0@.len() == old(self).hits@.len()),
            bodies is Some && r is Err ==> r == Err::<(), SetAllHitsValidError>(
                SetAllHitsValidError::SetStatusFailed,
            ),
            bodies is Some ==> forall|i: int|
                0 <= i < old(self).hits@.len() ==> (#[trigger] final(self).hits@[i]).is_valid
                    == if i < bodies->Some_0@.len() {
                    Some(valid_body(bodies->Some_0@[i]@))
                } else {
                    old(self).hits@[i].is_valid
                },
    {
        let fetched = match bodies {
            None => {
                return Err(SetAllHitsValidError::GetHitBodiesFailed);
            },
            Some(b) => b,
        };
        assert(bodies == Some(fetched));
        let mut i: usize = 0;
        while i < self.hits.len() && i < fetched.len()
            invariant
                same_but_flags(*old(self), *self),
                0 <= i <= self.hits@.len(),
                i <= fetched@.len(),
                forall|j: int|
                    0 <= j < self.hits@.len() ==> (#[trigger] self.hits@[j]).is_scrapable
                        == old(self).hits@[j].is_scrapable,
                forall|j: int|
                    0 <= j < self.hits@.len() ==> (#[trigger] self.hits@[j]).is_valid == if j < i {
                        Some(valid_body(fetched@[j]@))
                    } else {
                        old(self).hits@[j].is_valid
                    },
            decreases self.hits@.len() - i,
        {
            let valid = body_is_valid(fetched[i].clone());
            self.hits[i].set_valid(valid);
            i = i + 1;
        }
        if self.hits.len() == fetched.len() {
            Ok(())
        } else {
            Err(SetAllHitsValidError::SetStatusFailed)
        }
    }

    /// One validation pass: classifies every hit against the allow-list, then
    /// sniffs the body fetched for each hit.
    pub fn validate_batch(&mut self, scrapable_domains: &[String], bodies: Option<Vec<String>>) -> (r:
        Result<(), SetAllHitsValidError>)
        ensures
            same_but_flags(*old(self), *final(self)),
            match bodies {
                None => r == Err::<(), SetAllHitsValidError>(
                    SetAllHitsValidError::GetHitBodiesFailed,
                ),
                Some(b) => (r is Ok <==> b@.len() == old(self).hits@.len()) && (r is Err ==> r
                    == Err::<(), SetAllHitsValidError>(SetAllHitsValidError::SetStatusFailed)),
            },
            r is Ok ==> annotated(
                final(self).hits@,
                scrapable_domains@,
                bodies->Some_0@.map_values(|s: String| s@),
            ),
    {
        self.set_all_hits_scrapable_status(scrapable_domains);
        let ghost b = bodies;
        let r = self.set_all_hits_valid_status(bodies);
        proof {
            if r is Ok {
                let bs = b->Some_0@.map_values(|s: String| s@);
                assert forall|i: int| 0 <= i < self.hits@.len() implies (#[trigger] self.hits@[i]).is_scrapable == Some(
                    scrapable(self.hits@[i].recipe_url@, scrapable_domains@),
                ) && self.hits@[i].is_valid == Some(valid_body(bs[i])) by {
                }
            }
        }
        r
    }
}

} // verus!
