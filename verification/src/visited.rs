//! The shared visited set: normalized absolute URLs, each claimed at most
//! once per run.

use vstd::prelude::*;

verus! {

/// The set of URLs already claimed for fetching during a run.
///
/// The set only grows: nothing is removed while a run is in flight.  The
/// check-and-insert operation `try_claim` is the single gate that grants the
/// exclusive right to fetch a URL, so each URL is fetched at most once.
pub struct VisitedSet {
    urls: Vec<String>,
}

impl View for VisitedSet {
    type V = Seq<Seq<char>>;

    closed spec fn view(&self) -> Seq<Seq<char>> {
        self.urls.deep_view()
    }
}

impl VisitedSet {
    /// The URLs listed at most once each.
    pub open spec fn wf(self) -> bool {
        self@.no_duplicates()
    }

    /// Membership, as a set of character sequences.
    pub open spec fn has(self, url: Seq<char>) -> bool {
        self@.contains(url)
    }

    /// The mathematical set of member URLs.
    pub open spec fn to_set(self) -> Set<Seq<char>> {
        self@.to_set()
    }

    /// An empty visited set.
    pub fn new() -> (r: Self)
        ensures
            r@ == Seq::<Seq<char>>::empty(),
            r.wf(),
    {
        VisitedSet { urls: Vec::new() }
    }

    /// How many URLs are members.
    pub fn len(&self) -> (r: usize)
        ensures
            r == self@.len(),
    {
        self.urls.len()
    }

    /// Borrow the members, in insertion order.
    pub fn urls(&self) -> (r: &Vec<String>)
        ensures
            r.deep_view() == self@,
    {
        &self.urls
    }

    /// Whether `url` is already a member.
    pub fn contains(&self, url: &String) -> (r: bool)
        ensures
            r == self.has(url@),
    {
        let mut i: usize = 0;
        while i < self.urls.len()
            invariant
                i <= self.urls.len(),
                forall|k: int| 0 <= k < i ==> self@[k] != url@,
            decreases self.urls.len() - i,
        {
            assert(self@[i as int] == self.urls@[i as int]@);
            if self.urls[i] == *url {
                return true;
            }
            i += 1;
        }
        false
    }

    /// Atomically check and insert: returns `true` and inserts `url` when it
    /// was absent, returns `false` and changes nothing when it was present.
    pub fn try_claim(&mut self, url: &String) -> (r: bool)
        requires
            old(self).wf(),
        ensures
            final(self).wf(),
            r == !old(self).has(url@),
            r ==> final(self)@ == old(self)@.push(url@),
            !r ==> *final(self) == *old(self),
            final(self).has(url@),
            forall|u: Seq<char>| old(self).has(u) ==> final(self).has(u),
            forall|u: Seq<char>| final(self).has(u) ==> old(self).has(u) || u == url@,
    {
        if self.contains(url) {
            false
        } else {
            let ghost pre = self@;
            self.urls.push(url.clone());
            proof {
                assert(self@ =~= pre.push(url@));
                assert(self@[pre.len() as int] == url@);
                assert forall|u: Seq<char>| pre.contains(u) implies self@.contains(u) by {
                    let k = choose|k: int| 0 <= k < pre.len() && pre[k] == u;
                    assert(self@[k] == u);
                }
                assert forall|u: Seq<char>| self@.contains(u) implies pre.contains(u) || u
                    == url@ by {
                    let k = choose|k: int| 0 <= k < self@.len() && self@[k] == u;
                    if k < pre.len() {
                        assert(pre[k] == u);
                    }
                }
            }
            true
        }
    }

    /// Insert `url` if absent; used when reloading a persisted visited list.
    pub fn insert(&mut self, url: String)
        requires
            old(self).wf(),
        ensures
            final(self).wf(),
            final(self).to_set() == old(self).to_set().insert(url@),
            final(self).has(url@),
            forall|u: Seq<char>| old(self).has(u) ==> final(self).has(u),
            forall|u: Seq<char>| final(self).has(u) ==> old(self).has(u) || u == url@,
    {
        let ghost pre = *old(self);
        let claimed = self.try_claim(&url);
        proof {
            broadcast use vstd::set::group_set_axioms;

            assert forall|a: Seq<char>|
                self.to_set().contains(a) == pre.to_set().insert(url@).contains(a) by {
                assert(self.to_set().contains(a) == self@.contains(a));
                assert(pre.to_set().contains(a) == pre@.contains(a));
                assert(self.has(a) <==> (pre.has(a) || a == url@));
            }
            assert(self.to_set() =~= pre.to_set().insert(url@));
        }
    }
}

} // verus!
