//! The display order of profiles: a persisted list of derived ids.

use vstd::prelude::*;
use crate::native_resp::NativeResponseEvent;
use crate::profiles::ProfilesIniState;

verus! {

/// The persisted display order.
#[derive(Debug, PartialEq)]
pub struct OrderData {
    pub order: Vec<String>,
}

impl View for OrderData {
    type V = Seq<Seq<char>>;

    open spec fn view(&self) -> Seq<Seq<char>> {
        self.order.deep_view()
    }
}

/// Whether `id` occurs among `ids`.
pub open spec fn contains_str(ids: Seq<Seq<char>>, id: Seq<char>) -> bool {
    exists|i: int| 0 <= i < ids.len() && ids[i] == id
}

/// Ids of the old order that still name a profile, in old-order sequence,
/// first occurrence kept; `seen` carries what was already emitted.
pub open spec fn order_known(
    old_order: Seq<Seq<char>>,
    ids: Seq<Seq<char>>,
    seen: Seq<Seq<char>>,
) -> Seq<Seq<char>>
    decreases old_order.len(),
{
    if old_order.len() == 0 {
        Seq::empty()
    } else {
        let h = old_order[0];
        if contains_str(ids, h) && !contains_str(seen, h) {
            seq![h] + order_known(old_order.drop_first(), ids, seen.push(h))
        } else {
            order_known(old_order.drop_first(), ids, seen)
        }
    }
}

/// Profile ids the old order does not mention, in registry sequence.
pub open spec fn order_new(ids: Seq<Seq<char>>, old_order: Seq<Seq<char>>) -> Seq<Seq<char>>
    decreases ids.len(),
{
    if ids.len() == 0 {
        Seq::empty()
    } else if contains_str(old_order, ids[0]) {
        order_new(ids.drop_first(), old_order)
    } else {
        seq![ids[0]] + order_new(ids.drop_first(), old_order)
    }
}

/// The recalculated order: known profiles keep their old rank, profiles
/// without a recorded rank go to the end in registry order.
pub open spec fn spec_recalculate(old_order: Seq<Seq<char>>, ids: Seq<Seq<char>>) -> Seq<
    Seq<char>,
> {
    order_known(old_order, ids, Seq::empty()) + order_new(ids, old_order)
}

fn contains_string(v: &Vec<String>, s: &str) -> (r: bool)
    ensures
        r == contains_str(v.deep_view(), s@),
{
    let n = v.len();
    let mut i: usize = 0;
    while i < n
        invariant
            0 <= i <= n,
            n == v@.len(),
            forall|k: int| 0 <= k < i ==> v.deep_view()[k] != s@,
        decreases n - i,
    {
        let e = &v[i];
        proof {
            assert(e@ == v.deep_view()[i as int]);
        }
        if crate::strutil::str_eq(e.as_str(), s) {
            return true;
        }
        i = i + 1;
    }
    false
}

impl OrderData {
    /// Re-derives the order list from the current profiles: ids of deleted
    /// profiles are dropped, new profiles are appended at the end, and known
    /// profiles keep their relative order.
    pub fn recalculate(&mut self, profiles: &ProfilesIniState)
        ensures
            final(self)@ == spec_recalculate(
                old(self)@,
                crate::profiles_order::entry_ids(profiles@.profile_entries),
            ),
    {
        let ids = profile_ids(profiles);
        let ghost gids = entry_ids(profiles@.profile_entries);
        let ghost gold = self@;
        let n = self.order.len();
        let mut known: Vec<String> = Vec::new();
        let mut i: usize = 0;
        proof {
            assert(gold.skip(0) =~= gold);
            assert(known.deep_view() =~= Seq::<Seq<char>>::empty());
        }
        while i < n
            invariant
                0 <= i <= n,
                n == self.order@.len(),
                gold == self@,
                gids == ids.deep_view(),
                order_known(gold, gids, Seq::empty()) == known.deep_view() + order_known(
                    gold.skip(i as int),
                    gids,
                    known.deep_view(),
                ),
            decreases n - i,
        {
            let h = &self.order[i];
            proof {
                assert(h@ == gold[i as int]);
                assert(gold.skip(i as int)[0] == gold[i as int]);
                assert(gold.skip(i as int).drop_first() =~= gold.skip(i + 1));
            }
            if contains_string(&ids, h.as_str()) && !contains_string(&known, h.as_str()) {
                let ghost kd0 = known.deep_view();
                known.push(h.clone());
                proof {
                    assert(known.deep_view() =~= kd0.push(gold[i as int]));
                    assert(order_known(gold.skip(i as int), gids, kd0) =~= seq![gold[i as int]]
                        + order_known(gold.skip(i + 1), gids, kd0.push(gold[i as int])));
                }
            } else {
                proof {
                    assert(order_known(gold.skip(i as int), gids, known.deep_view())
                        =~= order_known(gold.skip(i + 1), gids, known.deep_view()));
                }
            }
            i = i + 1;
        }
        proof {
            assert(gold.skip(n as int) =~= Seq::<Seq<char>>::empty());
        }
        let m = ids.len();
        let mut out = known;
        let mut j: usize = 0;
        proof {
            assert(gids.skip(0) =~= gids);
            assert(out.deep_view() + order_new(gids, gold) =~= order_known(gold, gids, Seq::empty())
                + order_new(gids.skip(0), gold));
        }
        while j < m
            invariant
                0 <= j <= m,
                m == ids@.len(),
                gids == ids.deep_view(),
                gold == self@,
                order_known(gold, gids, Seq::empty()) + order_new(gids, gold) == out.deep_view()
                    + order_new(gids.skip(j as int), gold),
            decreases m - j,
        {
            let h = &ids[j];
            proof {
                assert(h@ == gids[j as int]);
                assert(gids.skip(j as int)[0] == gids[j as int]);
                assert(gids.skip(j as int).drop_first() =~= gids.skip(j + 1));
            }
            if !contains_string(&self.order, h.as_str()) {
                let ghost od0 = out.deep_view();
                out.push(h.clone());
                proof {
                    assert(out.deep_view() =~= od0.push(gids[j as int]));
                    assert(order_new(gids.skip(j as int), gold) =~= seq![gids[j as int]]
                        + order_new(gids.skip(j + 1), gold));
                }
            } else {
                proof {
                    assert(order_new(gids.skip(j as int), gold) =~= order_new(
                        gids.skip(j + 1),
                        gold,
                    ));
                }
            }
            j = j + 1;
        }
        proof {
            assert(gids.skip(m as int) =~= Seq::<Seq<char>>::empty());
            assert(out.deep_view() =~= spec_recalculate(gold, gids));
        }
        self.order = out;
    }
}

/// The derived ids of all entries, in registry order.
pub open spec fn entry_ids(entries: Seq<crate::profiles::ProfileEntryV>) -> Seq<Seq<char>> {
    Seq::new(entries.len(), |i: int| entries[i].id)
}

/// Collects the derived ids of all profiles, in registry order.
pub fn profile_ids(profiles: &ProfilesIniState) -> (r: Vec<String>)
    ensures
        r.deep_view() == entry_ids(profiles@.profile_entries),
{
    let n = profiles.profile_entries.len();
    let mut r: Vec<String> = Vec::new();
    let mut i: usize = 0;
    while i < n
        invariant
            0 <= i <= n,
            n == profiles.profile_entries@.len(),
            r.deep_view().len() == i,
            forall|k: int|
                0 <= k < i ==> r.deep_view()[k] == profiles@.profile_entries[k].id,
        decreases n - i,
    {
        let e = &profiles.profile_entries[i];
        proof {
            assert(e@ == profiles@.profile_entries[i as int]);
        }
        let ghost rd0 = r.deep_view();
        r.push(e.id.clone());
        proof {
            assert(r.deep_view() =~= rd0.push(profiles@.profile_entries[i as int].id));
        }
        i = i + 1;
    }
    proof {
        assert(r.deep_view() =~= entry_ids(profiles@.profile_entries));
    }
    r
}

/// Copies a list of strings; the copy has the same view.
pub fn clone_string_vec(v: &Vec<String>) -> (r: Vec<String>)
    ensures
        r.deep_view() == v.deep_view(),
{
    let n = v.len();
    let mut out: Vec<String> = Vec::new();
    let mut i: usize = 0;
    while i < n
        invariant
            0 <= i <= n,
            n == v@.len(),
            out.deep_view().len() == i,
            forall|k: int| 0 <= k < i ==> out.deep_view()[k] == v.deep_view()[k],
        decreases n - i,
    {
        let e = &v[i];
        proof {
            assert(e@ == v.deep_view()[i as int]);
        }
        let ghost od0 = out.deep_view();
        out.push(e.clone());
        proof {
            assert(out.deep_view() =~= od0.push(v.deep_view()[i as int]));
        }
        i = i + 1;
    }
    proof {
        assert(out.deep_view() =~= v.deep_view());
    }
    out
}

/// The event that tells the extension the display order changed.
pub fn native_notify_updated_profile_order(order: &OrderData) -> (r: NativeResponseEvent)
    ensures
        r matches NativeResponseEvent::ProfileOrderUpdated { order: o } && o.deep_view()
            == order@,
{
    let n = order.order.len();
    let mut out: Vec<String> = Vec::new();
    let mut i: usize = 0;
    while i < n
        invariant
            0 <= i <= n,
            n == order.order@.len(),
            out.deep_view().len() == i,
            forall|k: int| 0 <= k < i ==> out.deep_view()[k] == order@[k],
        decreases n - i,
    {
        let e = &order.order[i];
        proof {
            assert(e@ == order@[i as int]);
        }
        let ghost od0 = out.deep_view();
        out.push(e.clone());
        proof {
            assert(out.deep_view() =~= od0.push(order@[i as int]));
        }
        i = i + 1;
    }
    proof {
        assert(out.deep_view() =~= order@);
    }
    NativeResponseEvent::ProfileOrderUpdated { order: out }
}

} // verus!
