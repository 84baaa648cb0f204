//! `UpdateProfileOrder`: replace the persisted display order.

use vstd::prelude::*;
use crate::ipc::{BroadcastPlan, IpcCommand, notify_update_profile_order};
use crate::native_req::NativeMessageUpdateProfileOrder;
use crate::native_resp::{NativeResponse, NativeResponseData};
use crate::profiles::ProfilesIniState;
use crate::profiles_order::{OrderData, contains_str, entry_ids, profile_ids};
use crate::strutil::str_eq;

verus! {

/// A requested order is valid when every listed id names an existing
/// profile and no id is listed twice.
pub open spec fn valid_order(order: Seq<Seq<char>>, ids: Seq<Seq<char>>) -> bool {
    &&& forall|k: int| 0 <= k < order.len() ==> contains_str(ids, #[trigger] order[k])
    &&& forall|k: int, l: int| 0 <= k < l < order.len() ==> order[k] != order[l]
}

#[derive(Debug)]
pub struct UpdateOrderOutcome {
    /// The new order, to be persisted as the order store.
    pub order: OrderData,
    pub response: NativeResponse,
    pub notify: BroadcastPlan,
}

fn contains_string(v: &Vec<String>, s: &str) -> (r: bool)
    ensures
        r == contains_str(v.deep_view(), s@),
{
    let n = v.len();
    let mut i: usize = 0;
    while i < n
        invariant
            0 <= i <= n,
            n == v@.len(),
            forall|k: int| 0 <= k < i ==> v.deep_view()[k] != s@,
        decreases n - i,
    {
        let e = &v[i];
        proof {
            assert(e@ == v.deep_view()[i as int]);
        }
        if str_eq(e.as_str(), s) {
            return true;
        }
        i = i + 1;
    }
    false
}

/// Checks that every id in the requested order names a profile and none is
/// listed twice.
fn check_order_valid(ids: &Vec<String>, order: &Vec<String>) -> (r: bool)
    ensures
        r == valid_order(order.deep_view(), ids.deep_view()),
{
    let ghost gorder = order.deep_view();
    let ghost gids = ids.deep_view();
    let n = order.len();
    let mut seen: Vec<String> = Vec::new();
    let mut i: usize = 0;
    proof {
        assert(seen.deep_view() =~= gorder.take(0));
    }
    while i < n
        invariant
            0 <= i <= n,
            n == order@.len(),
            gorder == order.deep_view(),
            gids == ids.deep_view(),
            seen.deep_view() =~= gorder.take(i as int),
            forall|k: int| 0 <= k < i ==> contains_str(gids, #[trigger] gorder[k]),
            forall|k: int, l: int| 0 <= k < l < i ==> gorder[k] != gorder[l],
        decreases n - i,
    {
        let oid = &order[i];
        proof {
            assert(oid@ == gorder[i as int]);
        }
        if !contains_string(ids, oid.as_str()) {
            proof {
                assert(!contains_str(gids, gorder[i as int]));
                assert(0 <= i < gorder.len());
            }
            return false;
        }
        if contains_string(&seen, oid.as_str()) {
            proof {
                let kk = choose|k: int|
                    0 <= k < seen.deep_view().len() && seen.deep_view()[k] == oid@;
                assert(seen.deep_view()[kk] == gorder.take(i as int)[kk]);
                assert(gorder[kk] == gorder[i as int]);
                assert(0 <= kk < i < gorder.len());
            }
            return false;
        }
        proof {
            assert forall|k: int| 0 <= k < i implies gorder[k] != gorder[i as int] by {
                assert(gorder.take(i as int)[k] == gorder[k]);
            }
        }
        let ghost sd0 = seen.deep_view();
        seen.push(oid.clone());
        proof {
            assert(seen.deep_view() =~= sd0.push(gorder[i as int]));
            assert(seen.deep_view() =~= gorder.take(i + 1));
        }
        i = i + 1;
    }
    true
}

/// Validates the requested order against the current profiles and, when it
/// is valid, adopts it. An id that names no profile, or a duplicate, rejects
/// the request without any write.
pub fn process_cmd_update_profiles_order(
    profiles: &ProfilesIniState,
    msg: &NativeMessageUpdateProfileOrder,
) -> (r: Result<UpdateOrderOutcome, NativeResponse>)
    ensures
        match r {
            Ok(o) => {
                &&& valid_order(msg.order.deep_view(), entry_ids(profiles@.profile_entries))
                &&& o.order@ == msg.order.deep_view()
                &&& o.response == (NativeResponse::Success {
                    success: true,
                    data: NativeResponseData::ProfileOrderUpdated,
                })
                &&& o.notify.cmd == IpcCommand::UpdateProfileOrder
                &&& o.notify.targets.deep_view() == entry_ids(profiles@.profile_entries)
            },
            Err(resp) => {
                &&& !valid_order(msg.order.deep_view(), entry_ids(profiles@.profile_entries))
                &&& (resp matches NativeResponse::Error { success, error, .. } && success == false
                    && error@ == "Attempted to re-arrange profile that does not exist!"@)
            },
        },
{
    let ids = profile_ids(profiles);
    if !check_order_valid(&ids, &msg.order) {
        return Err(NativeResponse::error("Attempted to re-arrange profile that does not exist!"));
    }
    let order = OrderData { order: crate::profiles_order::clone_string_vec(&msg.order) };
    let response = NativeResponse::success(NativeResponseData::ProfileOrderUpdated);
    let notify = notify_update_profile_order(profiles);
    Ok(UpdateOrderOutcome { order, response, notify })
}

} // verus!
