//! Global (profile-independent) option settings.
//!
//! The store is a key/value map of JSON values kept as text; reading and
//! writing the file is done by the shell around the crate, the merge
//! semantics live here.

use vstd::prelude::*;
use crate::profiles::{JsonMap, set_prop, set_prop_exec, clone_json_map};
use crate::native_resp::NativeResponseEvent;

verus! {

/// The result of applying `changes` to `base`, first change first: each
/// changed key takes its new value in place, new keys are appended.
pub open spec fn merge_options(
    base: Seq<(Seq<char>, Seq<char>)>,
    changes: Seq<(Seq<char>, Seq<char>)>,
) -> Seq<(Seq<char>, Seq<char>)>
    decreases changes.len(),
{
    if changes.len() == 0 {
        base
    } else {
        merge_options(set_prop(base, changes[0].0, changes[0].1), changes.drop_first())
    }
}

/// Applies a set of option changes to the current global options.
pub fn apply_option_changes(base: &JsonMap, changes: &JsonMap) -> (r: JsonMap)
    ensures
        r.deep_view() == merge_options(base.deep_view(), changes.deep_view()),
{
    let ghost gc = changes.deep_view();
    let n = changes.len();
    let mut cur = clone_json_map(base);
    let mut i: usize = 0;
    proof {
        assert(gc.skip(0) =~= gc);
    }
    while i < n
        invariant
            0 <= i <= n,
            n == changes@.len(),
            gc == changes.deep_view(),
            merge_options(base.deep_view(), gc) == merge_options(
                cur.deep_view(),
                gc.skip(i as int),
            ),
        decreases n - i,
    {
        let kv = &changes[i];
        proof {
            assert(gc[i as int] == (kv.0@, kv.1@));
            assert(gc.skip(i as int)[0] == gc[i as int]);
            assert(gc.skip(i as int).drop_first() =~= gc.skip(i + 1));
        }
        cur = set_prop_exec(&cur, kv.0.as_str(), kv.1.as_str());
        i = i + 1;
    }
    proof {
        assert(gc.skip(n as int) =~= Seq::<(Seq<char>, Seq<char>)>::empty());
    }
    cur
}

/// The event that tells the extension the global options changed.
pub fn native_notify_updated_options(options: JsonMap) -> (r: NativeResponseEvent)
    ensures
        r == (NativeResponseEvent::OptionsUpdated { options: options }),
{
    NativeResponseEvent::OptionsUpdated { options }
}

#[derive(Debug)]
pub enum WriteGlobalOptionsError {
    OpenFileError(String),
    WriteFileError(String),
}

} // verus!
