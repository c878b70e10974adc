//! The sessions that a map has entries for.

use crate::session::RakSessionId;
use std::collections::HashMap;
use vstd::prelude::*;

verus! {

/// Whether a list names every session in the map, and each once.
pub open spec fn lists_sessions<V>(list: Seq<RakSessionId>, sessions: Map<u64, V>) -> bool {
    &&& list.no_duplicates()
    &&& forall|id: RakSessionId| #[trigger] list.contains(id) <==> sessions.contains_key(id.0)
}

/// The sessions in the map, in no particular order.
pub fn session_ids<V>(sessions: &HashMap<u64, V>) -> (list: Vec<RakSessionId>)
    ensures
        lists_sessions(list@, sessions@),
{
    broadcast use vstd::std_specs::hash::group_hash_axioms;

    let mut list: Vec<RakSessionId> = Vec::new();
    for key in it: sessions.keys()
        invariant
            list@.len() == it.index(),
            it.seq().no_duplicates(),
            forall|j: int| 0 <= j < list@.len() ==> #[trigger] list@[j].0 == *it.seq()[j],
    {
        list.push(RakSessionId(*key));
    }
    proof {
        let all = vstd::std_specs::hash::spec_keys_iter(sessions);
        let keys = vstd::std_specs::iter::IteratorSpec::remaining(&all);
        assert(keys.unref().to_set() == sessions@.dom());
        assert forall|i: int, j: int| 0 <= i < j < list@.len() implies list@[i] != list@[j] by {
            assert(list@[i].0 == *keys[i] && list@[j].0 == *keys[j]);
            assert(keys[i] != keys[j]);
        }
        assert forall|id: RakSessionId| #[trigger] list@.contains(id) implies sessions@.contains_key(
            id.0,
        ) by {
            let j = choose|j: int| 0 <= j < list@.len() && list@[j] == id;
            assert(keys.unref()[j] == id.0);
            assert(keys.unref().to_set().contains(id.0));
        }
        assert forall|id: RakSessionId| sessions@.contains_key(
            id.0,
        ) implies #[trigger] list@.contains(id) by {
            assert(keys.unref().to_set().contains(id.0));
            let j = choose|j: int| 0 <= j < keys.len() && keys.unref()[j] == id.0;
            assert(list@[j].0 == id.0);
            assert(list@[j] == id);
        }
    }
    list
}

} // verus!
