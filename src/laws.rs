//! Properties that relate several operations of the library.
use vstd::prelude::*;

use crate::client::{get_ids, scout_ids, step_ok, update_run, Client};
use crate::event::Event;
use crate::local::fresh_count;
use crate::protocol::ServerMessage;
use crate::error::{fatal, Error, ProtocolError};

verus! {

/// The hint points that [crate::Client::mark_checked] credits are for the
/// distinct IDs of the list that were not checked before: `fresh_count` is
/// the size of the set of listed IDs outside the checked set.
pub proof fn fresh_count_counts_new_ids(checked: Set<i64>, ids: Seq<i64>)
    ensures
        fresh_count(checked, ids) == ids.to_set().difference(checked).len(),
    decreases ids.len(),
{
    broadcast use vstd::seq_lib::seq_to_set_is_finite, vstd::set::axiom_set_difference_finite, vstd::set::axiom_set_insert_len;

    if ids.len() == 0 {
        assert(ids.to_set().difference(checked) =~= Set::<i64>::empty());
    } else {
        let x = ids[0];
        let rest = ids.drop_first();
        assert(ids.to_set() =~= rest.to_set().insert(x)) by {
            assert forall|y: i64| ids.to_set().contains(y) implies rest.to_set().insert(x).contains(y) by {
                let i = choose|i: int| 0 <= i < ids.len() && ids[i] == y;
                if i > 0 {
                    assert(rest[i - 1] == y);
                }
            }
            assert forall|y: i64| rest.to_set().insert(x).contains(y) implies ids.to_set().contains(y) by {
                if y != x {
                    let i = choose|i: int| 0 <= i < rest.len() && rest[i] == y;
                    assert(ids[i + 1] == y);
                } else {
                    assert(ids[0] == y);
                }
            }
        }
        if checked.contains(x) {
            fresh_count_counts_new_ids(checked, rest);
            assert(ids.to_set().difference(checked) =~= rest.to_set().difference(checked));
        } else {
            fresh_count_counts_new_ids(checked.insert(x), rest);
            let a = rest.to_set().difference(checked.insert(x));
            assert(ids.to_set().difference(checked) =~= a.insert(x));
            assert(!a.contains(x));
        }
    }
}

/// Location scouts are answered in the order they were sent: when the first
/// `n` messages of a session's inbox that [crate::Client::update] handles are
/// all `LocationInfo` answers, and at least `n` scouts were pending, the
/// first `n` pending scouts are the ones completed, and the others still wait
/// in order. Each new scout joins at the back
/// ([crate::Client::scout_locations]).
pub proof fn scouts_answered_in_order(
    start: Client,
    pre: Seq<Client>,
    mid: Seq<Client>,
    outs: Seq<Seq<Event>>,
    n: int,
)
    requires
        update_run(start, pre, mid, outs, n),
        n <= start.location_scouts@.len(),
        forall|i: int| 0 <= i < n ==> (#[trigger] start.inbox@[i]) matches Ok(ServerMessage::LocationInfo(_)),
    ensures
        scout_ids(pre[n].location_scouts@) == scout_ids(start.location_scouts@).skip(n),
{
    lemma_scouts_prefix(start, pre, mid, outs, n, n);
}

/// Data store reads are answered in the order they were sent, as location
/// scouts are: `n` `Retrieved` answers complete the first `n` pending reads.
pub proof fn reads_answered_in_order(
    start: Client,
    pre: Seq<Client>,
    mid: Seq<Client>,
    outs: Seq<Seq<Event>>,
    n: int,
)
    requires
        update_run(start, pre, mid, outs, n),
        n <= start.gets@.len(),
        forall|i: int| 0 <= i < n ==> (#[trigger] start.inbox@[i]) matches Ok(ServerMessage::Retrieved(_)),
    ensures
        get_ids(pre[n].gets@) == get_ids(start.gets@).skip(n),
{
    lemma_reads_prefix(start, pre, mid, outs, n, n);
}

/// A binary frame is a recoverable error: the session goes on after it.
pub proof fn binary_frames_are_recoverable(bytes: Vec<u8>)
    ensures
        !fatal(Error::ProtocolError(ProtocolError::BinaryMessage(bytes))),
{
}


proof fn lemma_scouts_prefix(start: Client, pre: Seq<Client>, mid: Seq<Client>, outs: Seq<Seq<Event>>, n: int, i: int)
    requires
        update_run(start, pre, mid, outs, n),
        0 <= i <= n,
        n <= start.location_scouts@.len(),
        forall|j: int| 0 <= j < n ==> (#[trigger] start.inbox@[j]) matches Ok(ServerMessage::LocationInfo(_)),
    ensures
        scout_ids(pre[i].location_scouts@) == scout_ids(start.location_scouts@).skip(i),
    decreases i,
{
    if i == 0 {
        assert(scout_ids(start.location_scouts@).skip(0) =~= scout_ids(start.location_scouts@));
    } else {
        let h = i - 1;
        lemma_scouts_prefix(start, pre, mid, outs, n, h);
        assert(step_ok(start, pre, mid, outs, h));
        assert(start.inbox@[h] matches Ok(ServerMessage::LocationInfo(_)));
        assert(mid[h].location_scouts == pre[h].location_scouts);
        assert(scout_ids(start.location_scouts@).skip(h).drop_first() =~= scout_ids(start.location_scouts@).skip(i));
    }
}


proof fn lemma_reads_prefix(start: Client, pre: Seq<Client>, mid: Seq<Client>, outs: Seq<Seq<Event>>, n: int, i: int)
    requires
        update_run(start, pre, mid, outs, n),
        0 <= i <= n,
        n <= start.gets@.len(),
        forall|j: int| 0 <= j < n ==> (#[trigger] start.inbox@[j]) matches Ok(ServerMessage::Retrieved(_)),
    ensures
        get_ids(pre[i].gets@) == get_ids(start.gets@).skip(i),
    decreases i,
{
    if i == 0 {
        assert(get_ids(start.gets@).skip(0) =~= get_ids(start.gets@));
    } else {
        let h = i - 1;
        lemma_reads_prefix(start, pre, mid, outs, n, h);
        assert(step_ok(start, pre, mid, outs, h));
        assert(start.inbox@[h] matches Ok(ServerMessage::Retrieved(_)));
        assert(mid[h].gets == pre[h].gets);
        assert(get_ids(start.gets@).skip(h).drop_first() =~= get_ids(start.gets@).skip(i));
    }
}

} // verus!
