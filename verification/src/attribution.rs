//! First-responder attribution: given the ordered message history of a
//! thread, decide whether a first-responder event should fire, and for whom.
//!
//! The engine is stateless and is invoked on every new message of a thread;
//! the issue-record state machine is the gatekeeper against double
//! recording. Attribution fires only on the very first reply from the very
//! first distinct responder: once two or more distinct non-owner
//! participants exist, or the candidate has posted more than once, the
//! decision is silently skipped.

use vstd::prelude::*;
use vstd::set_lib::lemma_len_subset;

use crate::message::{history_view, MessageView, ThreadMessage};

verus! {

/// What the engine decided, at the specification level.
pub enum AttributionDecision {
    RecordInitial { author_id: u64, author_display_name: Seq<char>, content: Seq<char> },
    FirstResponse { responder_id: u64, responder_display_name: Seq<char> },
    NoAction,
}

/// What the engine decided: record the thread-opening message, fire
/// first-responder attribution, or do nothing.
pub enum AttributionOutcome {
    RecordInitial { author_id: u64, author_display_name: String, content: String },
    FirstResponse { responder_id: u64, responder_display_name: String },
    NoAction,
}

impl View for AttributionOutcome {
    type V = AttributionDecision;

    open spec fn view(&self) -> AttributionDecision {
        match self {
            AttributionOutcome::RecordInitial { author_id, author_display_name, content } => (AttributionDecision::RecordInitial {
                author_id: *author_id,
                author_display_name: author_display_name@,
                content: content@,
            }),
            AttributionOutcome::FirstResponse { responder_id, responder_display_name } => (AttributionDecision::FirstResponse {
                responder_id: *responder_id,
                responder_display_name: responder_display_name@,
            }),
            AttributionOutcome::NoAction => AttributionDecision::NoAction,
        }
    }
}

/// The thread owner is the author of the first message.
pub open spec fn owner_of(h: Seq<MessageView>) -> u64
    recommends
        h.len() >= 1,
{
    h[0].author_id
}

/// Some message after the opening one was posted by a non-owner.
pub open spec fn has_responder(h: Seq<MessageView>) -> bool {
    exists|i: int| 1 <= i < h.len() && h[i].author_id != owner_of(h)
}

/// Index of the first non-owner message at or after position `i`
/// (`h.len()` when there is none).
pub open spec fn first_responder_index_from(h: Seq<MessageView>, i: int) -> int
    recommends
        1 <= i <= h.len(),
    decreases h.len() - i when 0 <= i <= h.len()
{
    if i >= h.len() {
        h.len() as int
    } else if h[i].author_id != owner_of(h) {
        i
    } else {
        first_responder_index_from(h, i + 1)
    }
}

/// How many messages of the whole history the given author posted.
pub open spec fn count_messages_by(h: Seq<MessageView>, author: u64) -> nat
    decreases h.len(),
{
    if h.len() == 0 {
        0
    } else {
        count_messages_by(h.drop_last(), author) + (if h.last().author_id == author {
            1nat
        } else {
            0nat
        })
    }
}

/// The distinct author ids appearing after the opening message, the thread
/// owner excluded.
pub open spec fn distinct_non_owner_authors(h: Seq<MessageView>) -> Set<u64> {
    Set::new(
        |a: u64|
            a != owner_of(h) && exists|i: int| 1 <= i < h.len() && #[trigger] h[i].author_id == a,
    )
}

/// Two messages after the opening one come from two distinct non-owner
/// authors.
pub open spec fn multi_party(h: Seq<MessageView>) -> bool {
    exists|i: int, j: int|
        1 <= i < h.len() && 1 <= j < h.len() && #[trigger] h[i].author_id != owner_of(h)
            && #[trigger] h[j].author_id != owner_of(h) && h[i].author_id != h[j].author_id
}

/// The attribution policy, as a function of the message history.
///
/// A one-message history is the thread-opening message itself: the engine
/// signals that the original poster and the initial content should be
/// recorded. Otherwise the scan stops at the first non-owner message, and
/// attribution fires for its author exactly when that author has posted
/// fewer than two messages and fewer than two distinct non-owner
/// participants exist.
pub open spec fn attribution_spec(h: Seq<MessageView>) -> AttributionDecision
    recommends
        h.len() >= 1,
{
    if h.len() <= 1 {
        AttributionDecision::RecordInitial {
            author_id: h[0].author_id,
            author_display_name: h[0].author_display_name,
            content: h[0].content,
        }
    } else if !has_responder(h) {
        AttributionDecision::NoAction
    } else {
        let i = first_responder_index_from(h, 1);
        if count_messages_by(h, h[i].author_id) < 2 && distinct_non_owner_authors(h).len() < 2 {
            AttributionDecision::FirstResponse {
                responder_id: h[i].author_id,
                responder_display_name: h[i].author_display_name,
            }
        } else {
            AttributionDecision::NoAction
        }
    }
}

/// The scan index is the least non-owner position: everything before it is
/// the owner's, and it lands on a non-owner message when one exists.
pub proof fn lemma_first_responder_index(h: Seq<MessageView>, i: int)
    requires
        1 <= i <= h.len(),
    ensures
        i <= first_responder_index_from(h, i) <= h.len(),
        first_responder_index_from(h, i) < h.len() ==> h[first_responder_index_from(h, i)].author_id
            != owner_of(h),
        forall|k: int|
            i <= k < first_responder_index_from(h, i) ==> #[trigger] h[k].author_id == owner_of(h),
    decreases h.len() - i,
{
    if i < h.len() && h[i].author_id == owner_of(h) {
        lemma_first_responder_index(h, i + 1);
    }
}

/// The distinct author ids of any part of a history, owner included.
pub open spec fn authors_of(h: Seq<MessageView>) -> Set<u64>
    decreases h.len(),
{
    if h.len() == 0 {
        Set::empty()
    } else {
        authors_of(h.drop_last()).insert(h.last().author_id)
    }
}

/// `authors_of` is the finite set of author ids that occur in the history.
pub proof fn lemma_authors_of(h: Seq<MessageView>)
    ensures
        authors_of(h).finite(),
        forall|a: u64|
            authors_of(h).contains(a) <==> exists|i: int|
                0 <= i < h.len() && #[trigger] h[i].author_id == a,
    decreases h.len(),
{
    if h.len() > 0 {
        lemma_authors_of(h.drop_last());
        assert forall|a: u64| authors_of(h).contains(a) implies exists|i: int|
            0 <= i < h.len() && #[trigger] h[i].author_id == a by {
            if a == h.last().author_id {
                assert(h[h.len() - 1].author_id == a);
            } else {
                let i = choose|i: int| 0 <= i < h.drop_last().len() && #[trigger] h.drop_last()[i].author_id == a;
                assert(h[i].author_id == a);
            }
        }
        assert forall|a: u64|
            exists|i: int| 0 <= i < h.len() && #[trigger] h[i].author_id == a implies authors_of(
            h,
        ).contains(a) by {
            let i = choose|i: int| 0 <= i < h.len() && #[trigger] h[i].author_id == a;
            if i < h.len() - 1 {
                assert(h.drop_last()[i].author_id == a);
            }
        }
    }
}

/// The guard of the attribution policy, stated two ways: the set of
/// distinct non-owner authors has at least two members exactly when two
/// messages come from two distinct non-owner authors.
pub proof fn lemma_multi_party_iff_two_distinct(h: Seq<MessageView>)
    ensures
        multi_party(h) <==> distinct_non_owner_authors(h).len() >= 2,
        distinct_non_owner_authors(h).finite(),
{
    let d = distinct_non_owner_authors(h);
    lemma_authors_of(h);
    lemma_len_subset(d, authors_of(h));
    if multi_party(h) {
        let (i, j) = choose|i: int, j: int|
            1 <= i < h.len() && 1 <= j < h.len() && #[trigger] h[i].author_id != owner_of(h)
                && #[trigger] h[j].author_id != owner_of(h) && h[i].author_id != h[j].author_id;
        let pair = Set::empty().insert(h[i].author_id).insert(h[j].author_id);
        assert(d.contains(h[i].author_id));
        assert(d.contains(h[j].author_id));
        assert(pair.subset_of(d));
        assert(Set::<u64>::empty().insert(h[i].author_id).len() == 1);
        assert(pair.len() == 2);
        lemma_len_subset(pair, d);
    }
    if d.len() >= 2 {
        assert(exists|a: u64| d.contains(a)) by {
            if !(exists|a: u64| d.contains(a)) {
                assert(d =~= Set::empty());
            }
        }
        let a = choose|a: u64| d.contains(a);
        let rest = d.remove(a);
        assert(rest.len() >= 1);
        assert(exists|b: u64| rest.contains(b)) by {
            if !(exists|b: u64| rest.contains(b)) {
                assert(rest =~= Set::empty());
            }
        }
        let b = choose|b: u64| rest.contains(b);
        let i = choose|i: int| 1 <= i < h.len() && #[trigger] h[i].author_id == a;
        let j = choose|j: int| 1 <= j < h.len() && #[trigger] h[j].author_id == b;
        assert(h[i].author_id != owner_of(h) && h[j].author_id != owner_of(h)
            && h[i].author_id != h[j].author_id);
    }
}

/// Law: a single reply is attributed. Whenever the history holds exactly
/// the opening message and one reply from a different author, attribution
/// fires for the author of the reply.
pub proof fn lemma_single_reply_attributed(h: Seq<MessageView>)
    requires
        h.len() == 2,
        h[1].author_id != h[0].author_id,
    ensures
        attribution_spec(h) == (AttributionDecision::FirstResponse {
            responder_id: h[1].author_id,
            responder_display_name: h[1].author_display_name,
        }),
{
    assert(has_responder(h));
    assert(first_responder_index_from(h, 1) == 1);
    let a = h[1].author_id;
    let dl = h.drop_last();
    assert(count_messages_by(dl.drop_last(), a) == 0);
    assert(dl.last() == h[0]);
    assert(count_messages_by(dl, a) == 0);
    assert(h.last() == h[1]);
    assert(count_messages_by(h, a) == 1);
    lemma_multi_party_iff_two_distinct(h);
    assert(!multi_party(h)) by {
        if multi_party(h) {
            let (x, y) = choose|x: int, y: int|
                1 <= x < h.len() && 1 <= y < h.len() && #[trigger] h[x].author_id != owner_of(h)
                    && #[trigger] h[y].author_id != owner_of(h) && h[x].author_id != h[y].author_id;
            assert(x == 1 && y == 1);
        }
    }
}

/// Law: the scan is one-shot and stable. Whenever attribution names a
/// responder, that responder is the author of the first non-owner message
/// of the history; re-running the same rule over a history extended behind
/// that message can never name anyone posted later.
pub proof fn lemma_attribution_picks_first_responder(h: Seq<MessageView>, id: u64, name: Seq<char>)
    requires
        h.len() >= 1,
        attribution_spec(h) == (AttributionDecision::FirstResponse {
            responder_id: id,
            responder_display_name: name,
        }),
    ensures
        1 <= first_responder_index_from(h, 1) < h.len(),
        h[first_responder_index_from(h, 1)].author_id == id,
        h[first_responder_index_from(h, 1)].author_display_name == name,
        forall|k: int|
            1 <= k < first_responder_index_from(h, 1) ==> #[trigger] h[k].author_id == owner_of(h),
        id != owner_of(h),
{
    lemma_first_responder_index(h, 1);
}

/// Law: multi-party noise is suppressed. Once two distinct non-owner
/// participants exist in a history of two or more messages, a fresh
/// evaluation yields no attribution at all.
pub proof fn lemma_multi_party_suppression(h: Seq<MessageView>)
    requires
        h.len() >= 2,
        distinct_non_owner_authors(h).len() >= 2,
    ensures
        attribution_spec(h) == AttributionDecision::NoAction,
{
    lemma_multi_party_iff_two_distinct(h);
}

/// Runs the attribution policy on a full, chronologically ordered,
/// system-actor-free message history.
pub fn attribute_first_response(history: &Vec<ThreadMessage>) -> (r: AttributionOutcome)
    requires
        history@.len() >= 1,
    ensures
        r@ == attribution_spec(history_view(history@)),
{
    let ghost h = history_view(history@);
    let n = history.len();
    if n == 1 {
        let m = &history[0];
        return AttributionOutcome::RecordInitial {
            author_id: m.author_id,
            author_display_name: m.author_display_name.clone(),
            content: m.content.clone(),
        };
    }
    let owner = history[0].author_id;
    assert(owner == owner_of(h));

    let mut i: usize = 1;
    while i < n && history[i].author_id == owner
        invariant
            1 <= i <= n,
            n == h.len(),
            h == history_view(history@),
            owner == owner_of(h),
            forall|k: int| 1 <= k < i ==> #[trigger] h[k].author_id == owner,
        decreases n - i,
    {
        i = i + 1;
    }

    proof {
        lemma_first_responder_index(h, 1);
    }
    if i == n {
        assert(!has_responder(h));
        return AttributionOutcome::NoAction;
    }
    let candidate = history[i].author_id;
    assert(candidate != owner);
    let ghost fi = first_responder_index_from(h, 1);
    assert(fi == i) by {
        if fi < i {
            assert(h[fi].author_id == owner);
        }
        if fi > i as int {
            assert(h[i as int].author_id == owner);
        }
    }
    assert(has_responder(h));

    let mut count: usize = 0;
    let mut j: usize = 0;
    while j < n
        invariant
            j <= n,
            n == h.len(),
            h == history_view(history@),
            count <= j,
            count == count_messages_by(h.take(j as int), candidate),
        decreases n - j,
    {
        proof {
            assert(h.take(j + 1).drop_last() =~= h.take(j as int));
            assert(h.take(j + 1).last() == h[j as int]);
        }
        if history[j].author_id == candidate {
            count = count + 1;
        }
        j = j + 1;
    }
    proof {
        assert(h.take(n as int) =~= h);
    }
    assert(count == count_messages_by(h, candidate));

    let mut other_found = false;
    let mut k: usize = 1;
    while k < n
        invariant
            1 <= k <= n,
            n == h.len(),
            h == history_view(history@),
            owner == owner_of(h),
            other_found <==> exists|t: int|
                1 <= t < k && #[trigger] h[t].author_id != owner && h[t].author_id != candidate,
        decreases n - k,
    {
        if history[k].author_id != owner && history[k].author_id != candidate {
            other_found = true;
            assert(h[k as int].author_id != owner && h[k as int].author_id != candidate);
        }
        k = k + 1;
    }

    proof {
        lemma_multi_party_iff_two_distinct(h);
        if other_found {
            let t = choose|t: int|
                1 <= t < n && #[trigger] h[t].author_id != owner && h[t].author_id != candidate;
            assert(h[i as int].author_id != owner_of(h) && h[t].author_id != owner_of(h)
                && h[i as int].author_id != h[t].author_id);
            assert(multi_party(h));
        } else {
            assert(!multi_party(h)) by {
                if multi_party(h) {
                    let (x, y) = choose|x: int, y: int|
                        1 <= x < h.len() && 1 <= y < h.len() && #[trigger] h[x].author_id
                            != owner_of(h) && #[trigger] h[y].author_id != owner_of(h)
                            && h[x].author_id != h[y].author_id;
                    assert(h[x].author_id == candidate && h[y].author_id == candidate);
                }
            }
        }
    }

    if count < 2 && !other_found {
        AttributionOutcome::FirstResponse {
            responder_id: candidate,
            responder_display_name: history[i].author_display_name.clone(),
        }
    } else {
        AttributionOutcome::NoAction
    }
}

} // verus!
