//! Per-channel feedback tallies, recomputed from current reaction counts
//! and upserted by channel id.
//!
//! Reaction counts are looked up by reaction kind, never by position, and
//! an absent kind counts as zero. The bot seeds one reaction of each kind
//! on its own message, so one is subtracted from each raw count, with a
//! floor of zero.

use vstd::prelude::*;

verus! {

/// Upvote and downvote counters of one channel.
#[derive(Clone, Copy, PartialEq, Eq, Structural, Debug)]
pub struct FeedbackTally {
    pub channel_id: u64,
    pub upvotes: i64,
    pub downvotes: i64,
}

/// One reaction kind of a message together with how often it was used.
#[derive(Clone, Copy, PartialEq, Eq, Structural, Debug)]
pub struct ReactionGroup {
    pub kind: u64,
    pub count: u64,
}

/// The raw count of the first group of the given kind, zero when the kind
/// is absent.
pub open spec fn spec_reaction_count(rs: Seq<ReactionGroup>, kind: u64) -> u64
    decreases rs.len(),
{
    if rs.len() == 0 {
        0
    } else if rs[0].kind == kind {
        rs[0].count
    } else {
        spec_reaction_count(rs.drop_first(), kind)
    }
}

/// A raw reaction count net of the bot's own seed reaction: one less,
/// floored at zero, saturated to the counter range.
pub open spec fn spec_net_votes(count: u64) -> i64 {
    if count == 0 {
        0
    } else if count - 1 > i64::MAX {
        i64::MAX
    } else {
        (count - 1) as i64
    }
}

/// Looks a reaction kind up by key and returns its net vote count.
pub fn net_votes_for(reactions: &Vec<ReactionGroup>, kind: u64) -> (r: i64)
    ensures
        r == spec_net_votes(spec_reaction_count(reactions@, kind)),
{
    let n = reactions.len();
    let mut i: usize = 0;
    proof {
        assert(reactions@.skip(0) =~= reactions@);
    }
    while i < n
        invariant
            i <= n,
            n == reactions@.len(),
            spec_reaction_count(reactions@, kind) == spec_reaction_count(
                reactions@.skip(i as int),
                kind,
            ),
        decreases n - i,
    {
        proof {
            assert(reactions@.skip(i as int)[0] == reactions@[i as int]);
            assert(reactions@.skip(i as int).drop_first() =~= reactions@.skip(i + 1));
        }
        if reactions[i].kind == kind {
            let count = reactions[i].count;
            if count == 0 {
                return 0;
            }
            if count - 1 > 0x7fff_ffff_ffff_ffffu64 {
                return i64::MAX;
            }
            return (count - 1) as i64;
        }
        i = i + 1;
    }
    proof {
        assert(reactions@.skip(n as int).len() == 0);
    }
    0
}

/// Some tally of the board belongs to this channel.
pub open spec fn has_tally(s: Seq<FeedbackTally>, channel_id: u64) -> bool {
    exists|i: int| 0 <= i < s.len() && #[trigger] s[i].channel_id == channel_id
}

/// The index of the tally of this channel (unique under `board_wf`).
pub open spec fn tally_index(s: Seq<FeedbackTally>, channel_id: u64) -> int {
    choose|i: int| 0 <= i < s.len() && #[trigger] s[i].channel_id == channel_id
}

/// Board consistency: channel ids are unique.
pub open spec fn board_wf(s: Seq<FeedbackTally>) -> bool {
    forall|i: int, j: int|
        0 <= i < j < s.len() ==> #[trigger] s[i].channel_id != #[trigger] s[j].channel_id
}

/// Effect of an upsert: overwrite the channel's tally, or append a new
/// one.
pub open spec fn spec_upsert(
    s: Seq<FeedbackTally>,
    channel_id: u64,
    upvotes: i64,
    downvotes: i64,
) -> Seq<FeedbackTally> {
    if has_tally(s, channel_id) {
        s.update(tally_index(s, channel_id), FeedbackTally { channel_id, upvotes, downvotes })
    } else {
        s.push(FeedbackTally { channel_id, upvotes, downvotes })
    }
}

/// The feedback tallies of all channels.
pub struct FeedbackBoard {
    pub tallies: Vec<FeedbackTally>,
}

impl View for FeedbackBoard {
    type V = Seq<FeedbackTally>;

    open spec fn view(&self) -> Seq<FeedbackTally> {
        self.tallies@
    }
}

impl FeedbackBoard {
    /// An empty board.
    pub fn new() -> (r: FeedbackBoard)
        ensures
            r@ == Seq::<FeedbackTally>::empty(),
            board_wf(r@),
    {
        FeedbackBoard { tallies: Vec::new() }
    }

    /// Index of the tally of this channel, if one exists.
    fn find_index(&self, channel_id: u64) -> (r: Option<usize>)
        ensures
            match r {
                Option::Some(i) => i < self@.len() && self@[i as int].channel_id == channel_id,
                Option::None => !has_tally(self@, channel_id),
            },
    {
        let n = self.tallies.len();
        let mut i: usize = 0;
        while i < n
            invariant
                i <= n,
                n == self@.len(),
                forall|k: int| 0 <= k < i ==> #[trigger] self@[k].channel_id != channel_id,
            decreases n - i,
        {
            if self.tallies[i].channel_id == channel_id {
                return Option::Some(i);
            }
            i = i + 1;
        }
        Option::None
    }

    /// Overwrite this channel's counters with freshly recomputed values,
    /// or start tracking the channel.
    pub fn upsert(&mut self, channel_id: u64, upvotes: i64, downvotes: i64)
        requires
            board_wf(old(self)@),
        ensures
            board_wf(final(self)@),
            final(self)@ == spec_upsert(old(self)@, channel_id, upvotes, downvotes),
    {
        match self.find_index(channel_id) {
            Option::None => {
                self.tallies.push(FeedbackTally { channel_id, upvotes, downvotes });
            },
            Option::Some(idx) => {
                proof {
                    let k = tally_index(old(self)@, channel_id);
                    assert(0 <= k < old(self)@.len() && old(self)@[k].channel_id == channel_id);
                    assert(k == idx as int);
                }
                let mut t = self.tallies.remove(idx);
                t.upvotes = upvotes;
                t.downvotes = downvotes;
                self.tallies.insert(idx, t);
                proof {
                    assert(self@ =~= old(self)@.update(
                        idx as int,
                        FeedbackTally { channel_id, upvotes, downvotes },
                    ));
                }
            },
        }
    }
}

} // verus!
