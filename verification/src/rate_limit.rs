//! Rate limiting: bounds per-sender message volume and room size before any
//! backend call is made.
//!
//! An oversized room is blocked silently; the room-size bound is checked
//! before the per-sender counter is consulted, and a counter is only
//! incremented for a room within bounds. A sender over the message limit
//! is blocked with a notice owed for each triggering message.

use vstd::prelude::*;

use crate::text::str_eq;

verus! {

/// One sender's running message count.
#[derive(Debug)]
pub struct SenderCount {
    pub sender: String,
    pub count: u64,
}

pub struct SenderCountView {
    pub sender: Seq<char>,
    pub count: u64,
}

impl View for SenderCount {
    type V = SenderCountView;

    open spec fn view(&self) -> SenderCountView {
        SenderCountView { sender: self.sender@, count: self.count }
    }
}

impl DeepView for SenderCount {
    type V = SenderCountView;

    open spec fn deep_view(&self) -> SenderCountView {
        self.view()
    }
}

/// The count recorded for a sender: the first matching entry's, else zero.
pub open spec fn spec_count_of(counts: Seq<SenderCountView>, s: Seq<char>) -> u64
    decreases counts.len(),
{
    if counts.len() == 0 {
        0
    } else if counts[0].sender == s {
        counts[0].count
    } else {
        spec_count_of(counts.drop_first(), s)
    }
}

/// The counts after one more message from a sender: the first matching
/// entry incremented, or a fresh entry of one appended.
pub open spec fn spec_bump(counts: Seq<SenderCountView>, s: Seq<char>) -> Seq<SenderCountView>
    decreases counts.len(),
{
    if counts.len() == 0 {
        seq![SenderCountView { sender: s, count: 1 }]
    } else if counts[0].sender == s {
        seq![
            SenderCountView { sender: counts[0].sender, count: (counts[0].count + 1) as u64 },
        ] + counts.drop_first()
    } else {
        seq![counts[0]] + spec_bump(counts.drop_first(), s)
    }
}

/// The verdict on one inbound message.
#[derive(Clone, Copy, Debug, PartialEq, Eq, Structural)]
pub enum BlockDecision {
    /// The message may be answered
    Allowed,
    /// The room has more active members than the configured limit; the
    /// message is ignored silently
    RoomTooLarge,
    /// The sender has used up the message limit; a notice is owed
    LimitExceeded,
}

impl BlockDecision {
    /// Whether the message is blocked.
    pub fn blocked(&self) -> (r: bool)
        ensures
            r == (*self != BlockDecision::Allowed),
    {
        match self {
            BlockDecision::Allowed => false,
            _ => true,
        }
    }
}

/// Bounds per-sender message volume and room size.
pub struct RateLimiter {
    /// The per-sender running counts, in order of first appearance
    pub counts: Vec<SenderCount>,
    /// Messages allowed per sender while running; `u64::MAX` for unbounded
    pub message_limit: u64,
    /// Active members a room may have and still be answered; `usize::MAX`
    /// for unbounded
    pub room_size_limit: usize,
}

impl View for RateLimiter {
    type V = Seq<SenderCountView>;

    open spec fn view(&self) -> Seq<SenderCountView> {
        self.counts.deep_view()
    }
}

proof fn lemma_count_of_skip(counts: Seq<SenderCountView>, s: Seq<char>, i: int)
    requires
        0 <= i <= counts.len(),
        forall|j: int| 0 <= j < i ==> (#[trigger] counts[j]).sender != s,
    ensures
        spec_count_of(counts, s) == spec_count_of(counts.skip(i), s),
    decreases i,
{
    if i > 0 {
        lemma_count_of_skip(counts.drop_first(), s, i - 1);
        assert(counts.drop_first().skip(i - 1) =~= counts.skip(i));
    } else {
        assert(counts.skip(0) =~= counts);
    }
}

/// When the first entry for `s` stands at `i`, bumping updates exactly that
/// entry.
proof fn lemma_bump_at(counts: Seq<SenderCountView>, s: Seq<char>, i: int)
    requires
        0 <= i < counts.len(),
        counts[i].sender == s,
        counts[i].count < u64::MAX,
        forall|j: int| 0 <= j < i ==> (#[trigger] counts[j]).sender != s,
    ensures
        spec_bump(counts, s) == counts.update(
            i,
            SenderCountView { sender: counts[i].sender, count: (counts[i].count + 1) as u64 },
        ),
    decreases i,
{
    if i == 0 {
        assert(spec_bump(counts, s) =~= counts.update(
            0,
            SenderCountView { sender: counts[0].sender, count: (counts[0].count + 1) as u64 },
        ));
    } else {
        let t = counts.drop_first();
        assert(forall|j: int| 0 <= j < i - 1 ==> (#[trigger] t[j]).sender == counts[j + 1].sender);
        assert(t[i - 1] == counts[i]);
        lemma_bump_at(t, s, i - 1);
        assert(spec_bump(counts, s) =~= counts.update(
            i,
            SenderCountView { sender: counts[i].sender, count: (counts[i].count + 1) as u64 },
        ));
    }
}

/// When no entry matches `s`, bumping appends a fresh entry of one.
proof fn lemma_bump_absent(counts: Seq<SenderCountView>, s: Seq<char>)
    requires
        forall|j: int| 0 <= j < counts.len() ==> (#[trigger] counts[j]).sender != s,
    ensures
        spec_bump(counts, s) == counts.push(SenderCountView { sender: s, count: 1 }),
    decreases counts.len(),
{
    if counts.len() == 0 {
        assert(spec_bump(counts, s) =~= counts.push(SenderCountView { sender: s, count: 1 }));
    } else {
        let t = counts.drop_first();
        assert(forall|j: int|
            0 <= j < t.len() ==> (#[trigger] t[j]).sender == counts[j + 1].sender);
        lemma_bump_absent(t, s);
        assert(spec_bump(counts, s) =~= counts.push(SenderCountView { sender: s, count: 1 }));
    }
}

impl RateLimiter {
    /// A fresh limiter with the given limits and no counts; an absent limit
    /// means unbounded.
    pub fn new(message_limit: Option<u64>, room_size_limit: Option<usize>) -> (r: Self)
        ensures
            r@ == Seq::<SenderCountView>::empty(),
            r.message_limit == (match message_limit {
                Some(l) => l,
                None => u64::MAX,
            }),
            r.room_size_limit == (match room_size_limit {
                Some(l) => l,
                None => usize::MAX,
            }),
    {
        let r = RateLimiter {
            counts: Vec::new(),
            message_limit: match message_limit {
                Some(l) => l,
                None => u64::MAX,
            },
            room_size_limit: match room_size_limit {
                Some(l) => l,
                None => usize::MAX,
            },
        };
        proof {
            assert(r@ =~= Seq::<SenderCountView>::empty());
        }
        r
    }

    /// The count recorded for a sender so far.
    pub fn count_of(&self, sender: &str) -> (r: u64)
        ensures
            r == spec_count_of(self@, sender@),
    {
        let mut i: usize = 0;
        while i < self.counts.len()
            invariant
                i <= self.counts.len(),
                self@.len() == self.counts.len(),
                forall|j: int| 0 <= j < i ==> (#[trigger] self@[j]).sender != sender@,
            decreases self.counts.len() - i,
        {
            proof {
                assert(self@[i as int] == self.counts[i as int]@);
            }
            if str_eq(self.counts[i].sender.as_str(), sender) {
                proof {
                    lemma_count_of_skip(self@, sender@, i as int);
                    assert(self@.skip(i as int)[0] == self@[i as int]);
                }
                return self.counts[i].count;
            }
            i += 1;
        }
        proof {
            lemma_count_of_skip(self@, sender@, self@.len() as int);
            assert(self@.skip(self@.len() as int) =~= Seq::<SenderCountView>::empty());
        }
        0
    }

    /// Gate one inbound message.
    ///
    /// The room-size bound is checked first and blocks silently, touching no
    /// counter. Otherwise the sender's counter decides: under the limit the
    /// message is allowed and the counter incremented; at the limit the
    /// message is blocked with a notice owed, and the counter left alone.
    pub fn should_block(&mut self, room_size: usize, sender: &str) -> (r: BlockDecision)
        ensures
            final(self).message_limit == old(self).message_limit,
            final(self).room_size_limit == old(self).room_size_limit,
            (room_size > old(self).room_size_limit) ==> (r == BlockDecision::RoomTooLarge
                && final(self)@ == old(self)@),
            (room_size <= old(self).room_size_limit && spec_count_of(old(self)@, sender@)
                < old(self).message_limit) ==> (r == BlockDecision::Allowed && final(self)@
                == spec_bump(old(self)@, sender@)),
            (room_size <= old(self).room_size_limit && spec_count_of(old(self)@, sender@)
                >= old(self).message_limit) ==> (r == BlockDecision::LimitExceeded && final(self)@
                == old(self)@),
    {
        if room_size > self.room_size_limit {
            return BlockDecision::RoomTooLarge;
        }
        let ghost counts0 = self@;
        let mut i: usize = 0;
        let n = self.counts.len();
        while i < n
            invariant
                i <= n,
                n == self.counts.len(),
                counts0 == self@,
                counts0 == old(self)@,
                self.message_limit == old(self).message_limit,
                self.room_size_limit == old(self).room_size_limit,
                room_size <= old(self).room_size_limit,
                forall|j: int| 0 <= j < i ==> (#[trigger] self@[j]).sender != sender@,
            decreases n - i,
        {
            proof {
                assert(self@[i as int] == self.counts[i as int]@);
            }
            if str_eq(self.counts[i].sender.as_str(), sender) {
                proof {
                    lemma_count_of_skip(self@, sender@, i as int);
                    assert(self@.skip(i as int)[0] == self@[i as int]);
                    assert(spec_count_of(self@, sender@) == self@[i as int].count);
                }
                if self.counts[i].count < self.message_limit {
                    proof {
                        lemma_bump_at(self@, sender@, i as int);
                    }
                    self.counts[i].count = self.counts[i].count + 1;
                    proof {
                        assert(self.counts.deep_view() =~= spec_bump(counts0, sender@));
                    }
                    return BlockDecision::Allowed;
                }
                return BlockDecision::LimitExceeded;
            }
            i += 1;
        }
        proof {
            lemma_count_of_skip(self@, sender@, n as int);
            assert(self@.skip(n as int) =~= Seq::<SenderCountView>::empty());
            assert(spec_count_of(self@, sender@) == 0);
        }
        if self.message_limit == 0 {
            return BlockDecision::LimitExceeded;
        }
        proof {
            lemma_bump_absent(self@, sender@);
        }
        self.counts.push(SenderCount { sender: String::from_str(sender), count: 1 });
        proof {
            assert(self.counts.deep_view() =~= spec_bump(counts0, sender@));
        }
        BlockDecision::Allowed
    }
}

} // verus!
