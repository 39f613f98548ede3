//! The sync engine: dedup-and-order filtering of a feed against the watermark
//! store, the per-post delivery state machine, and the laws the run obeys.

use vstd::prelude::*;

use crate::config::{spec_advance, CacheRecords, IdOrder, Snowflake};
use crate::sources::source::ForeignPost;
use crate::telegram::SendOutcome;

verus! {

/// A post passes the filter when it has media and is unseen: its source has
/// no watermark, or its id does not coerce to a number, or its coerced id is
/// strictly above the watermark.
pub open spec fn eligible(p: ForeignPost, m: Map<Seq<char>, u64>) -> bool {
    &&& p.media@.len() > 0
    &&& (!m.contains_key(p.source_id.spec_text()) || p.id.coerced() is None || p.id.coerced()->0
        > m[p.source_id.spec_text()])
}

/// The filtered feed: eligible posts only, in reverse of feed order. Feeds
/// arrive newest-first, so the result is oldest-unseen-first.
pub open spec fn spec_filter_rev(s: Seq<ForeignPost>, m: Map<Seq<char>, u64>) -> Seq<ForeignPost>
    decreases s.len(),
{
    if s.len() == 0 {
        Seq::empty()
    } else {
        let rest = spec_filter_rev(s.drop_first(), m);
        if eligible(s[0], m) {
            rest.push(s[0])
        } else {
            rest
        }
    }
}

/// Yield the unseen posts of one newest-first feed, oldest first, so that
/// delivery processes increasing post ids and the watermark can only move up.
pub fn filter_feed(feed: Vec<ForeignPost>, store: &CacheRecords) -> (r: Vec<ForeignPost>)
    requires
        store.wf(),
    ensures
        r@ == spec_filter_rev(feed@, store@),
{
    let ghost orig = feed@;
    let mut feed = feed;
    let mut out: Vec<ForeignPost> = Vec::new();
    proof {
        assert(orig.take(orig.len() as int) =~= orig);
        assert(orig.skip(orig.len() as int) =~= Seq::<ForeignPost>::empty());
    }
    while feed.len() > 0
        invariant
            store.wf(),
            feed@.len() <= orig.len(),
            feed@ == orig.take(feed@.len() as int),
            out@ == spec_filter_rev(orig.skip(feed@.len() as int), store@),
        decreases feed@.len(),
    {
        let ghost flen = feed@.len() as int;
        let p = match feed.pop() {
            Some(p) => p,
            None => {
                proof {
                    assert(false);
                }
                continue
            },
        };
        proof {
            assert(p == orig[flen - 1]);
            assert(orig.skip(flen - 1).drop_first() =~= orig.skip(flen));
            assert(orig.skip(flen - 1)[0] == p);
            assert(feed@ =~= orig.take(feed@.len() as int));
        }
        let keep = if p.media.len() > 0 {
            match store.get(&p.source_id) {
                None => true,
                Some(w) => match p.id.cmp_u64(w) {
                    IdOrder::Greater => true,
                    IdOrder::Unknown => true,
                    _ => false,
                },
            }
        } else {
            false
        };
        if keep {
            proof {
                assert(eligible(p, store@));
            }
            out.push(p);
        } else {
            proof {
                assert(!eligible(p, store@));
            }
        }
    }
    proof {
        assert(orig.skip(0) =~= orig);
    }
    out
}

/// Per-post delivery state. `Delivered` and `Skipped` are terminal.
#[derive(Debug, Clone, Copy, PartialEq, Eq, Structural)]
pub enum PostState {
    /// No attempt made yet.
    Pending,
    /// First attempt was rate limited; wait this many seconds, then retry
    /// exactly once.
    AwaitRetry { retry_secs: u64 },
    /// The channel confirmed delivery; the watermark may advance.
    Delivered { message_id: u64 },
    /// Delivery failed for this run; the watermark must not advance, so the
    /// post stays eligible next run.
    Skipped,
}

/// The state machine's transition: success ends in `Delivered`; a rate limit
/// buys exactly one retry; everything else (including a second rate limit)
/// ends in `Skipped`.
pub open spec fn spec_delivery_step(s: PostState, o: SendOutcome) -> PostState {
    match o {
        SendOutcome::Delivered { message_id } => PostState::Delivered { message_id },
        SendOutcome::RateLimited { retry_secs } => if s is Pending {
            PostState::AwaitRetry { retry_secs }
        } else {
            PostState::Skipped
        },
        SendOutcome::Rejected { .. } => PostState::Skipped,
    }
}

/// Advance the per-post state machine by one delivery outcome.
pub fn delivery_step(state: &PostState, outcome: &SendOutcome) -> (next: PostState)
    requires
        *state is Pending || *state is AwaitRetry,
    ensures
        next == spec_delivery_step(*state, *outcome),
{
    match outcome {
        SendOutcome::Delivered { message_id } => PostState::Delivered { message_id: *message_id },
        SendOutcome::RateLimited { retry_secs } => match state {
            PostState::Pending => PostState::AwaitRetry { retry_secs: *retry_secs },
            _ => PostState::Skipped,
        },
        SendOutcome::Rejected { .. } => PostState::Skipped,
    }
}

/// Record a confirmed delivery: raise the source's watermark to the post id.
/// Only numeric post ids are recorded.
pub fn commit_delivered(store: &mut CacheRecords, post: &ForeignPost)
    requires
        old(store).wf(),
        post.id is Number,
    ensures
        final(store).wf(),
        final(store)@ == spec_advance(old(store)@, post.source_id.spec_text(), post.id->Number_0),
{
    let id = post.id.as_ref().unwrap_number();
    store.advance(&post.source_id, id);
}

/// The watermark store after a run: each processed post either had its
/// delivery confirmed (and advances its source's watermark, if its id is
/// numeric) or left the store alone.
pub open spec fn spec_process(m: Map<Seq<char>, u64>, s: Seq<(ForeignPost, bool)>) -> Map<
    Seq<char>,
    u64,
>
    decreases s.len(),
{
    if s.len() == 0 {
        m
    } else {
        let prev = spec_process(m, s.drop_last());
        if s.last().1 && s.last().0.id is Number {
            spec_advance(prev, s.last().0.source_id.spec_text(), s.last().0.id->Number_0)
        } else {
            prev
        }
    }
}

/// A run whose deliveries all failed leaves the watermark store unchanged, so
/// filtering the same feed again yields the same sequence: an entirely failed
/// run is fully retryable.
pub proof fn lemma_failed_run_retryable(
    feed: Seq<ForeignPost>,
    m: Map<Seq<char>, u64>,
    outcomes: Seq<(ForeignPost, bool)>,
)
    requires
        forall|i: int| 0 <= i < outcomes.len() ==> !(#[trigger] outcomes[i]).1,
    ensures
        spec_process(m, outcomes) == m,
        spec_filter_rev(feed, spec_process(m, outcomes)) == spec_filter_rev(feed, m),
    decreases outcomes.len(),
{
    if outcomes.len() > 0 {
        assert forall|i: int|
            0 <= i < outcomes.drop_last().len() implies !(#[trigger] outcomes.drop_last()[i]).1 by {
            assert(outcomes.drop_last()[i] == outcomes[i]);
        }
        lemma_failed_run_retryable(feed, m, outcomes.drop_last());
        assert(!outcomes[outcomes.len() - 1].1);
    }
}

/// Everything the filter yields is eligible: it has media and is unseen.
pub proof fn lemma_filter_only_eligible(s: Seq<ForeignPost>, m: Map<Seq<char>, u64>)
    ensures
        forall|i: int|
            0 <= i < spec_filter_rev(s, m).len() ==> eligible(
                #[trigger] spec_filter_rev(s, m)[i],
                m,
            ),
    decreases s.len(),
{
    if s.len() > 0 {
        lemma_filter_only_eligible(s.drop_first(), m);
        let rest = spec_filter_rev(s.drop_first(), m);
        assert forall|i: int|
            0 <= i < spec_filter_rev(s, m).len() implies eligible(
            #[trigger] spec_filter_rev(s, m)[i],
            m,
        ) by {
            if i < rest.len() {
                assert(spec_filter_rev(s, m)[i] == rest[i]);
            }
        }
    }
}

/// For any feed of three posts with ids `5, 4, 3` (newest first), each with
/// media, and no prior watermark, the filtered delivery order is `3, 4, 5`.
pub proof fn lemma_ordering_oldest_first(a: ForeignPost, b: ForeignPost, c: ForeignPost)
    requires
        a.id == Snowflake::Number(5),
        b.id == Snowflake::Number(4),
        c.id == Snowflake::Number(3),
        a.media@.len() > 0,
        b.media@.len() > 0,
        c.media@.len() > 0,
    ensures
        spec_filter_rev(seq![a, b, c], Map::empty()) == seq![c, b, a],
{
    let m = Map::<Seq<char>, u64>::empty();
    assert(seq![a, b, c].drop_first() =~= seq![b, c]);
    assert(seq![b, c].drop_first() =~= seq![c]);
    assert(seq![c].drop_first() =~= Seq::<ForeignPost>::empty());
    assert(!m.contains_key(a.source_id.spec_text()));
    assert(!m.contains_key(b.source_id.spec_text()));
    assert(!m.contains_key(c.source_id.spec_text()));
    assert(eligible(a, m) && eligible(b, m) && eligible(c, m));
    assert(spec_filter_rev(Seq::<ForeignPost>::empty(), m) =~= Seq::<ForeignPost>::empty());
    assert(spec_filter_rev(seq![c], m) =~= seq![c]);
    assert(spec_filter_rev(seq![b, c], m) =~= seq![c, b]);
    assert(spec_filter_rev(seq![a, b, c], m) =~= seq![c, b, a]);
}

/// The dedup boundary is strict: with a stored watermark of 10, a post with
/// id 10 is excluded and a post with id 11 is included.
pub proof fn lemma_dedup_boundary(at: ForeignPost, above: ForeignPost, m: Map<Seq<char>, u64>)
    requires
        m.contains_key(at.source_id.spec_text()),
        m[at.source_id.spec_text()] == 10,
        at.id == Snowflake::Number(10),
        at.media@.len() > 0,
        m.contains_key(above.source_id.spec_text()),
        m[above.source_id.spec_text()] == 10,
        above.id == Snowflake::Number(11),
        above.media@.len() > 0,
    ensures
        !eligible(at, m),
        eligible(above, m),
{
}

/// Every post the filter yields comes from the feed.
pub proof fn lemma_filter_members(s: Seq<ForeignPost>, m: Map<Seq<char>, u64>)
    ensures
        forall|i: int|
            0 <= i < spec_filter_rev(s, m).len() ==> s.contains(#[trigger] spec_filter_rev(s, m)[i]),
    decreases s.len(),
{
    if s.len() > 0 {
        let t = s.drop_first();
        lemma_filter_members(t, m);
        let rest = spec_filter_rev(t, m);
        assert forall|i: int|
            0 <= i < spec_filter_rev(s, m).len() implies s.contains(
            #[trigger] spec_filter_rev(s, m)[i],
        ) by {
            if i < rest.len() {
                assert(spec_filter_rev(s, m)[i] == rest[i]);
                assert(t.contains(rest[i]));
                let k = choose|k: int| 0 <= k < t.len() && t[k] == rest[i];
                assert(s[k + 1] == rest[i]);
            } else {
                assert(spec_filter_rev(s, m)[i] == s[0]);
            }
        }
    }
}

/// Every post id of the sequence is numeric.
pub open spec fn ids_numeric(s: Seq<ForeignPost>) -> bool {
    forall|i: int| 0 <= i < s.len() ==> (#[trigger] s[i]).id is Number
}

/// Post ids strictly decrease along the sequence: newest first.
pub open spec fn ids_decreasing(s: Seq<ForeignPost>) -> bool {
    forall|i: int, j: int|
        0 <= i < j < s.len() ==> (#[trigger] s[i]).id->Number_0 > (#[trigger] s[j]).id->Number_0
}

/// Post ids strictly increase along the sequence: oldest first.
pub open spec fn ids_increasing(s: Seq<ForeignPost>) -> bool {
    forall|i: int, j: int|
        0 <= i < j < s.len() ==> (#[trigger] s[i]).id->Number_0 < (#[trigger] s[j]).id->Number_0
}

/// Filtering a newest-first feed of numeric ids yields an oldest-first
/// sequence: delivery then meets strictly increasing ids, so the watermark
/// only ever moves up while the run progresses.
pub proof fn lemma_filter_orders_oldest_first(s: Seq<ForeignPost>, m: Map<Seq<char>, u64>)
    requires
        ids_numeric(s),
        ids_decreasing(s),
    ensures
        ids_increasing(spec_filter_rev(s, m)),
    decreases s.len(),
{
    if s.len() > 0 {
        let t = s.drop_first();
        assert forall|i: int| 0 <= i < t.len() implies (#[trigger] t[i]).id is Number by {
            assert(t[i] == s[i + 1]);
        }
        assert forall|i: int, j: int|
            0 <= i < j < t.len() implies (#[trigger] t[i]).id->Number_0 > (
        #[trigger] t[j]).id->Number_0 by {
            assert(t[i] == s[i + 1]);
            assert(t[j] == s[j + 1]);
        }
        lemma_filter_orders_oldest_first(t, m);
        lemma_filter_members(t, m);
        let rest = spec_filter_rev(t, m);
        let r = spec_filter_rev(s, m);
        assert forall|i: int, j: int|
            0 <= i < j < r.len() implies (#[trigger] r[i]).id->Number_0 < (
        #[trigger] r[j]).id->Number_0 by {
            if eligible(s[0], m) {
                assert(r == rest.push(s[0]));
                if j < rest.len() {
                    assert(r[i] == rest[i]);
                    assert(r[j] == rest[j]);
                } else {
                    assert(r[j] == s[0]);
                    assert(r[i] == rest[i]);
                    assert(t.contains(rest[i]));
                    let k = choose|k: int| 0 <= k < t.len() && t[k] == rest[i];
                    assert(t[k] == s[k + 1]);
                    assert(s[0].id->Number_0 > s[k + 1].id->Number_0);
                }
            } else {
                assert(r == rest);
            }
        }
    }
}

/// A post with no media is excluded regardless of watermark state.
pub proof fn lemma_media_empty_excluded(
    s: Seq<ForeignPost>,
    m: Map<Seq<char>, u64>,
    p: ForeignPost,
)
    requires
        p.media@.len() == 0,
    ensures
        !spec_filter_rev(s, m).contains(p),
{
    lemma_filter_only_eligible(s, m);
    if spec_filter_rev(s, m).contains(p) {
        let i = choose|i: int|
            0 <= i < spec_filter_rev(s, m).len() && spec_filter_rev(s, m)[i] == p;
        assert(eligible(spec_filter_rev(s, m)[i], m));
        assert(false);
    }
}

} // verus!
