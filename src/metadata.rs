use vstd::prelude::*;
use crate::error::BackendError;
use crate::types::{BlockRecord, NewBlockEvent, Round};

verus! {

/// The views of a sequence of block events.
pub open spec fn records(s: Seq<NewBlockEvent>) -> Seq<BlockRecord> {
    s.map_values(|e: NewBlockEvent| e@)
}

/// The records of `h` committed at or before `target_round`, in their order in `h`.
pub open spec fn eligible(h: Seq<BlockRecord>, target_round: Round) -> Seq<BlockRecord> {
    h.filter(|r: BlockRecord| r.round <= target_round)
}

/// The history window: the last `window_size` records of `h` with round at most
/// `target_round`, in their order in `h` (all of them when there are fewer).
pub open spec fn window_of(h: Seq<BlockRecord>, window_size: nat, target_round: Round) -> Seq<
    BlockRecord,
> {
    let e = eligible(h, target_round);
    if e.len() <= window_size {
        e
    } else {
        e.skip(e.len() - window_size)
    }
}

/// Rounds strictly increase along `h`, as they do along committed history.
pub open spec fn strictly_ascending(h: Seq<BlockRecord>) -> bool {
    forall|i: int, j: int| 0 <= i < j < h.len() ==> #[trigger] h[i].round < #[trigger] h[j].round
}

/// Read access to committed block metadata.
pub trait MetadataBackend {
    /// The committed records this backend reads, in commit order.
    spec fn history(&self) -> Seq<BlockRecord>;

    /// Reads from this backend always succeed.
    spec fn never_fails(&self) -> bool;

    /// The history window of at most `window_size` records ending at or before
    /// `target_round`; a storage failure is returned as it is.
    fn get_block_metadata(&self, window_size: usize, target_round: Round) -> (r: Result<
        Vec<NewBlockEvent>,
        BackendError,
    >)
        ensures
            r matches Ok(w) ==> records(w@) == window_of(
                self.history(),
                window_size as nat,
                target_round,
            ),
            self.never_fails() ==> r is Ok,
    ;
}

proof fn lemma_eligible_step(h: Seq<BlockRecord>, target_round: Round, i: int)
    requires
        0 <= i < h.len(),
    ensures
        eligible(h.take(i + 1), target_round) == if h[i].round <= target_round {
            eligible(h.take(i), target_round).push(h[i])
        } else {
            eligible(h.take(i), target_round)
        },
{
    reveal(Seq::filter);
    assert(h.take(i + 1).drop_last() =~= h.take(i));
    assert(h.take(i + 1).last() == h[i]);
}

proof fn lemma_eligible_ascending(h: Seq<BlockRecord>, target_round: Round)
    requires
        strictly_ascending(h),
    ensures
        strictly_ascending(eligible(h, target_round)),
        forall|i: int|
            0 <= i < eligible(h, target_round).len() ==> #[trigger] eligible(h, target_round)[i].round
                <= target_round,
        forall|r: BlockRecord| #[trigger] eligible(h, target_round).contains(r) ==> h.contains(r),
    decreases h.len(),
{
    reveal(Seq::filter);
    let pred = |r: BlockRecord| r.round <= target_round;
    if h.len() > 0 {
        let rest = h.drop_last();
        lemma_eligible_ascending(rest, target_round);
        let e = eligible(h, target_round);
        let sub = eligible(rest, target_round);
        assert forall|r: BlockRecord| #[trigger] e.contains(r) implies h.contains(r) by {
            h.lemma_filter_contains_rev(pred, r);
        }
        if h.last().round <= target_round {
            assert(e == sub.push(h.last()));
            assert forall|i: int, j: int| 0 <= i < j < e.len() implies #[trigger] e[i].round
                < #[trigger] e[j].round by {
                if j == e.len() - 1 {
                    assert(sub.contains(sub[i]));
                    let k = choose|k: int| 0 <= k < rest.len() && rest[k] == sub[i];
                    assert(h[k] == rest[k]);
                } else {
                    assert(e[i] == sub[i] && e[j] == sub[j]);
                }
            }
        } else {
            assert(e == sub);
        }
    }
}

/// Over a history in commit order, the window is in commit order too, holds at
/// most `window_size` records, and none newer than `target_round`.
pub proof fn lemma_window_shape(h: Seq<BlockRecord>, window_size: nat, target_round: Round)
    requires
        strictly_ascending(h),
    ensures
        strictly_ascending(window_of(h, window_size, target_round)),
        window_of(h, window_size, target_round).len() <= window_size,
        forall|i: int|
            0 <= i < window_of(h, window_size, target_round).len() ==> #[trigger] window_of(
                h,
                window_size,
                target_round,
            )[i].round <= target_round,
{
    lemma_eligible_ascending(h, target_round);
    let e = eligible(h, target_round);
    let w = window_of(h, window_size, target_round);
    if e.len() > window_size {
        let d = e.len() - window_size;
        assert forall|i: int| 0 <= i < w.len() implies #[trigger] w[i].round <= target_round by {
            assert(w[i] == e[i + d]);
        }
        assert forall|i: int, j: int| 0 <= i < j < w.len() implies #[trigger] w[i].round
            < #[trigger] w[j].round by {
            assert(w[i] == e[i + d] && w[j] == e[j + d]);
        }
    }
}

/// The last `window_size` of `events` with round at most `target_round`, in
/// their order in `events`.
fn last_eligible(events: &[NewBlockEvent], window_size: usize, target_round: Round) -> (r: Vec<
    NewBlockEvent,
>)
    ensures
        records(r@) == window_of(records(events@), window_size as nat, target_round),
{
    let ghost h = records(events@);
    let n = events.len();
    let mut count: usize = 0;
    let mut i: usize = 0;
    while i < n
        invariant
            n == events@.len(),
            h == records(events@),
            i <= n,
            count as int == eligible(h.take(i as int), target_round).len(),
            count <= i,
        decreases n - i,
    {
        proof {
            lemma_eligible_step(h, target_round, i as int);
        }
        if events[i].round <= target_round {
            count = count + 1;
        }
        i = i + 1;
    }
    assert(h.take(n as int) =~= h);
    let start: usize = if count > window_size {
        count - window_size
    } else {
        0
    };
    let mut out: Vec<NewBlockEvent> = Vec::new();
    let mut seen: usize = 0;
    i = 0;
    while i < n
        invariant
            n == events@.len(),
            h == records(events@),
            i <= n,
            seen as int == eligible(h.take(i as int), target_round).len(),
            seen <= i,
            records(out@) == if seen <= start {
                Seq::<BlockRecord>::empty()
            } else {
                eligible(h.take(i as int), target_round).skip(start as int)
            },
        decreases n - i,
    {
        proof {
            lemma_eligible_step(h, target_round, i as int);
        }
        if events[i].round <= target_round {
            if seen >= start {
                let ghost old_out = records(out@);
                let ghost e_i = eligible(h.take(i as int), target_round);
                let e = events[i].clone();
                out.push(e);
                assert(records(out@) =~= old_out.push(h[i as int]));
                assert(eligible(h.take(i + 1), target_round) == e_i.push(h[i as int]));
                if seen == start {
                    assert(old_out =~= Seq::<BlockRecord>::empty());
                }
                assert(records(out@) =~= e_i.push(h[i as int]).skip(start as int));
            }
            seen = seen + 1;
        }
        i = i + 1;
    }
    assert(records(out@) =~= window_of(h, window_size as nat, target_round));
    out
}

/// What a store that reads newest first hands back when asked for `limit`
/// records of the history `h`: its newest `limit` records, newest first.
pub open spec fn newest_first(h: Seq<BlockRecord>, limit: nat) -> Seq<BlockRecord> {
    if h.len() <= limit {
        h.reverse()
    } else {
        h.skip(h.len() - limit).reverse()
    }
}

/// A batch read newest first with `limit` settles the window when it holds
/// the whole history (fewer records than asked) or at least `window_size`
/// records with round at most `target_round`.
pub open spec fn batch_settles(
    fetched: Seq<BlockRecord>,
    limit: nat,
    window_size: nat,
    target_round: Round,
) -> bool {
    fetched.len() < limit || eligible(fetched.reverse(), target_round).len() >= window_size
}

/// The outcome of building a window from a batch read newest first.
pub enum WindowRead {
    /// The history window, oldest first.
    Complete(Vec<NewBlockEvent>),
    /// The batch did not settle the window: read again with this limit.
    FetchMore(u64),
}

proof fn lemma_window_of_suffix(h: Seq<BlockRecord>, k: int, window_size: nat, target_round: Round)
    requires
        0 <= k <= h.len(),
        eligible(h.skip(k), target_round).len() >= window_size,
    ensures
        window_of(h, window_size, target_round) == window_of(h.skip(k), window_size, target_round),
{
    let pred = |r: BlockRecord| r.round <= target_round;
    assert(h =~= h.take(k) + h.skip(k));
    Seq::filter_distributes_over_add(h.take(k), h.skip(k), pred);
    let a = eligible(h.take(k), target_round);
    let b = eligible(h.skip(k), target_round);
    let e = eligible(h, target_round);
    assert(e == a + b);
    if e.len() > window_size {
        if b.len() > window_size {
            assert(e.skip(e.len() - window_size) =~= b.skip(b.len() - window_size));
        } else {
            assert(e.skip(e.len() - window_size) =~= b);
        }
    } else {
        assert(a.len() == 0);
        assert(e =~= b);
    }
}

/// How many of `events` have round at most `target_round`.
fn count_eligible(events: &[NewBlockEvent], target_round: Round) -> (r: usize)
    ensures
        r as int == eligible(records(events@), target_round).len(),
{
    let ghost h = records(events@);
    let n = events.len();
    let mut count: usize = 0;
    let mut i: usize = 0;
    while i < n
        invariant
            n == events@.len(),
            h == records(events@),
            i <= n,
            count as int == eligible(h.take(i as int), target_round).len(),
            count <= i,
        decreases n - i,
    {
        proof {
            lemma_eligible_step(h, target_round, i as int);
        }
        if events[i].round <= target_round {
            count = count + 1;
        }
        i = i + 1;
    }
    assert(h.take(n as int) =~= h);
    count
}

/// Builds the history window from a batch that a store read newest first when
/// asked for `limit` records. When the batch settles the window, the window is
/// exactly that of the history the store holds; otherwise the store is to be
/// read again with a larger limit.
pub fn window_from_newest(
    fetched: &[NewBlockEvent],
    limit: u64,
    window_size: usize,
    target_round: Round,
) -> (r: WindowRead)
    ensures
        r is Complete <==> batch_settles(
            records(fetched@),
            limit as nat,
            window_size as nat,
            target_round,
        ),
        forall|h: Seq<BlockRecord>|
            #[trigger] newest_first(h, limit as nat) == records(fetched@) ==> (r matches WindowRead::Complete(w)
                ==> records(w@) == window_of(h, window_size as nat, target_round)),
        r matches WindowRead::FetchMore(l) ==> l >= limit && (limit < u64::MAX ==> l > limit),
{
    let ghost f = records(fetched@);
    let n = fetched.len();
    let mut oldest: Vec<NewBlockEvent> = Vec::new();
    let mut j: usize = 0;
    while j < n
        invariant
            n == fetched@.len(),
            f == records(fetched@),
            j <= n,
            records(oldest@) == f.reverse().take(j as int),
        decreases n - j,
    {
        let ghost before = records(oldest@);
        let e = fetched[n - 1 - j].clone();
        oldest.push(e);
        assert(f.reverse()[j as int] == f[n - 1 - j]);
        assert(records(oldest@) =~= before.push(f[n - 1 - j]));
        assert(records(oldest@) =~= f.reverse().take(j + 1));
        j = j + 1;
    }
    let ghost s = f.reverse();
    assert(records(oldest@) =~= s);
    let count = count_eligible(oldest.as_slice(), target_round);
    if (n as u64) < limit || count >= window_size {
        let w = last_eligible(oldest.as_slice(), window_size, target_round);
        assert forall|h: Seq<BlockRecord>|
            #[trigger] newest_first(h, limit as nat) == f implies records(w@) == window_of(
                h,
                window_size as nat,
                target_round,
            ) by {
            let k: int = if h.len() <= limit {
                0
            } else {
                h.len() - limit
            };
            assert(h.skip(k) =~= h.skip(k).reverse().reverse());
            if h.len() <= limit {
                assert(h =~= h.skip(0));
            }
            assert(s =~= h.skip(k));
            if (n as u64) < limit {
                assert(h.len() <= limit);
                assert(s =~= h);
            } else {
                lemma_window_of_suffix(h, k, window_size as nat, target_round);
            }
        }
        WindowRead::Complete(w)
    } else {
        let next = if limit > u64::MAX / 2 {
            u64::MAX
        } else {
            2 * limit + 1
        };
        WindowRead::FetchMore(next)
    }
}

/// A committed history held in memory, for deterministic tests and replay.
pub struct InMemoryBackend {
    events: Vec<NewBlockEvent>,
}

impl InMemoryBackend {
    /// A backend over `events`, which must be in commit order: `None` unless
    /// their rounds strictly increase.
    pub fn new(events: Vec<NewBlockEvent>) -> (r: Option<InMemoryBackend>)
        ensures
            r is Some <==> strictly_ascending(records(events@)),
            r matches Some(b) ==> b.history() == records(events@),
    {
        let mut i: usize = 1;
        while i < events.len()
            invariant
                1 <= i,
                forall|a: int, b: int|
                    0 <= a < b < i && b < events@.len() ==> #[trigger] records(events@)[a].round
                        < #[trigger] records(events@)[b].round,
            decreases events@.len() - i,
        {
            if events[i - 1].round >= events[i].round {
                assert(records(events@)[i - 1].round >= records(events@)[i as int].round);
                return None;
            }
            assert forall|a: int, b: int|
                0 <= a < b < i + 1 && b < events@.len() implies #[trigger] records(events@)[a].round
                < #[trigger] records(events@)[b].round by {
                if b == i && a < i - 1 {
                    assert(records(events@)[a].round < records(events@)[i - 1].round);
                }
            }
            i = i + 1;
        }
        Some(InMemoryBackend { events })
    }
}

impl MetadataBackend for InMemoryBackend {
    closed spec fn history(&self) -> Seq<BlockRecord> {
        records(self.events@)
    }

    open spec fn never_fails(&self) -> bool {
        true
    }

    fn get_block_metadata(&self, window_size: usize, target_round: Round) -> (r: Result<
        Vec<NewBlockEvent>,
        BackendError,
    >)
        ensures
            r matches Ok(w) && records(w@) == window_of(
                self.history(),
                window_size as nat,
                target_round,
            ),
    {
        Ok(self.read_window(window_size, target_round))
    }
}

impl InMemoryBackend {
    /// The history window of at most `window_size` records ending at or before
    /// `target_round`; reading from memory never fails.
    pub fn read_window(&self, window_size: usize, target_round: Round) -> (r: Vec<NewBlockEvent>)
        ensures
            records(r@) == window_of(self.history(), window_size as nat, target_round),
    {
        last_eligible(self.events.as_slice(), window_size, target_round)
    }
}

} // verus!
