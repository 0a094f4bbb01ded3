use vstd::prelude::*;

use crate::model::{ObjectChange, ObjectSnapshot, TxDigest};

verus! {

/// The largest page the history endpoint serves.
pub const PAGE_LIMIT: usize = 50;

/// Delay before polling again when the history has no next page yet.
pub const STALL_DELAY_MS: u64 = 10_000;

/// Delay before retrying a failed page request.
pub const RETRY_DELAY_MS: u64 = 500;

/// One transaction of a history page, with the object changes it made.
#[derive(Clone, Debug)]
pub struct TxBlock {
    pub digest: TxDigest,
    pub object_changes: Option<Vec<ObjectChange>>,
}

/// One page of the transaction history.
#[derive(Clone, Debug)]
pub struct Page {
    pub data: Vec<TxBlock>,
    pub next_cursor: Option<TxDigest>,
}

/// What happened to one page request.
#[derive(Clone, Debug)]
pub enum ExtractEvent {
    /// The page came back.
    PageReceived(Page),
    /// The request failed.
    RequestFailed,
    /// The termination signal fired before the request completed.
    Cancelled,
}

/// What the extraction loop does after a page request.
#[derive(Clone, Copy, Debug, PartialEq, Eq)]
pub enum ExtractAction {
    /// Stop: no further request, no further event.
    Stop,
    /// Wait, then request the same cursor again.
    Wait { delay_ms: u64 },
    /// A page boundary was crossed: report it, then request the next page.
    Advance { previous: Option<TxDigest>, next: TxDigest },
}

/// The events of a step and the action that follows.
pub struct ExtractStep<O> {
    pub events: Vec<ObjectSnapshot<O>>,
    pub action: ExtractAction,
}

/// The extraction loop's state: where the next request starts, and whether the
/// next page received was already emitted as the stall point.
#[derive(Clone, Copy, Debug)]
pub struct Extractor {
    pub cursor: Option<TxDigest>,
    pub skip_page: bool,
    pub retry_count: u64,
    pub stopped: bool,
}

/// The events of one block, in change order.
pub open spec fn block_events<O>(b: TxBlock) -> Seq<ObjectSnapshot<O>> {
    match b.object_changes {
        Some(cs) => cs@.map_values(
            |c: ObjectChange| ObjectSnapshot::<O> { digest: b.digest, change: c, object: None },
        ),
        None => Seq::empty(),
    }
}

/// The events of a sequence of blocks, in block order.
pub open spec fn blocks_events<O>(bs: Seq<TxBlock>) -> Seq<ObjectSnapshot<O>>
    decreases bs.len(),
{
    if bs.len() == 0 {
        Seq::empty()
    } else {
        blocks_events(bs.drop_last()) + block_events(bs.last())
    }
}

/// The change records of a sequence of blocks, in block order.
pub open spec fn blocks_changes(bs: Seq<TxBlock>) -> Seq<ObjectChange>
    decreases bs.len(),
{
    if bs.len() == 0 {
        Seq::empty()
    } else {
        blocks_changes(bs.drop_last()) + match bs.last().object_changes {
            Some(cs) => cs@,
            None => Seq::empty(),
        }
    }
}

pub open spec fn page_events<O>(p: Page) -> Seq<ObjectSnapshot<O>> {
    blocks_events(p.data@)
}

/// One step of the loop on the state `s`: the state after, the events
/// emitted, and the action.
pub open spec fn step_spec<O>(s: Extractor, e: ExtractEvent) -> (
    Extractor,
    Seq<ObjectSnapshot<O>>,
    ExtractAction,
) {
    if s.stopped {
        (s, Seq::empty(), ExtractAction::Stop)
    } else {
        match e {
            ExtractEvent::Cancelled => (
                Extractor { stopped: true, ..s },
                Seq::empty(),
                ExtractAction::Stop,
            ),
            ExtractEvent::RequestFailed => (
                Extractor {
                    retry_count: if s.retry_count < u64::MAX {
                        (s.retry_count + 1) as u64
                    } else {
                        s.retry_count
                    },
                    ..s
                },
                Seq::empty(),
                ExtractAction::Wait { delay_ms: RETRY_DELAY_MS },
            ),
            ExtractEvent::PageReceived(p) => {
                let emitted = if s.skip_page {
                    Seq::empty()
                } else {
                    page_events::<O>(p)
                };
                match p.next_cursor {
                    None => (
                        Extractor { skip_page: true, retry_count: 0, ..s },
                        emitted,
                        ExtractAction::Wait { delay_ms: STALL_DELAY_MS },
                    ),
                    Some(next) => (
                        Extractor { cursor: Some(next), skip_page: false, retry_count: 0, ..s },
                        emitted,
                        ExtractAction::Advance { previous: s.cursor, next },
                    ),
                }
            },
        }
    }
}

/// The state after a sequence of events, and everything emitted on the way.
pub open spec fn run<O>(s: Extractor, es: Seq<ExtractEvent>) -> (Extractor, Seq<ObjectSnapshot<O>>)
    decreases es.len(),
{
    if es.len() == 0 {
        (s, Seq::empty())
    } else {
        let (s1, out1) = run::<O>(s, es.drop_last());
        let (s2, out2, _) = step_spec::<O>(s1, es.last());
        (s2, out1 + out2)
    }
}

/// The events of one page: one per change record, in order, each carrying its
/// transaction's digest and no object.
pub fn page_events_of<O>(page: &Page) -> (r: Vec<ObjectSnapshot<O>>)
    ensures
        r@ == page_events::<O>(*page),
{
    let mut r: Vec<ObjectSnapshot<O>> = Vec::new();
    let ghost bs = page.data@;
    for i in 0..page.data.len()
        invariant
            bs == page.data@,
            r@ == blocks_events::<O>(bs.take(i as int)),
    {
        let block = &page.data[i];
        let ghost before = r@;
        match &block.object_changes {
            Some(cs) => {
                for j in 0..cs.len()
                    invariant
                        r@ == before + cs@.take(j as int).map_values(
                            |c: ObjectChange|
                                ObjectSnapshot::<O> { digest: block.digest, change: c, object: None },
                        ),
                {
                    r.push(ObjectSnapshot::new(block.digest, cs[j]));
                    proof {
                        assert(cs@.take(j + 1).drop_last() =~= cs@.take(j as int));
                        assert(r@ =~= before + cs@.take(j + 1).map_values(
                            |c: ObjectChange|
                                ObjectSnapshot::<O> { digest: block.digest, change: c, object: None },
                        ));
                    }
                }
                proof {
                    assert(cs@.take(cs@.len() as int) =~= cs@);
                }
            },
            None => {},
        }
        proof {
            assert(bs.take(i + 1).drop_last() =~= bs.take(i as int));
            assert(bs.take(i + 1).last() == *block);
            assert(r@ =~= blocks_events::<O>(bs.take(i + 1)));
        }
    }
    proof {
        assert(bs.take(bs.len() as int) =~= bs);
    }
    r
}

impl Extractor {
    /// A fresh loop, starting at `start_from` (`None`: the start of history).
    pub fn new(start_from: Option<TxDigest>) -> (r: Self)
        ensures
            r.cursor == start_from,
            !r.skip_page,
            r.retry_count == 0,
            !r.stopped,
    {
        Extractor { cursor: start_from, skip_page: false, retry_count: 0, stopped: false }
    }

    /// Decides on the outcome of one page request: what to emit, how the state
    /// moves on, and what the loop does next.
    pub fn step<O>(&mut self, event: ExtractEvent) -> (r: ExtractStep<O>)
        ensures
            (*final(self), r.events@, r.action) == step_spec::<O>(*old(self), event),
    {
        if self.stopped {
            return ExtractStep { events: Vec::new(), action: ExtractAction::Stop };
        }
        match event {
            ExtractEvent::Cancelled => {
                self.stopped = true;
                ExtractStep { events: Vec::new(), action: ExtractAction::Stop }
            },
            ExtractEvent::RequestFailed => {
                if self.retry_count < u64::MAX {
                    self.retry_count = self.retry_count + 1;
                }
                ExtractStep { events: Vec::new(), action: ExtractAction::Wait { delay_ms: RETRY_DELAY_MS } }
            },
            ExtractEvent::PageReceived(page) => {
                self.retry_count = 0;
                let events = if self.skip_page {
                    Vec::new()
                } else {
                    page_events_of(&page)
                };
                match page.next_cursor {
                    None => {
                        self.skip_page = true;
                        ExtractStep { events, action: ExtractAction::Wait { delay_ms: STALL_DELAY_MS } }
                    },
                    Some(next) => {
                        let previous = self.cursor;
                        self.skip_page = false;
                        self.cursor = Some(next);
                        ExtractStep { events, action: ExtractAction::Advance { previous, next } }
                    },
                }
            },
        }
    }
}

/// Extraction alters no change record: the events of a page are its change
/// records, in order and unchanged, each with no object attached.
pub proof fn lemma_extracted_changes_unaltered<O>(bs: Seq<TxBlock>)
    ensures
        blocks_events::<O>(bs).len() == blocks_changes(bs).len(),
        forall|k: int|
            0 <= k < blocks_changes(bs).len() ==> (#[trigger] blocks_events::<O>(bs)[k]).change
                == blocks_changes(bs)[k] && blocks_events::<O>(bs)[k].object is None,
    decreases bs.len(),
{
    if bs.len() > 0 {
        lemma_extracted_changes_unaltered::<O>(bs.drop_last());
        let a = blocks_events::<O>(bs.drop_last());
        let b = block_events::<O>(bs.last());
        let ca = blocks_changes(bs.drop_last());
        let cb = match bs.last().object_changes {
            Some(cs) => cs@,
            None => Seq::empty(),
        };
        assert(b.len() == cb.len());
        assert forall|k: int| 0 <= k < ca.len() + cb.len() implies (#[trigger] (a + b)[k]).change == (
        ca + cb)[k] && (a + b)[k].object is None by {
            if k >= ca.len() {
                assert((a + b)[k] == b[k - a.len()]);
            }
        }
    }
}

/// A stall poll: a failed request, or a page that still has no next cursor.
pub open spec fn is_stall_poll(e: ExtractEvent) -> bool {
    match e {
        ExtractEvent::RequestFailed => true,
        ExtractEvent::PageReceived(q) => q.next_cursor is None,
        ExtractEvent::Cancelled => false,
    }
}

proof fn lemma_stall_polls_emit_nothing<O>(s: Extractor, pre: Seq<ExtractEvent>, polls: Seq<ExtractEvent>)
    requires
        run::<O>(s, pre).0.skip_page,
        !run::<O>(s, pre).0.stopped,
        forall|k: int| 0 <= k < polls.len() ==> is_stall_poll(#[trigger] polls[k]),
    ensures
        run::<O>(s, pre + polls).1 == run::<O>(s, pre).1,
        run::<O>(s, pre + polls).0.skip_page,
        !run::<O>(s, pre + polls).0.stopped,
        run::<O>(s, pre + polls).0.cursor == run::<O>(s, pre).0.cursor,
    decreases polls.len(),
{
    if polls.len() == 0 {
        assert(pre + polls =~= pre);
    } else {
        lemma_stall_polls_emit_nothing::<O>(s, pre, polls.drop_last());
        assert((pre + polls).drop_last() =~= pre + polls.drop_last());
        assert((pre + polls).last() == polls.last());
        assert(is_stall_poll(polls[polls.len() - 1]));
        let (s1, out1) = run::<O>(s, pre + polls.drop_last());
        assert(out1 + Seq::<ObjectSnapshot<O>>::empty() =~= out1);
    }
}

/// Re-polling a stalled page never duplicates output. After a page `first` that
/// has a next cursor and a page `stalled` that has none, any number of failed
/// requests and polls that still find no next cursor, and then a page `resumed`
/// with the same content as `stalled` that finally has a next cursor, the loop has
/// emitted exactly the events of `first` followed by those of `resumed`.
pub proof fn lemma_stalled_page_not_repeated<O>(
    s: Extractor,
    first: Page,
    stalled: Page,
    polls: Seq<ExtractEvent>,
    resumed: Page,
)
    requires
        !s.stopped,
        !s.skip_page,
        first.next_cursor is Some,
        stalled.next_cursor is None,
        forall|k: int| 0 <= k < polls.len() ==> is_stall_poll(#[trigger] polls[k]),
        resumed.data@ == stalled.data@,
        resumed.next_cursor is Some,
    ensures
        run::<O>(
            s,
            seq![ExtractEvent::PageReceived(first), ExtractEvent::PageReceived(stalled)] + polls + seq![
                ExtractEvent::PageReceived(resumed)
            ],
        ).1 == page_events::<O>(first) + page_events::<O>(resumed),
{
    let e1 = seq![ExtractEvent::PageReceived(first)];
    let e2 = seq![ExtractEvent::PageReceived(first), ExtractEvent::PageReceived(stalled)];
    let e3 = e2 + polls;
    let e4 = e2 + polls + seq![ExtractEvent::PageReceived(resumed)];
    assert(e1.drop_last() =~= Seq::<ExtractEvent>::empty());
    assert(e2.drop_last() =~= e1);
    assert(e4.drop_last() =~= e3);
    assert(e4.last() == ExtractEvent::PageReceived(resumed));
    assert(e1.last() == ExtractEvent::PageReceived(first));
    assert(e2.last() == ExtractEvent::PageReceived(stalled));
    assert(run::<O>(s, Seq::<ExtractEvent>::empty()) == (s, Seq::<ObjectSnapshot<O>>::empty()));
    let (s1, out1) = run::<O>(s, e1);
    assert(out1 =~= Seq::<ObjectSnapshot<O>>::empty() + page_events::<O>(first));
    assert(out1 =~= page_events::<O>(first));
    assert(!s1.skip_page && !s1.stopped);
    let (s2, out2) = run::<O>(s, e2);
    assert(out2 =~= page_events::<O>(first) + page_events::<O>(stalled));
    lemma_stall_polls_emit_nothing::<O>(s, e2, polls);
    let (s3, out3) = run::<O>(s, e3);
    assert(page_events::<O>(stalled) == page_events::<O>(resumed));
    assert(run::<O>(s, e4).1 =~= out3 + Seq::<ObjectSnapshot<O>>::empty());
}

} // verus!
