use vstd::prelude::*;

verus! {

use crate::wake::WakeHandle;
use crate::AsyncError;

/// Fixed bound on concurrently awaited lines.
pub const CAPACITY: usize = 16;

/// One pending wait: the state kept for a line between the start of a wait
/// operation and the poll that observes the line signaled.
#[derive(Clone, Copy, Debug, PartialEq)]
pub struct AwaitingPin {
    /// Stable small integer identifying the physical input line.
    pub number: u8,
    /// Counts qualifying hardware events since registration.  A counter
    /// rather than a flag, so rapid repeated triggers before a poll are not
    /// ambiguous with "never fired".
    pub signaled: usize,
    /// Wake capability stored by the first poll that found the wait pending.
    pub waker: Option<WakeHandle>,
}

/// The entry a successful registration inserts.
pub open spec fn fresh_entry(id: u8) -> AwaitingPin {
    AwaitingPin { number: id, signaled: 0, waker: None }
}

/// The event counter after one more qualifying event (saturating).
pub open spec fn bumped(n: usize) -> usize {
    if n == usize::MAX {
        n
    } else {
        (n + 1) as usize
    }
}

/// The entry after one more qualifying event.
pub open spec fn bump_entry(e: AwaitingPin) -> AwaitingPin {
    AwaitingPin { signaled: bumped(e.signaled), ..e }
}

/// The entry with its stored wake capability replaced.
pub open spec fn with_waker(e: AwaitingPin, w: WakeHandle) -> AwaitingPin {
    AwaitingPin { waker: Some(w), ..e }
}

/// Whether the status bitmask reports an event on line `id`.
pub open spec fn line_hit(status: u32, id: u8) -> bool {
    id < 32 && status & (1u32 << (id as u32)) != 0
}

/// The entry after a status bitmask has been reconciled against it.
pub open spec fn marked(e: AwaitingPin, status: u32) -> AwaitingPin {
    if line_hit(status, e.number) {
        bump_entry(e)
    } else {
        e
    }
}

/// The entries hold pairwise distinct line identifiers.
pub open spec fn unique_lines(s: Seq<AwaitingPin>) -> bool {
    forall|i: int, j: int| 0 <= i < j < s.len() ==> s[i].number != s[j].number
}

/// The entry for line `id`, if any.  With `unique_lines` the scan direction
/// does not matter.
pub open spec fn lookup(s: Seq<AwaitingPin>, id: u8) -> Option<AwaitingPin>
    decreases s.len(),
{
    if s.len() == 0 {
        None
    } else if s.last().number == id {
        Some(s.last())
    } else {
        lookup(s.drop_last(), id)
    }
}

/// The wake capabilities of the first `k` entries whose line the status
/// bitmask reports, in entry order.
pub open spec fn wakers_upto(s: Seq<AwaitingPin>, status: u32, k: int) -> Seq<WakeHandle>
    decreases k,
{
    if k <= 0 {
        Seq::empty()
    } else {
        let w = wakers_upto(s, status, k - 1);
        if line_hit(status, s[k - 1].number) && s[k - 1].waker is Some {
            w.push(s[k - 1].waker.unwrap())
        } else {
            w
        }
    }
}

/// The wake capabilities a reconciliation of `status` collects.
pub open spec fn wakers_hit(s: Seq<AwaitingPin>, status: u32) -> Seq<WakeHandle> {
    wakers_upto(s, status, s.len() as int)
}

/// A line is found exactly when some entry carries it.
pub proof fn lemma_lookup_exists(s: Seq<AwaitingPin>, id: u8)
    ensures
        (lookup(s, id) is Some) <==> (exists|i: int| 0 <= i < s.len() && s[i].number == id),
    decreases s.len(),
{
    if s.len() == 0 {
    } else if s.last().number == id {
        assert(s[s.len() - 1].number == id);
    } else {
        lemma_lookup_exists(s.drop_last(), id);
        if exists|i: int| 0 <= i < s.len() && s[i].number == id {
            let i = choose|i: int| 0 <= i < s.len() && s[i].number == id;
            assert(s.drop_last()[i] == s[i]);
        }
        if exists|i: int| 0 <= i < s.drop_last().len() && s.drop_last()[i].number == id {
            let i = choose|i: int| 0 <= i < s.drop_last().len() && s.drop_last()[i].number == id;
            assert(s[i].number == id);
        }
    }
}

/// Dropping the last entry keeps the line identifiers distinct.
pub proof fn lemma_unique_drop_last(s: Seq<AwaitingPin>)
    requires
        unique_lines(s),
        s.len() > 0,
    ensures
        unique_lines(s.drop_last()),
{
    assert forall|i: int, j: int|
        0 <= i < j < s.drop_last().len() implies s.drop_last()[i].number
        != s.drop_last()[j].number by {
        assert(s.drop_last()[i] == s[i]);
        assert(s.drop_last()[j] == s[j]);
    }
}

/// With distinct lines, the entry carrying a line is the one found.
pub proof fn lemma_lookup_at(s: Seq<AwaitingPin>, i: int)
    requires
        unique_lines(s),
        0 <= i < s.len(),
    ensures
        lookup(s, s[i].number) == Some(s[i]),
    decreases s.len(),
{
    let id = s[i].number;
    if s.last().number == id {
        if i < s.len() - 1 {
            assert(s[i].number != s[s.len() - 1].number);
            assert(false);
        }
    } else {
        assert(i < s.len() - 1);
        lemma_unique_drop_last(s);
        lemma_lookup_at(s.drop_last(), i);
        assert(s.drop_last()[i] == s[i]);
    }
}

/// Replacing one entry with one for the same line changes exactly that
/// line's lookup.
pub proof fn lemma_lookup_update(s: Seq<AwaitingPin>, i: int, e2: AwaitingPin, id: u8)
    requires
        unique_lines(s),
        0 <= i < s.len(),
        e2.number == s[i].number,
    ensures
        lookup(s.update(i, e2), id) == (if id == s[i].number {
            Some(e2)
        } else {
            lookup(s, id)
        }),
    decreases s.len(),
{
    let t = s.update(i, e2);
    if i == s.len() - 1 {
        assert(t.last() == e2);
        assert(t.drop_last() =~= s.drop_last());
    } else {
        assert(t.last() == s.last());
        assert(t.drop_last() =~= s.drop_last().update(i, e2));
        if s.last().number == id {
            assert(s[i].number != s[s.len() - 1].number);
        } else {
            lemma_unique_drop_last(s);
            lemma_lookup_update(s.drop_last(), i, e2, id);
            assert(s.drop_last()[i] == s[i]);
        }
    }
}

/// Replacing one entry with one for the same line keeps the lines distinct.
pub proof fn lemma_unique_update(s: Seq<AwaitingPin>, i: int, e2: AwaitingPin)
    requires
        unique_lines(s),
        0 <= i < s.len(),
        e2.number == s[i].number,
    ensures
        unique_lines(s.update(i, e2)),
{
    let t = s.update(i, e2);
    assert forall|a: int, b: int| 0 <= a < b < t.len() implies t[a].number != t[b].number by {
        assert(t[a].number == s[a].number);
        assert(t[b].number == s[b].number);
    }
}

/// Removing one entry forgets exactly its line.
pub proof fn lemma_lookup_remove(s: Seq<AwaitingPin>, i: int, id: u8)
    requires
        unique_lines(s),
        0 <= i < s.len(),
    ensures
        lookup(s.remove(i), id) == (if id == s[i].number {
            None::<AwaitingPin>
        } else {
            lookup(s, id)
        }),
    decreases s.len(),
{
    let t = s.remove(i);
    if i == s.len() - 1 {
        assert(t =~= s.drop_last());
        if id == s[i].number {
            lemma_lookup_exists(s.drop_last(), id);
            if lookup(s.drop_last(), id) is Some {
                let j = choose|j: int|
                    0 <= j < s.drop_last().len() && s.drop_last()[j].number == id;
                assert(s[j].number == s[i].number);
                assert(false);
            }
        }
    } else {
        assert(t.len() == s.len() - 1);
        assert(t.last() == s.last());
        assert(t.drop_last() =~= s.drop_last().remove(i));
        if s.last().number == id {
            assert(s[i].number != s[s.len() - 1].number);
        } else {
            lemma_unique_drop_last(s);
            lemma_lookup_remove(s.drop_last(), i, id);
            assert(s.drop_last()[i] == s[i]);
        }
    }
}

/// Removing one entry keeps the remaining lines distinct.
pub proof fn lemma_unique_remove(s: Seq<AwaitingPin>, i: int)
    requires
        unique_lines(s),
        0 <= i < s.len(),
    ensures
        unique_lines(s.remove(i)),
{
    let t = s.remove(i);
    assert forall|a: int, b: int| 0 <= a < b < t.len() implies t[a].number != t[b].number by {
        let a0: int = if a < i {
            a
        } else {
            a + 1
        };
        let b0: int = if b < i {
            b
        } else {
            b + 1
        };
        assert(t[a] == s[a0]);
        assert(t[b] == s[b0]);
    }
}

/// Law: beginning a wait, recording one hardware event, and completing the
/// wait on the same line fit together.  `r1` and `r2` are states a
/// successful `register(id)` and a following `mark_signaled(id)` promise;
/// the entry `take_if_signaled(id)` then observes is the freshly signaled
/// one — its counter moved from zero to one, so the completion branch of
/// `take_if_signaled` applies — and every other line stands exactly as it
/// began.
pub proof fn lemma_register_mark_take(r0: Registry, r1: Registry, r2: Registry, id: u8)
    requires
        r0.entry(id) is None,
        r1.entry(id) == Some(fresh_entry(id)),
        forall|o: u8| o != id ==> r1.entry(o) == r0.entry(o),
        r2.entry(id) == Some(bump_entry(r1.entry(id).unwrap())),
        forall|o: u8| o != id ==> r2.entry(o) == r1.entry(o),
    ensures
        r2.entry(id) == Some((AwaitingPin { number: id, signaled: 1, waker: None })),
        r2.entry(id).unwrap().signaled > 0,
        forall|o: u8| o != id ==> r2.entry(o) == r0.entry(o),
{
    assert(bump_entry(fresh_entry(id)) == (AwaitingPin { number: id, signaled: 1, waker: None }));
    assert forall|o: u8| o != id implies r2.entry(o) == r0.entry(o) by {
        assert(r2.entry(o) == r1.entry(o));
    }
}

/// The fixed-capacity table of pending waits.
///
/// A process owns a single registry for the life of the program.  Both the
/// main control flow and the line-event service routine mutate it; each
/// caller holds the exclusive borrow for the span that, on a target with
/// interrupts, is its critical section.
pub struct Registry {
    entries: Vec<AwaitingPin>,
}

impl View for Registry {
    type V = Seq<AwaitingPin>;

    closed spec fn view(&self) -> Seq<AwaitingPin> {
        self.entries@
    }
}

impl Registry {
    /// Well-formed: distinct lines, within the fixed capacity.
    pub open spec fn wf(&self) -> bool {
        unique_lines(self@) && self@.len() <= CAPACITY
    }

    /// The pending entry for a line, if any.
    pub open spec fn entry(&self, id: u8) -> Option<AwaitingPin> {
        lookup(self@, id)
    }

    /// How many lines are currently awaited.
    pub open spec fn line_count(&self) -> nat {
        self@.len()
    }

    /// An empty registry.
    pub fn new() -> (r: Registry)
        ensures
            r.wf(),
            r.line_count() == 0,
            forall|id: u8| r.entry(id) is None,
    {
        let r = Registry { entries: Vec::new() };
        proof {
            assert(forall|id: u8| lookup(r@, id) is None);
        }
        r
    }

    /// The index holding a line's entry, if any.
    fn find_index(&self, id: u8) -> (r: Option<usize>)
        requires
            self.wf(),
        ensures
            match r {
                Some(i) => i < self@.len() && self@[i as int].number == id && self.entry(id)
                    == Some(self@[i as int]),
                None => self.entry(id) is None,
            },
    {
        let mut i: usize = 0;
        while i < self.entries.len()
            invariant
                i <= self@.len(),
                self.wf(),
                forall|j: int| 0 <= j < i ==> self@[j].number != id,
            decreases self@.len() - i,
        {
            if self.entries[i].number == id {
                proof {
                    lemma_lookup_at(self@, i as int);
                }
                return Some(i);
            }
            i = i + 1;
        }
        proof {
            lemma_lookup_exists(self@, id);
        }
        None
    }

    /// How many lines are currently awaited.
    pub fn len(&self) -> (r: usize)
        ensures
            r == self.line_count(),
    {
        self.entries.len()
    }

    /// Whether a line has a pending entry.
    pub fn contains_line(&self, id: u8) -> (r: bool)
        requires
            self.wf(),
        ensures
            r == (self.entry(id) is Some),
    {
        self.find_index(id).is_some()
    }

    /// A copy of a line's pending entry, if any.
    pub fn get(&self, id: u8) -> (r: Option<AwaitingPin>)
        requires
            self.wf(),
        ensures
            r == self.entry(id),
    {
        match self.find_index(id) {
            Some(i) => Some(self.entries[i]),
            None => None,
        }
    }

    /// Begin a wait on a line: insert a fresh entry.
    ///
    /// Fails with `AlreadyAwaiting` if the line has a pending entry, and
    /// with `CapacityExceeded` if the table is full.
    pub fn register(&mut self, id: u8) -> (r: Result<(), AsyncError>)
        requires
            old(self).wf(),
        ensures
            final(self).wf(),
            match r {
                Ok(()) => old(self).entry(id) is None && old(self).line_count() < CAPACITY
                    && final(self).entry(id) == Some(fresh_entry(id)) && final(self).line_count()
                    == old(self).line_count() + 1 && (forall|o: u8|
                    o != id ==> final(self).entry(o) == old(self).entry(o)),
                Err(e) => final(self)@ == old(self)@ && ((e == AsyncError::AlreadyAwaiting && old(
                    self,
                ).entry(id) is Some) || (e == AsyncError::CapacityExceeded && old(self).entry(
                    id,
                ) is None && old(self).line_count() >= CAPACITY)),
            },
    {
        match self.find_index(id) {
            Some(_) => Err(AsyncError::AlreadyAwaiting),
            None => {
                if self.entries.len() >= CAPACITY {
                    Err(AsyncError::CapacityExceeded)
                } else {
                    proof {
                        lemma_lookup_exists(self@, id);
                    }
                    let ghost s0 = self@;
                    self.entries.push(
                        AwaitingPin { number: id, signaled: 0, waker: None },
                    );
                    proof {
                        assert(self@.last() == fresh_entry(id));
                        assert(self@.drop_last() =~= s0);
                        assert(self.entry(id) == Some(fresh_entry(id)));
                        assert forall|o: u8| o != id implies lookup(self@, o) == lookup(
                            s0,
                            o,
                        ) by {}
                        assert forall|a: int, b: int|
                            0 <= a < b < self@.len() implies self@[a].number
                            != self@[b].number by {
                            if b == s0.len() {
                                assert(self@[a] == s0[a]);
                            } else {
                                assert(self@[a] == s0[a]);
                                assert(self@[b] == s0[b]);
                            }
                        }
                    }
                    Ok(())
                }
            },
        }
    }

    /// Record a qualifying hardware event on a line: bump its event counter
    /// and hand back any stored wake capability, keeping the entry.  A line
    /// nobody waits on is a no-op.
    pub fn mark_signaled(&mut self, id: u8) -> (r: Option<WakeHandle>)
        requires
            old(self).wf(),
        ensures
            final(self).wf(),
            final(self).line_count() == old(self).line_count(),
            forall|o: u8| o != id ==> final(self).entry(o) == old(self).entry(o),
            match old(self).entry(id) {
                Some(e) => r == e.waker && final(self).entry(id) == Some(bump_entry(e)),
                None => r is None && final(self)@ == old(self)@,
            },
    {
        match self.find_index(id) {
            None => None,
            Some(i) => {
                let e = self.entries[i];
                let ns: usize = if e.signaled == usize::MAX {
                    e.signaled
                } else {
                    e.signaled + 1
                };
                let ghost s0 = self@;
                self.entries[i] = AwaitingPin { number: e.number, signaled: ns, waker: e.waker };
                proof {
                    assert(self@ =~= s0.update(i as int, bump_entry(e)));
                    lemma_unique_update(s0, i as int, bump_entry(e));
                    assert forall|o: u8| o != id implies lookup(self@, o) == lookup(s0, o) by {
                        lemma_lookup_update(s0, i as int, bump_entry(e), o);
                    }
                    lemma_lookup_update(s0, i as int, bump_entry(e), id);
                }
                e.waker
            },
        }
    }

    /// Store the polling task's wake capability on a line's pending,
    /// not-yet-signaled entry, overwriting any previous one.  A missing or
    /// already-signaled entry is left as it is.
    pub fn attach_waker(&mut self, id: u8, w: WakeHandle)
        requires
            old(self).wf(),
        ensures
            final(self).wf(),
            final(self).line_count() == old(self).line_count(),
            forall|o: u8| o != id ==> final(self).entry(o) == old(self).entry(o),
            match old(self).entry(id) {
                Some(e) => if e.signaled == 0 {
                    final(self).entry(id) == Some(with_waker(e, w))
                } else {
                    final(self)@ == old(self)@
                },
                None => final(self)@ == old(self)@,
            },
    {
        match self.find_index(id) {
            None => (),
            Some(i) => {
                let e = self.entries[i];
                if e.signaled == 0 {
                    let ghost s0 = self@;
                    self.entries[i] = AwaitingPin {
                        number: e.number,
                        signaled: e.signaled,
                        waker: Some(w),
                    };
                    proof {
                        assert(self@ =~= s0.update(i as int, with_waker(e, w)));
                        lemma_unique_update(s0, i as int, with_waker(e, w));
                        assert forall|o: u8| o != id implies lookup(self@, o) == lookup(
                            s0,
                            o,
                        ) by {
                            lemma_lookup_update(s0, i as int, with_waker(e, w), o);
                        }
                        lemma_lookup_update(s0, i as int, with_waker(e, w), id);
                    }
                }
            },
        }
    }

    /// Complete a wait: if the line's entry has been signaled, remove and
    /// return it; a missing or not-yet-signaled entry stays put.
    pub fn take_if_signaled(&mut self, id: u8) -> (r: Option<AwaitingPin>)
        requires
            old(self).wf(),
        ensures
            final(self).wf(),
            forall|o: u8| o != id ==> final(self).entry(o) == old(self).entry(o),
            match old(self).entry(id) {
                Some(e) => if e.signaled > 0 {
                    r == Some(e) && final(self).entry(id) is None && final(self).line_count() + 1
                        == old(self).line_count()
                } else {
                    r is None && final(self)@ == old(self)@
                },
                None => r is None && final(self)@ == old(self)@,
            },
    {
        match self.find_index(id) {
            None => None,
            Some(i) => {
                if self.entries[i].signaled > 0 {
                    let ghost s0 = self@;
                    let e = self.entries.remove(i);
                    proof {
                        lemma_unique_remove(s0, i as int);
                        assert forall|o: u8| o != id implies lookup(self@, o) == lookup(
                            s0,
                            o,
                        ) by {
                            lemma_lookup_remove(s0, i as int, o);
                        }
                        lemma_lookup_remove(s0, i as int, id);
                    }
                    Some(e)
                } else {
                    None
                }
            },
        }
    }

    /// Reconcile a hardware status bitmask against the table in one pass:
    /// every awaited line whose bit is set has its event counter bumped, and
    /// the wake capabilities those entries had stored come back in entry
    /// order.  Lines nobody waits on are ignored.
    pub fn mark_signaled_mask(&mut self, status: u32) -> (r: Vec<WakeHandle>)
        requires
            old(self).wf(),
        ensures
            final(self).wf(),
            final(self).line_count() == old(self).line_count(),
            forall|j: int|
                0 <= j < old(self)@.len() ==> final(self)@[j] == marked(old(self)@[j], status),
            r@ == wakers_hit(old(self)@, status),
            forall|id: u8|
                final(self).entry(id) == (match old(self).entry(id) {
                    Some(e) => Some(marked(e, status)),
                    None => None::<AwaitingPin>,
                }),
    {
        let mut out: Vec<WakeHandle> = Vec::new();
        let mut i: usize = 0;
        while i < self.entries.len()
            invariant
                i <= self@.len(),
                self@.len() == old(self)@.len(),
                unique_lines(old(self)@),
                old(self)@.len() <= CAPACITY,
                forall|j: int| 0 <= j < i ==> self@[j] == marked(old(self)@[j], status),
                forall|j: int| i <= j < self@.len() ==> self@[j] == old(self)@[j],
                out@ == wakers_upto(old(self)@, status, i as int),
            decreases self@.len() - i,
        {
            let e = self.entries[i];
            let hit = e.number < 32 && (status & (1u32 << (e.number as u32))) != 0;
            proof {
                assert(e == old(self)@[i as int]);
                assert(hit == line_hit(status, e.number));
            }
            if hit {
                let ns: usize = if e.signaled == usize::MAX {
                    e.signaled
                } else {
                    e.signaled + 1
                };
                self.entries[i] = AwaitingPin { number: e.number, signaled: ns, waker: e.waker };
                if let Some(w) = e.waker {
                    out.push(w);
                }
            }
            i = i + 1;
            proof {
                assert(out@ == wakers_upto(old(self)@, status, i as int));
            }
        }
        proof {
            let s0 = old(self)@;
            let s1 = self@;
            assert forall|a: int, b: int| 0 <= a < b < s1.len() implies s1[a].number
                != s1[b].number by {
                assert(s1[a].number == s0[a].number);
                assert(s1[b].number == s0[b].number);
            }
            assert forall|id: u8|
                lookup(s1, id) == (match lookup(s0, id) {
                    Some(e) => Some(marked(e, status)),
                    None => None::<AwaitingPin>,
                }) by {
                lemma_lookup_exists(s0, id);
                lemma_lookup_exists(s1, id);
                if lookup(s0, id) is Some {
                    let j = choose|j: int| 0 <= j < s0.len() && s0[j].number == id;
                    lemma_lookup_at(s0, j);
                    assert(s1[j].number == id);
                    lemma_lookup_at(s1, j);
                } else {
                    if exists|j: int| 0 <= j < s1.len() && s1[j].number == id {
                        let j = choose|j: int| 0 <= j < s1.len() && s1[j].number == id;
                        assert(s0[j].number == id);
                    }
                }
            }
        }
        out
    }
}

} // verus!
