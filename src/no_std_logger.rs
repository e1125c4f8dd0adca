use vstd::prelude::*;

verus! {

/// The number of record slots in a pool.
pub const MAX_LOG_ENTRIES: usize = 1024;

/// The width in bytes of every stored message.
pub const MAX_LOG_LENGTH: usize = 1024;

/// The errors of the fixed-capacity recorder.
#[derive(Debug, Clone, Copy, PartialEq, Eq, Structural)]
pub enum OverflowError {
    /// Every slot of the pool is occupied.
    BufferEntryOverflow,
    /// A slot index outside the pool was given.
    InvalidIndex(usize),
    /// The render callback failed; the pass stopped at that record.
    RenderFailure,
    /// The pass saw at least one fatal record; this is the identifier of the last one.
    FatalObserved(usize),
}

/// The kind of a record, which decides the callback that handles it.
#[derive(Debug, Clone, Copy, PartialEq, Eq, Structural)]
pub enum LoggingTypeNS {
    /// An unrecoverable error: the pass reports failure once it is over.
    Error,
    /// Potentially hazardous behaviour.
    Warning,
    /// Ordinary information.
    Log,
    /// A point reached in the program.
    Marker,
}

/// What an occupied slot holds.
pub struct EntryNS {
    /// Exactly `MAX_LOG_LENGTH` bytes.
    pub message: Seq<u8>,
    pub id: usize,
    pub kind: LoggingTypeNS,
}

/// The message bytes that are stored for `m`: its first `MAX_LOG_LENGTH`
/// bytes, padded with zero bytes when it is shorter.
pub open spec fn stored_message(m: Seq<u8>) -> Seq<u8> {
    if m.len() >= MAX_LOG_LENGTH {
        m.subrange(0, MAX_LOG_LENGTH as int)
    } else {
        m + Seq::new((MAX_LOG_LENGTH - m.len()) as nat, |i: int| 0u8)
    }
}

/// The record that appending `message`, `id` and `kind` stores.
pub open spec fn stored_entry(message: Seq<u8>, id: usize, kind: LoggingTypeNS) -> EntryNS {
    EntryNS { message: stored_message(message), id, kind }
}

/// The message a marker gets when none is given: "Marker Place".
pub open spec fn marker_placeholder() -> Seq<u8> {
    seq![77u8, 97, 114, 107, 101, 114, 32, 80, 108, 97, 99, 101]
}

/// `slot` is the lowest free slot of `pool`.
pub open spec fn lowest_free(pool: Seq<Option<EntryNS>>, slot: int) -> bool {
    &&& 0 <= slot < pool.len()
    &&& pool[slot] is None
    &&& forall|j: int| 0 <= j < slot ==> (#[trigger] pool[j]) is Some
}

/// No slot of `pool` is free.
pub open spec fn is_full(pool: Seq<Option<EntryNS>>) -> bool {
    forall|j: int| 0 <= j < pool.len() ==> (#[trigger] pool[j]) is Some
}

/// `after` and `r` are what appending the record `e` to `before` gives:
/// `e` lands in the lowest free slot, whose index is returned, or, when no
/// slot is free, `BufferEntryOverflow` comes back and nothing changes.
pub open spec fn appended(
    before: Seq<Option<EntryNS>>,
    after: Seq<Option<EntryNS>>,
    r: Result<usize, OverflowError>,
    e: EntryNS,
) -> bool {
    match r {
        Ok(slot) => {
            &&& lowest_free(before, slot as int)
            &&& after == before.update(slot as int, Some(e))
        },
        Err(err) => {
            &&& err == OverflowError::BufferEntryOverflow
            &&& is_full(before)
            &&& after == before
        },
    }
}

/// A pool with every slot free.
pub open spec fn empty_pool() -> Seq<Option<EntryNS>> {
    Seq::new(MAX_LOG_ENTRIES as nat, |i: int| None)
}

/// The identifier of the last fatal record among the first `n` slots of `pool`.
pub open spec fn last_fatal(pool: Seq<Option<EntryNS>>, n: int) -> Option<usize>
    decreases n,
{
    if n <= 0 {
        None
    } else {
        match pool[n - 1] {
            Some(e) => if e.kind == LoggingTypeNS::Error {
                Some(e.id)
            } else {
                last_fatal(pool, n - 1)
            },
            None => last_fatal(pool, n - 1),
        }
    }
}

/// What a pass over `pool` reports when no render fails: the identifier of
/// the last fatal record if there is one, success otherwise.
pub open spec fn pass_outcome(pool: Seq<Option<EntryNS>>) -> Result<(), OverflowError> {
    match last_fatal(pool, pool.len() as int) {
        Some(id) => Err(OverflowError::FatalObserved(id)),
        None => Ok(()),
    }
}

/// Slot `i` of `pool` holds a record that goes to the render callback.
pub open spec fn renders_at(pool: Seq<Option<EntryNS>>, i: int) -> bool {
    &&& 0 <= i < pool.len()
    &&& pool[i] is Some
    &&& pool[i]->Some_0.kind != LoggingTypeNS::Error
}

/// Slot `i` of `pool` holds a fatal record, which goes to the crash callback.
pub open spec fn crashes_at(pool: Seq<Option<EntryNS>>, i: int) -> bool {
    &&& 0 <= i < pool.len()
    &&& pool[i] is Some
    &&& pool[i]->Some_0.kind == LoggingTypeNS::Error
}

/// `crasher` may have been handed the record `e` and returned.
pub open spec fn crash_may_return<P: Fn([u8; MAX_LOG_LENGTH], usize, LoggingTypeNS)>(
    crasher: P,
    e: EntryNS,
) -> bool {
    exists|m: [u8; MAX_LOG_LENGTH]|
        m@ == e.message && #[trigger] call_ensures(crasher, (m, e.id, e.kind), ())
}

/// `printer`, handed the record `e`, may return `out`.
pub open spec fn render_may_return<
    S: Fn([u8; MAX_LOG_LENGTH], usize, LoggingTypeNS) -> Result<(), OverflowError>,
>(printer: S, e: EntryNS, out: Result<(), OverflowError>) -> bool {
    exists|m: [u8; MAX_LOG_LENGTH]|
        m@ == e.message && #[trigger] call_ensures(printer, (m, e.id, e.kind), out)
}

/// The number of occupied slots among the first `n` slots of `pool`.
pub open spec fn occupied_count(pool: Seq<Option<EntryNS>>, n: int) -> nat
    decreases n,
{
    if n <= 0 {
        0
    } else {
        occupied_count(pool, n - 1) + if pool[n - 1] is Some {
            1nat
        } else {
            0nat
        }
    }
}

proof fn lemma_count_bound(pool: Seq<Option<EntryNS>>, n: int)
    requires
        0 <= n,
    ensures
        occupied_count(pool, n) <= n,
    decreases n,
{
    if n > 0 {
        lemma_count_bound(pool, n - 1);
    }
}

proof fn lemma_count_all(pool: Seq<Option<EntryNS>>, n: int)
    requires
        0 <= n,
        occupied_count(pool, n) == n,
    ensures
        forall|j: int| 0 <= j < n ==> (#[trigger] pool[j]) is Some,
    decreases n,
{
    if n > 0 {
        lemma_count_bound(pool, n - 1);
        lemma_count_all(pool, n - 1);
    }
}

proof fn lemma_count_fill(pool: Seq<Option<EntryNS>>, slot: int, e: EntryNS, n: int)
    requires
        0 <= slot < pool.len(),
        pool[slot] is None,
        0 <= n <= pool.len(),
    ensures
        occupied_count(pool.update(slot, Some(e)), n) == occupied_count(pool, n) + if slot < n {
            1nat
        } else {
            0nat
        },
    decreases n,
{
    if n > 0 {
        lemma_count_fill(pool, slot, e, n - 1);
    }
}

proof fn lemma_capacity_steps(
    pools: Seq<Seq<Option<EntryNS>>>,
    slots: Seq<usize>,
    entries: Seq<EntryNS>,
    k: int,
)
    requires
        0 <= k <= MAX_LOG_ENTRIES,
        pools.len() == MAX_LOG_ENTRIES + 1,
        slots.len() == MAX_LOG_ENTRIES,
        entries.len() == MAX_LOG_ENTRIES,
        pools[0].len() == MAX_LOG_ENTRIES,
        forall|i: int|
            0 <= i < MAX_LOG_ENTRIES ==> appended(
                pools[i],
                pools[i + 1],
                Ok(#[trigger] slots[i]),
                entries[i],
            ),
    ensures
        pools[k].len() == MAX_LOG_ENTRIES,
        occupied_count(pools[k], MAX_LOG_ENTRIES as int) >= k,
    decreases k,
{
    if k > 0 {
        lemma_capacity_steps(pools, slots, entries, k - 1);
        assert(appended(pools[k - 1], pools[k], Ok(slots[k - 1]), entries[k - 1]));
        lemma_count_fill(pools[k - 1], slots[k - 1] as int, entries[k - 1], MAX_LOG_ENTRIES as int);
    }
}

/// Capacity: after `MAX_LOG_ENTRIES` successful appends with no release in
/// between, the next append fails with `BufferEntryOverflow` and changes
/// nothing.
///
/// `pools[k]` is the pool before the `k`-th append, `slots[k]` the slot that
/// append returned and `entries[k]` the record it stored.
pub proof fn lemma_capacity(
    pools: Seq<Seq<Option<EntryNS>>>,
    slots: Seq<usize>,
    entries: Seq<EntryNS>,
)
    requires
        pools.len() == MAX_LOG_ENTRIES + 1,
        slots.len() == MAX_LOG_ENTRIES,
        entries.len() == MAX_LOG_ENTRIES,
        pools[0].len() == MAX_LOG_ENTRIES,
        forall|i: int|
            0 <= i < MAX_LOG_ENTRIES ==> appended(
                pools[i],
                pools[i + 1],
                Ok(#[trigger] slots[i]),
                entries[i],
            ),
    ensures
        is_full(pools[MAX_LOG_ENTRIES as int]),
        forall|after: Seq<Option<EntryNS>>, r: Result<usize, OverflowError>, e: EntryNS|
            #[trigger] appended(pools[MAX_LOG_ENTRIES as int], after, r, e) ==> r == Err::<
                usize,
                OverflowError,
            >(OverflowError::BufferEntryOverflow) && after == pools[MAX_LOG_ENTRIES as int],
{
    let last = pools[MAX_LOG_ENTRIES as int];
    lemma_capacity_steps(pools, slots, entries, MAX_LOG_ENTRIES as int);
    lemma_count_bound(last, MAX_LOG_ENTRIES as int);
    lemma_count_all(last, MAX_LOG_ENTRIES as int);
}

/// Release reuse: when an append has put `first` in `slot` and that slot is
/// released, the next append takes the same slot again and replaces `first`
/// with `second`.
pub proof fn lemma_release_reuse(
    pool: Seq<Option<EntryNS>>,
    filled: Seq<Option<EntryNS>>,
    slot: usize,
    first: EntryNS,
    second: EntryNS,
)
    requires
        appended(pool, filled, Ok(slot), first),
    ensures
        forall|after: Seq<Option<EntryNS>>, r: Result<usize, OverflowError>|
            #[trigger] appended(filled.update(slot as int, None), after, r, second) ==> r == Ok::<
                usize,
                OverflowError,
            >(slot) && after == filled.update(slot as int, Some(second)),
{
    let released = filled.update(slot as int, None);
    assert(released =~= pool);
    assert(filled.update(slot as int, Some(second)) =~= pool.update(slot as int, Some(second)));
    assert forall|after: Seq<Option<EntryNS>>, r: Result<usize, OverflowError>|
        #[trigger] appended(released, after, r, second) implies r == Ok::<usize, OverflowError>(
            slot,
        ) && after == filled.update(slot as int, Some(second)) by {
        match r {
            Ok(s) => {
                if s < slot {
                    assert(pool[s as int] is Some);
                } else if s > slot {
                    assert(pool[slot as int] is Some);
                }
            },
            Err(_) => {
                assert(pool[slot as int] is Some);
            },
        }
    }
}

proof fn lemma_no_fatal_prefix(pool: Seq<Option<EntryNS>>, n: int)
    requires
        n <= pool.len(),
        forall|i: int|
            0 <= i < pool.len() && (#[trigger] pool[i]) is Some ==> pool[i]->Some_0.kind
                != LoggingTypeNS::Error,
    ensures
        last_fatal(pool, n) is None,
    decreases n,
{
    if n > 0 {
        lemma_no_fatal_prefix(pool, n - 1);
    }
}

/// No-fatal pass: over a pool without fatal records, a pass in which no
/// render fails reports success.
pub proof fn lemma_no_fatal_pass(pool: Seq<Option<EntryNS>>)
    requires
        forall|i: int|
            0 <= i < pool.len() && (#[trigger] pool[i]) is Some ==> pool[i]->Some_0.kind
                != LoggingTypeNS::Error,
    ensures
        pass_outcome(pool) == Ok::<(), OverflowError>(()),
{
    lemma_no_fatal_prefix(pool, pool.len() as int);
}

/// Copies `message` into a fixed-width buffer, truncating or zero-padding it.
fn fixed_message(message: &[u8]) -> (r: [u8; MAX_LOG_LENGTH])
    ensures
        r@ == stored_message(message@),
{
    let mut buf = [0u8; MAX_LOG_LENGTH];
    let n: usize = if message.len() < MAX_LOG_LENGTH {
        message.len()
    } else {
        MAX_LOG_LENGTH
    };
    let mut i: usize = 0;
    while i < n
        invariant
            n <= message@.len(),
            n <= MAX_LOG_LENGTH,
            n == message@.len() || n == MAX_LOG_LENGTH,
            i <= n,
            buf@.len() == MAX_LOG_LENGTH,
            forall|j: int| 0 <= j < i ==> buf@[j] == message@[j],
            forall|j: int| i <= j < MAX_LOG_LENGTH ==> buf@[j] == 0u8,
        decreases n - i,
    {
        buf[i] = message[i];
        i += 1;
    }
    assert(buf@ =~= stored_message(message@));
    buf
}

/// A fixed-capacity recorder: a pool of `MAX_LOG_ENTRIES` slots, each either
/// free or holding one record.
///
/// Its storage is allocated once, at construction, with room for every slot,
/// and is never grown or shrunk afterwards. The record of slot `i` is kept in
/// the `i`-th element of three parallel vectors; `free_slots` tells which
/// slots are occupied.
pub struct LoggerNS {
    log: Vec<[u8; MAX_LOG_LENGTH]>,
    log_id: Vec<usize>,
    log_type: Vec<LoggingTypeNS>,
    free_slots: Vec<bool>,
}

impl View for LoggerNS {
    type V = Seq<Option<EntryNS>>;

    /// Slot by slot: `None` when free, the record when occupied.
    closed spec fn view(&self) -> Seq<Option<EntryNS>> {
        Seq::new(
            self.free_slots@.len(),
            |i: int|
                if self.free_slots@[i] {
                    None
                } else {
                    Some(EntryNS { message: self.log@[i]@, id: self.log_id@[i], kind: self.log_type@[i] })
                },
        )
    }
}

impl LoggerNS {
    /// The four parallel vectors all have one element per slot.
    pub closed spec fn wf(&self) -> bool {
        &&& self.log@.len() == MAX_LOG_ENTRIES
        &&& self.log_id@.len() == MAX_LOG_ENTRIES
        &&& self.log_type@.len() == MAX_LOG_ENTRIES
        &&& self.free_slots@.len() == MAX_LOG_ENTRIES
    }

    /// Creates a recorder with every slot free.
    pub fn new_logger_ns() -> (r: Self)
        ensures
            r.wf(),
            r@ == empty_pool(),
    {
        let r = LoggerNS {
            log: vec![[0u8; MAX_LOG_LENGTH]; MAX_LOG_ENTRIES],
            log_id: vec![0usize; MAX_LOG_ENTRIES],
            log_type: vec![LoggingTypeNS::Marker; MAX_LOG_ENTRIES],
            free_slots: vec![true; MAX_LOG_ENTRIES],
        };
        assert(r@ =~= empty_pool());
        r
    }

    /// Finds the lowest free slot, scanning from index 0.
    fn next_free_slot(&self) -> (r: Option<usize>)
        requires
            self.wf(),
        ensures
            match r {
                Some(i) => lowest_free(self@, i as int),
                None => is_full(self@),
            },
    {
        let mut i: usize = 0;
        while i < MAX_LOG_ENTRIES
            invariant
                self.wf(),
                i <= MAX_LOG_ENTRIES,
                forall|j: int| 0 <= j < i ==> (#[trigger] self@[j]) is Some,
            decreases MAX_LOG_ENTRIES - i,
        {
            if self.free_slots[i] {
                return Some(i);
            }
            i += 1;
        }
        None
    }

    /// Stores a record in the lowest free slot and returns that slot's index.
    ///
    /// The message is truncated to `MAX_LOG_LENGTH` bytes, or zero-padded to
    /// that width. When no slot is free, nothing changes and
    /// `BufferEntryOverflow` is returned.
    pub fn append(&mut self, message: &[u8], id: usize, kind: LoggingTypeNS) -> (r: Result<
        usize,
        OverflowError,
    >)
        requires
            old(self).wf(),
        ensures
            final(self).wf(),
            appended(old(self)@, final(self)@, r, stored_entry(message@, id, kind)),
    {
        match self.next_free_slot() {
            Some(slot) => {
                let buf = fixed_message(message);
                self.log[slot] = buf;
                self.log_id[slot] = id;
                self.log_type[slot] = kind;
                self.free_slots[slot] = false;
                assert(self@ =~= old(self)@.update(slot as int, Some(stored_entry(message@, id, kind))));
                Ok(slot)
            },
            None => Err(OverflowError::BufferEntryOverflow),
        }
    }

    /// Frees `slot`, so that a later append may reuse it.
    ///
    /// An index outside the pool gives `InvalidIndex` and changes nothing.
    /// Freeing a slot that is already free changes nothing either.
    pub fn release(&mut self, slot: usize) -> (r: Result<(), OverflowError>)
        requires
            old(self).wf(),
        ensures
            final(self).wf(),
            slot < MAX_LOG_ENTRIES ==> r == Ok::<(), OverflowError>(()) && final(self)@ == old(
                self,
            )@.update(slot as int, None),
            slot >= MAX_LOG_ENTRIES ==> r == Err::<(), OverflowError>(
                OverflowError::InvalidIndex(slot),
            ) && final(self)@ == old(self)@,
    {
        if slot < MAX_LOG_ENTRIES {
            self.free_slots[slot] = true;
            assert(self@ =~= old(self)@.update(slot as int, None));
            Ok(())
        } else {
            Err(OverflowError::InvalidIndex(slot))
        }
    }

    /// Appends a marker. Without a message it gets the placeholder
    /// "Marker Place"; without an identifier it gets 0.
    pub fn add_marker(&mut self, message: Option<&[u8]>, id: Option<usize>) -> (r: Result<
        usize,
        OverflowError,
    >)
        requires
            old(self).wf(),
        ensures
            final(self).wf(),
            appended(
                old(self)@,
                final(self)@,
                r,
                stored_entry(
                    match message {
                        Some(m) => m@,
                        None => marker_placeholder(),
                    },
                    match id {
                        Some(n) => n,
                        None => 0usize,
                    },
                    LoggingTypeNS::Marker,
                ),
            ),
    {
        let placeholder: [u8; 12] = [
            77u8, 97, 114, 107, 101, 114, 32, 80, 108, 97, 99, 101,
        ];
        assert(placeholder@ =~= marker_placeholder());
        let n: usize = match id {
            Some(n) => n,
            None => 0,
        };
        match message {
            Some(m) => self.append(m, n, LoggingTypeNS::Marker),
            None => self.append(placeholder.as_slice(), n, LoggingTypeNS::Marker),
        }
    }

    /// Appends an ordinary log record.
    pub fn add_log(&mut self, message: &[u8], id: usize) -> (r: Result<usize, OverflowError>)
        requires
            old(self).wf(),
        ensures
            final(self).wf(),
            appended(old(self)@, final(self)@, r, stored_entry(message@, id, LoggingTypeNS::Log)),
    {
        self.append(message, id, LoggingTypeNS::Log)
    }

    /// Appends a warning record.
    pub fn add_warning(&mut self, message: &[u8], id: usize) -> (r: Result<usize, OverflowError>)
        requires
            old(self).wf(),
        ensures
            final(self).wf(),
            appended(old(self)@, final(self)@, r, stored_entry(message@, id, LoggingTypeNS::Warning)),
    {
        self.append(message, id, LoggingTypeNS::Warning)
    }

    /// Appends a fatal record; a later pass will report failure because of it.
    pub fn add_error(&mut self, message: &[u8], id: usize) -> (r: Result<usize, OverflowError>)
        requires
            old(self).wf(),
        ensures
            final(self).wf(),
            appended(old(self)@, final(self)@, r, stored_entry(message@, id, LoggingTypeNS::Error)),
    {
        self.append(message, id, LoggingTypeNS::Error)
    }

    /// Replays the occupied slots in ascending index order; free slots are
    /// skipped. Marker, log and warning records go to `printer`, fatal
    /// records to `crasher`; each gets the stored message, the identifier and
    /// the kind. The recorder itself is not changed.
    ///
    /// When `printer` fails the pass stops at once with `RenderFailure`.
    /// Otherwise, after the last slot, it reports `FatalObserved` with the
    /// identifier of the last fatal record if there was one, and success if
    /// there was none.
    pub fn parse_logger<S, P>(&self, printer: S, crasher: P) -> (r: Result<(), OverflowError>) where
        S: Fn([u8; MAX_LOG_LENGTH], usize, LoggingTypeNS) -> Result<(), OverflowError>,
        P: Fn([u8; MAX_LOG_LENGTH], usize, LoggingTypeNS),

        requires
            self.wf(),
            forall|m: [u8; MAX_LOG_LENGTH], id: usize, k: LoggingTypeNS|
                call_requires(printer, (m, id, k)),
            forall|m: [u8; MAX_LOG_LENGTH], id: usize, k: LoggingTypeNS|
                call_requires(crasher, (m, id, k)),
        ensures
            r == Err::<(), OverflowError>(OverflowError::RenderFailure) ==> exists|i: int|
                {
                    &&& #[trigger] renders_at(self@, i)
                    &&& exists|e: OverflowError|
                        render_may_return(printer, self@[i]->Some_0, Err(e))
                    &&& forall|j: int|
                        0 <= j < i && renders_at(self@, j) ==> render_may_return(
                            printer,
                            self@[j]->Some_0,
                            Ok(()),
                        )
                    &&& forall|j: int|
                        0 <= j < i && crashes_at(self@, j) ==> crash_may_return(
                            crasher,
                            self@[j]->Some_0,
                        )
                },
            r != Err::<(), OverflowError>(OverflowError::RenderFailure) ==> {
                &&& r == pass_outcome(self@)
                &&& forall|i: int|
                    #[trigger] renders_at(self@, i) ==> render_may_return(
                        printer,
                        self@[i]->Some_0,
                        Ok(()),
                    )
                &&& forall|i: int|
                    #[trigger] crashes_at(self@, i) ==> crash_may_return(crasher, self@[i]->Some_0)
            },
    {
        let mut last_error: Option<usize> = None;
        let mut i: usize = 0;
        while i < MAX_LOG_ENTRIES
            invariant
                self.wf(),
                i <= MAX_LOG_ENTRIES,
                forall|m: [u8; MAX_LOG_LENGTH], id: usize, k: LoggingTypeNS|
                    call_requires(printer, (m, id, k)),
                forall|m: [u8; MAX_LOG_LENGTH], id: usize, k: LoggingTypeNS|
                    call_requires(crasher, (m, id, k)),
                last_error == last_fatal(self@, i as int),
                forall|j: int|
                    0 <= j < i && #[trigger] renders_at(self@, j) ==> render_may_return(
                        printer,
                        self@[j]->Some_0,
                        Ok(()),
                    ),
                forall|j: int|
                    0 <= j < i && #[trigger] crashes_at(self@, j) ==> crash_may_return(
                        crasher,
                        self@[j]->Some_0,
                    ),
            decreases MAX_LOG_ENTRIES - i,
        {
            if !self.free_slots[i] {
                let message = self.log[i];
                let id = self.log_id[i];
                let kind = self.log_type[i];
                assert(self@[i as int] == Some(EntryNS { message: message@, id, kind }));
                match kind {
                    LoggingTypeNS::Error => {
                        crasher(message, id, kind);
                        assert(crash_may_return(crasher, self@[i as int]->Some_0));
                        last_error = Some(id);
                    },
                    _ => {
                        let out = printer(message, id, kind);
                        assert(call_ensures(printer, (message, id, kind), out));
                        match out {
                            Err(e) => {
                                assert(render_may_return(printer, self@[i as int]->Some_0, Err(e)));
                                assert(renders_at(self@, i as int));
                                return Err(OverflowError::RenderFailure);
                            },
                            Ok(u) => {
                                assert(out == Ok::<(), OverflowError>(u));
                                assert(u == ());
                                assert(call_ensures(printer, (message, id, kind), Ok(())));
                                assert(render_may_return(printer, self@[i as int]->Some_0, Ok(())));
                            },
                        }
                    },
                }
            }
            i += 1;
        }
        match last_error {
            Some(id) => Err(OverflowError::FatalObserved(id)),
            None => Ok(()),
        }
    }
}

} // verus!
