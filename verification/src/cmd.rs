//! The single-flight cache over external command invocations.
//!
//! A cache slot is keyed by `(program, arguments)` and moves through
//! three states: absent (not started), in flight, and done. The first
//! caller to poll an absent key is told to spawn the command; every
//! later caller for that key either waits or receives the memoized
//! result. A failed command is memoized as `None` and never retried.
//! The surrounding binary serializes polls through a lock and performs
//! the actual spawn between `poll` and `complete`.

use vstd::prelude::*;

verus! {

/// A command invocation key: the program and its ordered arguments,
/// compared by exact value.
pub struct CmdKey {
    pub program: String,
    pub args: Vec<String>,
}

impl View for CmdKey {
    type V = (Seq<char>, Seq<Seq<char>>);

    open spec fn view(&self) -> (Seq<char>, Seq<Seq<char>>) {
        (self.program@, self.args.deep_view())
    }
}

/// One cache slot: the spawn is running, or its result is recorded.
pub enum CmdSlot {
    InFlight,
    Done(Option<String>),
}

/// Mathematical image of a [`CmdSlot`].
pub enum CmdSlotView {
    InFlight,
    Done(Option<Seq<char>>),
}

pub open spec fn opt_str_view(o: Option<String>) -> Option<Seq<char>> {
    match o {
        Some(s) => Some(s@),
        None => None,
    }
}

/// A captured output as it is cached: right-trimmed when present.
pub open spec fn trimmed_out(o: Option<String>) -> Option<Seq<char>> {
    match o {
        Some(s) => Some(crate::text::trim_end_spec(s@)),
        None => None,
    }
}

impl View for CmdSlot {
    type V = CmdSlotView;

    open spec fn view(&self) -> CmdSlotView {
        match self {
            CmdSlot::InFlight => CmdSlotView::InFlight,
            CmdSlot::Done(o) => CmdSlotView::Done(opt_str_view(*o)),
        }
    }
}

/// What one poll of the cache tells its caller.
pub enum CmdPoll {
    /// The key was absent: the caller must spawn the command and
    /// `complete` the slot with its result.
    Spawn,
    /// The command is already running on behalf of another caller.
    Wait,
    /// The command already ran; here is its memoized result.
    Ready(Option<String>),
}

/// The cache contents after one poll for `k`.
pub open spec fn cache_poll_next(
    m: Map<(Seq<char>, Seq<Seq<char>>), CmdSlotView>,
    k: (Seq<char>, Seq<Seq<char>>),
) -> Map<(Seq<char>, Seq<Seq<char>>), CmdSlotView> {
    if m.dom().contains(k) {
        m
    } else {
        m.insert(k, CmdSlotView::InFlight)
    }
}

/// Whether a poll for `k` tells its caller to spawn.
pub open spec fn cache_poll_spawns(
    m: Map<(Seq<char>, Seq<Seq<char>>), CmdSlotView>,
    k: (Seq<char>, Seq<Seq<char>>),
) -> bool {
    !m.dom().contains(k)
}

/// The key→slot table behind the cache, as a vector of entries with
/// pairwise distinct keys.
pub struct CmdCache {
    entries: Vec<(CmdKey, CmdSlot)>,
}

/// The table built from an entry sequence, later entries winning.
pub open spec fn entries_map(s: Seq<(CmdKey, CmdSlot)>) -> Map<
    (Seq<char>, Seq<Seq<char>>),
    CmdSlotView,
>
    decreases s.len(),
{
    if s.len() == 0 {
        Map::empty()
    } else {
        entries_map(s.drop_last()).insert(s.last().0@, s.last().1@)
    }
}

pub open spec fn distinct_keys(s: Seq<(CmdKey, CmdSlot)>) -> bool {
    forall|i: int, j: int| 0 <= i < j < s.len() ==> (#[trigger] s[i]).0@ != (#[trigger] s[j]).0@
}

impl View for CmdCache {
    type V = Map<(Seq<char>, Seq<Seq<char>>), CmdSlotView>;

    closed spec fn view(&self) -> Map<(Seq<char>, Seq<Seq<char>>), CmdSlotView> {
        entries_map(self.entries@)
    }
}

proof fn lemma_entries_map_index(s: Seq<(CmdKey, CmdSlot)>, i: int)
    requires
        distinct_keys(s),
        0 <= i < s.len(),
    ensures
        entries_map(s).dom().contains(s[i].0@),
        entries_map(s)[s[i].0@] == s[i].1@,
    decreases s.len(),
{
    if i == s.len() - 1 {
    } else {
        lemma_entries_map_index(s.drop_last(), i);
        assert(s.drop_last()[i] == s[i]);
        assert(s[i].0@ != s.last().0@);
    }
}

proof fn lemma_entries_map_absent(s: Seq<(CmdKey, CmdSlot)>, k: (Seq<char>, Seq<Seq<char>>))
    requires
        forall|i: int| 0 <= i < s.len() ==> (#[trigger] s[i]).0@ != k,
    ensures
        !entries_map(s).dom().contains(k),
    decreases s.len(),
{
    if s.len() > 0 {
        lemma_entries_map_absent(s.drop_last(), k);
    }
}

proof fn lemma_entries_map_update(
    s: Seq<(CmdKey, CmdSlot)>,
    t: Seq<(CmdKey, CmdSlot)>,
    i: int,
)
    requires
        distinct_keys(s),
        0 <= i < s.len(),
        t == s.update(i, (t[i].0, t[i].1)),
        t.len() == s.len(),
        t[i].0@ == s[i].0@,
    ensures
        entries_map(t) == entries_map(s).insert(s[i].0@, t[i].1@),
    decreases s.len(),
{
    if i == s.len() - 1 {
        assert(t.drop_last() =~= s.drop_last());
        assert(entries_map(t) =~= entries_map(s).insert(s[i].0@, t[i].1@));
    } else {
        let s1 = s.drop_last();
        let t1 = t.drop_last();
        assert(t1 =~= s1.update(i, (t[i].0, t[i].1)));
        assert(t1[i] == t[i]);
        lemma_entries_map_update(s1, t1, i);
        assert(t.last() == s.last());
        assert(s[i].0@ != s.last().0@);
        assert(entries_map(t) =~= entries_map(s).insert(s[i].0@, t[i].1@));
    }
}

/// Copies a string vector.
fn clone_strings(v: &Vec<String>) -> (r: Vec<String>)
    ensures
        r.deep_view() == v.deep_view(),
{
    let mut r: Vec<String> = Vec::new();
    let mut i: usize = 0;
    while i < v.len()
        invariant
            i <= v@.len(),
            r@.len() == i,
            forall|j: int| 0 <= j < i ==> #[trigger] r@[j]@ == v@[j]@,
        decreases v@.len() - i,
    {
        r.push(v[i].clone());
        i += 1;
    }
    assert(r.deep_view() =~~= v.deep_view());
    r
}

/// Compares a (program, arguments) pair against a stored key.
fn key_matches(program: &str, args: &Vec<String>, key: &CmdKey) -> (r: bool)
    ensures
        r == (key@ == (program@, args.deep_view())),
{
    let p = program.to_owned();
    if !(p == key.program) {
        assert(key@ != (program@, args.deep_view()));
        return false;
    }
    if args.len() != key.args.len() {
        assert(key.args.deep_view().len() == key.args@.len());
        assert(args.deep_view().len() == args@.len());
        return false;
    }
    let mut i: usize = 0;
    while i < args.len()
        invariant
            args@.len() == key.args@.len(),
            i <= args@.len(),
            forall|j: int| 0 <= j < i ==> #[trigger] args@[j]@ == key.args@[j]@,
        decreases args@.len() - i,
    {
        if !(args[i] == key.args[i]) {
            assert(args.deep_view()[i as int] != key.args.deep_view()[i as int]);
            return false;
        }
        i += 1;
    }
    assert(args.deep_view() =~~= key.args.deep_view());
    true
}

impl CmdCache {
    /// An empty cache.
    pub fn new() -> (r: CmdCache)
        ensures
            r@ == Map::<(Seq<char>, Seq<Seq<char>>), CmdSlotView>::empty(),
            r.wf(),
    {
        let c = CmdCache { entries: Vec::new() };
        c
    }

    /// The table is well formed: entry keys are pairwise distinct.
    pub closed spec fn wf(&self) -> bool {
        distinct_keys(self.entries@)
    }

    /// The index of the entry for this key, if any.
    fn find(&self, program: &str, args: &Vec<String>) -> (r: Option<usize>)
        ensures
            match r {
                Some(i) => i < self.entries@.len() && self.entries@[i as int].0@ == (
                    program@,
                    args.deep_view(),
                ),
                None => forall|i: int|
                    0 <= i < self.entries@.len() ==> (#[trigger] self.entries@[i]).0@ != (
                        program@,
                        args.deep_view(),
                    ),
            },
    {
        let mut i: usize = 0;
        while i < self.entries.len()
            invariant
                i <= self.entries@.len(),
                forall|j: int|
                    0 <= j < i ==> (#[trigger] self.entries@[j]).0@ != (
                        program@,
                        args.deep_view(),
                    ),
            decreases self.entries@.len() - i,
        {
            if key_matches(program, args, &self.entries[i].0) {
                return Some(i);
            }
            i += 1;
        }
        None
    }

    /// Looks the key up; claims the slot when it is absent. The caller
    /// told to spawn must later `complete` the same key.
    pub fn poll(&mut self, program: &str, args: &Vec<String>) -> (r: CmdPoll)
        requires
            old(self).wf(),
        ensures
            final(self).wf(),
            final(self)@ == cache_poll_next(old(self)@, (program@, args.deep_view())),
            r is Spawn <==> cache_poll_spawns(old(self)@, (program@, args.deep_view())),
            r is Wait <==> (old(self)@.dom().contains((program@, args.deep_view())) && old(
                self,
            )@[(program@, args.deep_view())] is InFlight),
            (old(self)@.dom().contains((program@, args.deep_view())) && (old(self)@[(
                program@,
                args.deep_view(),
            )] matches CmdSlotView::Done(v))) ==> (r matches CmdPoll::Ready(o) && opt_str_view(o)
                == old(self)@[(program@, args.deep_view())]->Done_0),
    {
        let ghost k = (program@, args.deep_view());
        match self.find(program, args) {
            Some(i) => {
                proof {
                    lemma_entries_map_index(self.entries@, i as int);
                }
                match &self.entries[i].1 {
                    CmdSlot::InFlight => CmdPoll::Wait,
                    CmdSlot::Done(o) => {
                        let copy = match o {
                            Some(s) => Some(s.clone()),
                            None => None,
                        };
                        CmdPoll::Ready(copy)
                    },
                }
            },
            None => {
                proof {
                    lemma_entries_map_absent(self.entries@, k);
                }
                let key = CmdKey { program: program.to_owned(), args: clone_strings(args) };
                let ghost pre = self.entries@;
                self.entries.push((key, CmdSlot::InFlight));
                proof {
                    assert(self.entries@.drop_last() =~= pre);
                    assert(self.entries@.last().0@ == k);
                    assert(distinct_keys(self.entries@)) by {
                        assert(forall|i: int|
                            0 <= i < pre.len() ==> #[trigger] self.entries@[i] == pre[i]);
                    }
                }
                CmdPoll::Spawn
            },
        }
    }

    /// Records the outcome of the spawn for this key; only the caller
    /// that was told to spawn completes it, exactly once. The captured
    /// output is right-trimmed before it is cached. Every other key
    /// keeps its slot.
    pub fn complete(&mut self, program: &str, args: &Vec<String>, result: Option<String>)
        requires
            old(self).wf(),
            old(self)@.dom().contains((program@, args.deep_view())),
            old(self)@[(program@, args.deep_view())] is InFlight,
        ensures
            final(self).wf(),
            final(self)@ == old(self)@.insert(
                (program@, args.deep_view()),
                CmdSlotView::Done(trimmed_out(result)),
            ),
    {
        let ghost k = (program@, args.deep_view());
        let stored: Option<String> = match result {
            Some(s) => {
                let v = crate::text::str_chars(s.as_str());
                let t = crate::text::trim_end_chars(&v);
                Some(crate::text::chars_string(&t))
            },
            None => None,
        };
        match self.find(program, args) {
            Some(i) => {
                let key = CmdKey { program: program.to_owned(), args: clone_strings(args) };
                let ghost pre = self.entries@;
                self.entries.set(i, (key, CmdSlot::Done(stored)));
                proof {
                    assert(self.entries@ =~= pre.update(
                        i as int,
                        (self.entries@[i as int].0, self.entries@[i as int].1),
                    ));
                    lemma_entries_map_update(pre, self.entries@, i as int);
                    assert(distinct_keys(self.entries@));
                    lemma_entries_map_index(pre, i as int);
                }
            },
            None => {
                proof {
                    lemma_entries_map_absent(self.entries@, k);
                }
            },
        }
    }
}

/// The cache state after `n` successive polls for key `k`.
pub open spec fn cache_polls(
    m: Map<(Seq<char>, Seq<Seq<char>>), CmdSlotView>,
    k: (Seq<char>, Seq<Seq<char>>),
    n: nat,
) -> Map<(Seq<char>, Seq<Seq<char>>), CmdSlotView>
    decreases n,
{
    if n == 0 {
        m
    } else {
        cache_polls(cache_poll_next(m, k), k, (n - 1) as nat)
    }
}

/// How many of `n` successive polls for `k` are told to spawn.
pub open spec fn cache_spawn_count(
    m: Map<(Seq<char>, Seq<Seq<char>>), CmdSlotView>,
    k: (Seq<char>, Seq<Seq<char>>),
    n: nat,
) -> nat
    decreases n,
{
    if n == 0 {
        0
    } else {
        (if cache_poll_spawns(m, k) {
            1nat
        } else {
            0nat
        }) + cache_spawn_count(cache_poll_next(m, k), k, (n - 1) as nat)
    }
}

/// Single flight: however many callers poll one key, at most one is
/// ever told to spawn, and exactly one when the key starts absent.
pub proof fn lemma_single_flight(
    m: Map<(Seq<char>, Seq<Seq<char>>), CmdSlotView>,
    k: (Seq<char>, Seq<Seq<char>>),
    n: nat,
)
    ensures
        cache_spawn_count(m, k, n) <= 1,
        n > 0 && !m.dom().contains(k) ==> cache_spawn_count(m, k, n) == 1,
        m.dom().contains(k) ==> cache_spawn_count(m, k, n) == 0,
    decreases n,
{
    if n > 0 {
        lemma_single_flight(cache_poll_next(m, k), k, (n - 1) as nat);
    }
}

/// Single flight across a key's whole lifetime: however many callers
/// poll before the spawner completes the slot, and however many after,
/// the spawn happens exactly once when the key starts absent.
pub proof fn lemma_single_flight_lifetime(
    m: Map<(Seq<char>, Seq<Seq<char>>), CmdSlotView>,
    k: (Seq<char>, Seq<Seq<char>>),
    n1: nat,
    v: Option<Seq<char>>,
    n2: nat,
)
    requires
        !m.dom().contains(k),
        n1 > 0,
    ensures
        cache_spawn_count(m, k, n1) + cache_spawn_count(
            cache_polls(m, k, n1).insert(k, CmdSlotView::Done(v)),
            k,
            n2,
        ) == 1,
{
    lemma_single_flight(m, k, n1);
    lemma_single_flight(cache_polls(m, k, n1).insert(k, CmdSlotView::Done(v)), k, n2);
}

/// A completed slot is final: no later poll, for this or any other key,
/// changes it, so every caller observes the one memoized result.
pub proof fn lemma_done_is_final(
    m: Map<(Seq<char>, Seq<Seq<char>>), CmdSlotView>,
    k: (Seq<char>, Seq<Seq<char>>),
    k2: (Seq<char>, Seq<Seq<char>>),
    v: Option<Seq<char>>,
)
    requires
        m.dom().contains(k),
        m[k] == CmdSlotView::Done(v),
    ensures
        cache_poll_next(m, k2).dom().contains(k),
        cache_poll_next(m, k2)[k] == CmdSlotView::Done(v),
{
}

/// Cache isolation: a poll or completion for one key leaves the slot of
/// every other key exactly as it was.
pub proof fn lemma_cache_isolation(
    m: Map<(Seq<char>, Seq<Seq<char>>), CmdSlotView>,
    k: (Seq<char>, Seq<Seq<char>>),
    k2: (Seq<char>, Seq<Seq<char>>),
    v: Option<Seq<char>>,
)
    requires
        k2 != k,
    ensures
        cache_poll_next(m, k).dom().contains(k2) == m.dom().contains(k2),
        m.dom().contains(k2) ==> cache_poll_next(m, k)[k2] == m[k2],
        m.insert(k, CmdSlotView::Done(v)).dom().contains(k2) == m.dom().contains(k2),
        m.dom().contains(k2) ==> m.insert(k, CmdSlotView::Done(v))[k2] == m[k2],
{
}

} // verus!
