use vstd::prelude::*;

use crate::matcher::contains_id;

verus! {

/// The lifecycle state the emitted runtime keeps per chunk id. The
/// emitted code stores it in the installed-chunks table; this model is
/// the contract that table must implement.
#[derive(Clone, Copy, PartialEq, Eq, Structural, Debug)]
pub enum LoadState {
    /// No entry: the chunk was never touched.
    NotLoaded,
    /// A prefetch or preload hint was issued; completion is not guaranteed.
    Preloaded,
    /// An ensure-chunk call is in flight, holding its pending handle.
    Loading(u64),
    /// The fetch resolved; terminal until an HMR update invalidates it.
    Loaded,
}

/// An observable event of the chunk-loading protocol, naming the chunk
/// it concerns.
pub enum LoadEvent {
    /// A prefetch or preload resource hint.
    Hint(String),
    /// An ensure-chunk call, carrying a fresh pending handle.
    Ensure(String, u64),
    /// The in-flight fetch resolved successfully.
    Resolve(String),
    /// The in-flight fetch rejected; the chunk leaves the table, and a
    /// retry is a fresh loading transition.
    Reject(String),
    /// An HMR update invalidated the loaded chunk.
    Invalidate(String),
}

/// The mathematical shape of a load event.
pub enum LoadEventModel {
    Hint(Seq<char>),
    Ensure(Seq<char>, u64),
    Resolve(Seq<char>),
    Reject(Seq<char>),
    Invalidate(Seq<char>),
}

impl View for LoadEvent {
    type V = LoadEventModel;

    open spec fn view(&self) -> LoadEventModel {
        match self {
            LoadEvent::Hint(id) => LoadEventModel::Hint(id@),
            LoadEvent::Ensure(id, h) => LoadEventModel::Ensure(id@, *h),
            LoadEvent::Resolve(id) => LoadEventModel::Resolve(id@),
            LoadEvent::Reject(id) => LoadEventModel::Reject(id@),
            LoadEvent::Invalidate(id) => LoadEventModel::Invalidate(id@),
        }
    }
}

/// The chunk id an event concerns.
pub open spec fn event_id(e: LoadEventModel) -> Seq<char> {
    match e {
        LoadEventModel::Hint(id) => id,
        LoadEventModel::Ensure(id, h) => id,
        LoadEventModel::Resolve(id) => id,
        LoadEventModel::Reject(id) => id,
        LoadEventModel::Invalidate(id) => id,
    }
}

/// The next state of the chunk an event concerns. A hint promotes only an
/// untouched chunk; an ensure-chunk call starts loading unless a terminal
/// state exists; a resolve or reject settles only an in-flight load; an
/// invalidation clears only a loaded chunk.
pub open spec fn step_state(cur: LoadState, e: LoadEventModel) -> LoadState {
    match e {
        LoadEventModel::Hint(_) => if cur is NotLoaded {
            LoadState::Preloaded
        } else {
            cur
        },
        LoadEventModel::Ensure(_, h) => match cur {
            LoadState::NotLoaded => LoadState::Loading(h),
            LoadState::Preloaded => LoadState::Loading(h),
            LoadState::Loading(g) => LoadState::Loading(g),
            LoadState::Loaded => LoadState::Loaded,
        },
        LoadEventModel::Resolve(_) => if cur is Loading {
            LoadState::Loaded
        } else {
            cur
        },
        LoadEventModel::Reject(_) => if cur is Loading {
            LoadState::NotLoaded
        } else {
            cur
        },
        LoadEventModel::Invalidate(_) => if cur is Loaded {
            LoadState::NotLoaded
        } else {
            cur
        },
    }
}

/// The tracking table of the protocol: one entry per touched chunk. An
/// absent chunk is `NotLoaded`; no entry ever records `NotLoaded`.
pub struct LoadTable {
    entries: Vec<(String, LoadState)>,
}

impl View for LoadTable {
    type V = Seq<(Seq<char>, LoadState)>;

    closed spec fn view(&self) -> Seq<(Seq<char>, LoadState)> {
        Seq::new(self.entries@.len(), |i: int| (self.entries@[i].0@, self.entries@[i].1))
    }
}

/// Distinct keys, and no entry recording the absent state.
pub open spec fn wf_table(es: Seq<(Seq<char>, LoadState)>) -> bool {
    &&& forall|i: int, j: int| 0 <= i < j < es.len() ==> es[i].0 != es[j].0
    &&& forall|i: int| 0 <= i < es.len() ==> !((#[trigger] es[i]).1 is NotLoaded)
}

/// Some entry records this chunk id.
pub open spec fn table_has(es: Seq<(Seq<char>, LoadState)>, k: Seq<char>) -> bool {
    exists|i: int| 0 <= i < es.len() && es[i].0 == k
}

/// The state the table records for a chunk id; absent means `NotLoaded`.
pub open spec fn state_of(es: Seq<(Seq<char>, LoadState)>, k: Seq<char>) -> LoadState {
    if table_has(es, k) {
        es[choose|i: int| 0 <= i < es.len() && es[i].0 == k].1
    } else {
        LoadState::NotLoaded
    }
}

/// With distinct keys, any entry recording a key gives its state.
pub proof fn lemma_state_of_entry(es: Seq<(Seq<char>, LoadState)>, k: Seq<char>, j: int)
    requires
        wf_table(es),
        0 <= j < es.len(),
        es[j].0 == k,
    ensures
        state_of(es, k) == es[j].1,
{
    assert(table_has(es, k));
    let i = choose|i: int| 0 <= i < es.len() && es[i].0 == k;
    if i != j {
        assert(es[i].0 == es[j].0);
        assert(false);
    }
}

impl LoadTable {
    /// Finds the entry recording this chunk id, if any.
    fn find(&self, id: &String) -> (r: Option<usize>)
        ensures
            match r {
                Some(i) => i < self@.len() && self@[i as int].0 == id@,
                None => !table_has(self@, id@),
            },
    {
        let mut i: usize = 0;
        while i < self.entries.len()
            invariant
                i <= self.entries.len(),
                self@.len() == self.entries@.len(),
                forall|j: int| 0 <= j < i ==> self@[j].0 != id@,
            decreases self.entries.len() - i,
        {
            if self.entries[i].0.eq(id) {
                proof {
                    assert(self@[i as int].0 == id@);
                }
                return Some(i);
            }
            i += 1;
        }
        None
    }

    /// The table at program start: the chunks already present begin
    /// loaded; every other chunk is untouched.
    pub fn seed(initial: &Vec<String>) -> (r: LoadTable)
        ensures
            wf_table(r@),
            forall|k: Seq<char>| #[trigger] state_of(r@, k) == if contains_id(
                initial.deep_view(),
                k,
            ) {
                LoadState::Loaded
            } else {
                LoadState::NotLoaded
            },
    {
        let ghost dv = initial.deep_view();
        let mut r = LoadTable { entries: Vec::new() };
        proof {
            assert(r@ =~= Seq::<(Seq<char>, LoadState)>::empty());
            assert forall|k: Seq<char>| #[trigger] state_of(r@, k) == LoadState::NotLoaded by {
                assert(!table_has(r@, k));
            }
        }
        let mut i: usize = 0;
        while i < initial.len()
            invariant
                i <= initial.len(),
                dv == initial.deep_view(),
                dv.len() == initial@.len(),
                wf_table(r@),
                forall|k: Seq<char>| #[trigger] state_of(r@, k) == if contains_id(
                    dv.take(i as int),
                    k,
                ) {
                    LoadState::Loaded
                } else {
                    LoadState::NotLoaded
                },
            decreases initial.len() - i,
        {
            let ghost oldv = r@;
            let id = &initial[i];
            match r.find(id) {
                Some(_) => {
                    proof {
                        assert(contains_id(dv.take(i + 1), id@)) by {
                            assert(dv.take(i + 1)[i as int] == id@);
                        }
                        let s1 = dv.take(i + 1);
                        let s0 = dv.take(i as int);
                        assert forall|k: Seq<char>| contains_id(s1, k) == contains_id(s0, k) || k
                            == id@ by {
                            if contains_id(s1, k) && k != id@ {
                                let j = choose|j: int| 0 <= j < s1.len() && s1[j] == k;
                                assert(s0[j] == k);
                            } else if contains_id(s0, k) {
                                let j = choose|j: int| 0 <= j < s0.len() && s0[j] == k;
                                assert(s1[j] == k);
                            }
                        }
                        assert(state_of(oldv, id@) == LoadState::Loaded);
                    }
                },
                None => {
                    r.entries.push((id.clone(), LoadState::Loaded));
                    proof {
                        let newv = r@;
                        assert(newv =~= oldv.push((id@, LoadState::Loaded)));
                        assert forall|a: int, b: int| 0 <= a < b < newv.len() implies newv[a].0
                            != newv[b].0 by {
                            if b == newv.len() - 1 {
                                assert(!table_has(oldv, id@));
                                assert(newv[a] == oldv[a]);
                            }
                        }
                        assert forall|a: int| 0 <= a < newv.len() implies !((#[trigger] newv[a]).1
                            is NotLoaded) by {
                            if a < newv.len() - 1 {
                                assert(newv[a] == oldv[a]);
                            }
                        }
                        assert forall|k: Seq<char>| #[trigger] state_of(newv, k) == if contains_id(
                            dv.take(i + 1),
                            k,
                        ) {
                            LoadState::Loaded
                        } else {
                            LoadState::NotLoaded
                        } by {
                            if k == id@ {
                                lemma_state_of_entry(newv, k, newv.len() - 1);
                                assert(dv.take(i + 1)[i as int] == k);
                            } else {
                                if table_has(oldv, k) {
                                    let j = choose|j: int|
                                        0 <= j < oldv.len() && oldv[j].0 == k;
                                    assert(newv[j] == oldv[j]);
                                    lemma_state_of_entry(oldv, k, j);
                                    lemma_state_of_entry(newv, k, j);
                                } else {
                                    assert(!table_has(newv, k)) by {
                                        if table_has(newv, k) {
                                            let j = choose|j: int|
                                                0 <= j < newv.len() && newv[j].0 == k;
                                            assert(j < newv.len() - 1);
                                            assert(oldv[j].0 == k);
                                        }
                                    }
                                }
                                let s1 = dv.take(i + 1);
                                let s0 = dv.take(i as int);
                                if contains_id(s1, k) {
                                    let j = choose|j: int| 0 <= j < s1.len() && s1[j] == k;
                                    assert(j < i);
                                    assert(s0[j] == k);
                                } else if contains_id(s0, k) {
                                    let j = choose|j: int| 0 <= j < s0.len() && s0[j] == k;
                                    assert(s1[j] == k);
                                }
                            }
                        }
                    }
                },
            }
            i += 1;
        }
        proof {
            assert(dv.take(dv.len() as int) =~= dv);
        }
        r
    }

    /// Applies one protocol event: the chunk the event concerns moves to
    /// its next lifecycle state; every other chunk is untouched.
    pub fn step(&mut self, e: &LoadEvent)
        requires
            wf_table(old(self)@),
        ensures
            wf_table(final(self)@),
            state_of(final(self)@, event_id(e@)) == step_state(
                state_of(old(self)@, event_id(e@)),
                e@,
            ),
            forall|k: Seq<char>| k != event_id(e@) ==> #[trigger] state_of(final(self)@, k)
                == state_of(old(self)@, k),
    {
        let id: &String = match e {
            LoadEvent::Hint(id) => id,
            LoadEvent::Ensure(id, _) => id,
            LoadEvent::Resolve(id) => id,
            LoadEvent::Reject(id) => id,
            LoadEvent::Invalidate(id) => id,
        };
        let found = self.find(id);
        let cur: LoadState = match found {
            Some(i) => {
                proof {
                    lemma_state_of_entry(self@, id@, i as int);
                }
                self.entries[i].1
            },
            None => LoadState::NotLoaded,
        };
        let next: LoadState = match e {
            LoadEvent::Hint(_) => match cur {
                LoadState::NotLoaded => LoadState::Preloaded,
                _ => cur,
            },
            LoadEvent::Ensure(_, h) => match cur {
                LoadState::NotLoaded => LoadState::Loading(*h),
                LoadState::Preloaded => LoadState::Loading(*h),
                _ => cur,
            },
            LoadEvent::Resolve(_) => match cur {
                LoadState::Loading(_) => LoadState::Loaded,
                _ => cur,
            },
            LoadEvent::Reject(_) => match cur {
                LoadState::Loading(_) => LoadState::NotLoaded,
                _ => cur,
            },
            LoadEvent::Invalidate(_) => match cur {
                LoadState::Loaded => LoadState::NotLoaded,
                _ => cur,
            },
        };
        proof {
            assert(next == step_state(cur, e@));
            assert(id@ == event_id(e@));
        }
        let ghost oldv = self@;
        match (found, next) {
            (Some(i), LoadState::NotLoaded) => {
                self.entries.remove(i);
                proof {
                    let newv = self@;
                    assert(newv =~= oldv.remove(i as int));
                    assert forall|j: int| 0 <= j < newv.len() implies newv[j] == (if j < i {
                        oldv[j]
                    } else {
                        oldv[j + 1]
                    }) by {}
                    assert(wf_table(newv)) by {
                        assert forall|a: int, b: int| 0 <= a < b < newv.len() implies newv[a].0
                            != newv[b].0 by {
                            let a0 = if a < i { a } else { a + 1 };
                            let b0 = if b < i { b } else { b + 1 };
                            assert(newv[a] == oldv[a0] && newv[b] == oldv[b0]);
                        }
                    }
                    assert(!table_has(newv, id@)) by {
                        if table_has(newv, id@) {
                            let j = choose|j: int| 0 <= j < newv.len() && newv[j].0 == id@;
                            let j0 = if j < i { j } else { j + 1 };
                            assert(oldv[j0].0 == id@ && oldv[i as int].0 == id@ && j0 != i);
                        }
                    }
                    assert forall|k: Seq<char>| k != id@ implies #[trigger] state_of(newv, k)
                        == state_of(oldv, k) by {
                        if table_has(oldv, k) {
                            let j = choose|j: int| 0 <= j < oldv.len() && oldv[j].0 == k;
                            assert(j != i);
                            let j1 = if j < i { j } else { j - 1 };
                            assert(newv[j1] == oldv[j]);
                            lemma_state_of_entry(oldv, k, j);
                            lemma_state_of_entry(newv, k, j1);
                        } else {
                            assert(!table_has(newv, k)) by {
                                if table_has(newv, k) {
                                    let j = choose|j: int|
                                        0 <= j < newv.len() && newv[j].0 == k;
                                    let j0 = if j < i { j } else { j + 1 };
                                    assert(oldv[j0].0 == k);
                                }
                            }
                        }
                    }
                }
            },
            (Some(i), s) => {
                self.entries[i].1 = s;
                proof {
                    let newv = self@;
                    assert(newv =~= oldv.update(i as int, (id@, s)));
                    assert(wf_table(newv)) by {
                        assert forall|a: int, b: int| 0 <= a < b < newv.len() implies newv[a].0
                            != newv[b].0 by {
                            assert(newv[a].0 == oldv[a].0 && newv[b].0 == oldv[b].0);
                        }
                        assert forall|a: int| 0 <= a < newv.len() implies !((
                        #[trigger] newv[a]).1 is NotLoaded) by {
                            if a != i {
                                assert(newv[a] == oldv[a]);
                            }
                        }
                    }
                    lemma_state_of_entry(newv, id@, i as int);
                    assert forall|k: Seq<char>| k != id@ implies #[trigger] state_of(newv, k)
                        == state_of(oldv, k) by {
                        if table_has(oldv, k) {
                            let j = choose|j: int| 0 <= j < oldv.len() && oldv[j].0 == k;
                            assert(j != i);
                            assert(newv[j] == oldv[j]);
                            lemma_state_of_entry(oldv, k, j);
                            lemma_state_of_entry(newv, k, j);
                        } else {
                            assert(!table_has(newv, k)) by {
                                if table_has(newv, k) {
                                    let j = choose|j: int|
                                        0 <= j < newv.len() && newv[j].0 == k;
                                    assert(oldv[j].0 == k);
                                }
                            }
                        }
                    }
                }
            },
            (None, LoadState::NotLoaded) => {
                proof {
                    assert(state_of(oldv, id@) == LoadState::NotLoaded);
                }
            },
            (None, s) => {
                self.entries.push((id.clone(), s));
                proof {
                    let newv = self@;
                    assert(newv =~= oldv.push((id@, s)));
                    assert(wf_table(newv)) by {
                        assert forall|a: int, b: int| 0 <= a < b < newv.len() implies newv[a].0
                            != newv[b].0 by {
                            if b == newv.len() - 1 {
                                assert(!table_has(oldv, id@));
                                assert(newv[a] == oldv[a]);
                            } else {
                                assert(newv[a] == oldv[a] && newv[b] == oldv[b]);
                            }
                        }
                        assert forall|a: int| 0 <= a < newv.len() implies !((
                        #[trigger] newv[a]).1 is NotLoaded) by {
                            if a < newv.len() - 1 {
                                assert(newv[a] == oldv[a]);
                            }
                        }
                    }
                    lemma_state_of_entry(newv, id@, newv.len() - 1);
                    assert forall|k: Seq<char>| k != id@ implies #[trigger] state_of(newv, k)
                        == state_of(oldv, k) by {
                        if table_has(oldv, k) {
                            let j = choose|j: int| 0 <= j < oldv.len() && oldv[j].0 == k;
                            assert(newv[j] == oldv[j]);
                            lemma_state_of_entry(oldv, k, j);
                            lemma_state_of_entry(newv, k, j);
                        } else {
                            assert(!table_has(newv, k)) by {
                                if table_has(newv, k) {
                                    let j = choose|j: int|
                                        0 <= j < newv.len() && newv[j].0 == k;
                                    assert(j < newv.len() - 1);
                                    assert(oldv[j].0 == k);
                                }
                            }
                        }
                    }
                }
            },
        }
    }

    /// The state recorded for a chunk id.
    pub fn lookup(&self, id: &String) -> (r: LoadState)
        requires
            wf_table(self@),
        ensures
            r == state_of(self@, id@),
    {
        match self.find(id) {
            Some(i) => {
                proof {
                    lemma_state_of_entry(self@, id@, i as int);
                }
                self.entries[i].1
            },
            None => LoadState::NotLoaded,
        }
    }
}

/// State-machine seeding: a loaded chunk is stable. No event moves it to
/// the loading state, and only an HMR invalidation of that very chunk
/// clears it; with `LoadTable::seed` and `LoadTable::step` this says a
/// chunk of the initial set never transitions through `Loading` and stays
/// `Loaded` until explicitly invalidated.
pub proof fn lemma_loaded_is_stable(cur: LoadState, e: LoadEventModel)
    ensures
        cur == LoadState::Loaded && !(e is Invalidate) ==> step_state(cur, e) == LoadState::Loaded,
        cur == LoadState::Loaded ==> !(step_state(cur, e) is Loading),
{
}

} // verus!
