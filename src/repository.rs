use vstd::prelude::*;
use crate::entities::{Pokemon, PokemonName, PokemonNumber, PokemonType, PokemonTypes, RecordView};

verus! {

/// Why an insert was refused.
#[derive(Debug, Clone, Copy, PartialEq, Eq, Structural)]
pub enum InsertError {
    /// A record with that number is already stored.
    Conflict,
    /// The backend failed.
    Unknown,
}

/// Why the records could not be listed.
#[derive(Debug, Clone, Copy, PartialEq, Eq, Structural)]
pub enum FetchAllError {
    /// The backend failed.
    Unknown,
}

/// The store as a map from number to record.
pub type StoreView = Map<u16, RecordView>;

/// `v` lists exactly the records of `m`, each once, in some order.
pub open spec fn lists_store(v: Seq<Pokemon>, m: StoreView) -> bool {
    &&& forall|i: int| 0 <= i < v.len() ==> #[trigger] v[i].wf()
    &&& forall|i: int|
        0 <= i < v.len() ==> m.contains_key((#[trigger] v[i])@.0) && m[v[i]@.0] == (
        v[i]@.1,
        v[i]@.2,
    )
    &&& forall|i: int, j: int| 0 <= i < j < v.len() ==> (#[trigger] v[i])@.0 != (#[trigger] v[j])@.0
    &&& forall|k: u16| #[trigger] m.contains_key(k) ==> exists|i: int| 0 <= i < v.len() && (#[trigger] v[i])@.0 == k
}

/// What a successful insert of `(n, name, types)` does to the store `m`.
pub open spec fn inserted(m: StoreView, n: u16, name: Seq<char>, types: Seq<PokemonType>) -> StoreView {
    m.insert(n, (name, types))
}

/// The result that an insert is allowed to give, and the store after it.
pub open spec fn insert_outcome(
    before: StoreView,
    after: StoreView,
    n: u16,
    name: Seq<char>,
    types: Seq<PokemonType>,
    r: Result<Pokemon, InsertError>,
) -> bool {
    match r {
        Ok(p) => !before.contains_key(n) && after == inserted(before, n, name, types) && p@ == (
            n,
            name,
            types,
        ) && p.wf(),
        Err(InsertError::Conflict) => before.contains_key(n) && after == before,
        Err(InsertError::Unknown) => after == before,
    }
}

/// Of two inserts of one number into a store, the second cannot succeed once
/// the first has: the number is unique among the records kept.
pub proof fn lemma_second_insert_fails(
    m0: StoreView,
    m1: StoreView,
    m2: StoreView,
    n: u16,
    name1: Seq<char>,
    types1: Seq<PokemonType>,
    name2: Seq<char>,
    types2: Seq<PokemonType>,
    r1: Result<Pokemon, InsertError>,
    r2: Result<Pokemon, InsertError>,
)
    requires
        insert_outcome(m0, m1, n, name1, types1, r1),
        insert_outcome(m1, m2, n, name2, types2, r2),
        r1 is Ok,
    ensures
        r2 is Err,
        m2 == m1,
{
}

/// A listing of an empty store is empty.
pub proof fn lemma_empty_store_lists_nothing(v: Seq<Pokemon>)
    requires
        lists_store(v, Map::empty()),
    ensures
        v.len() == 0,
{
    if v.len() > 0 {
        assert(Map::<u16, RecordView>::empty().contains_key(v[0]@.0));
    }
}

/// A listing of a store that holds one record is that record alone.
pub proof fn lemma_single_record_listing(
    v: Seq<Pokemon>,
    n: u16,
    name: Seq<char>,
    types: Seq<PokemonType>,
)
    requires
        lists_store(v, inserted(Map::empty(), n, name, types)),
    ensures
        v.len() == 1,
        v[0]@ == (n, name, types),
{
    let m = inserted(Map::empty(), n, name, types);
    assert(m.contains_key(n));
    let i = choose|i: int| 0 <= i < v.len() && (#[trigger] v[i])@.0 == n;
    if v.len() > 1 {
        let j: int = if i == 0 { 1 } else { 0 };
        assert(m.contains_key(v[j]@.0));
        if i < j {
            assert(v[i]@.0 != v[j]@.0);
        } else {
            assert(v[j]@.0 != v[i]@.0);
        }
    }
    assert(m.contains_key(v[0]@.0));
}

/// A place where records are kept. The number of a record is unique among
/// those kept; each backend keeps its own store of record.
pub trait Repository {
    /// The backend's own consistency.
    spec fn inv(&self) -> bool;

    /// The records kept, by number.
    spec fn stored(&self) -> StoreView;

    /// The backend never fails.
    spec fn reliable(&self) -> bool;

    /// The backend fails on every call.
    spec fn broken(&self) -> bool;

    /// Keeps a new record, unless its number is already kept.
    fn insert(&mut self, number: PokemonNumber, name: PokemonName, types: PokemonTypes) -> (r: Result<
        Pokemon,
        InsertError,
    >)
        requires
            old(self).inv(),
            number.wf(),
            name.wf(),
            types.wf(),
        ensures
            final(self).inv(),
            insert_outcome(old(self).stored(), final(self).stored(), number@, name@, types@, r),
            old(self).reliable() ==> r != Err::<Pokemon, InsertError>(InsertError::Unknown),
            old(self).broken() ==> r == Err::<Pokemon, InsertError>(InsertError::Unknown),
            final(self).reliable() == old(self).reliable(),
            final(self).broken() == old(self).broken(),
    ;

    /// Lists every record kept, in an order of the backend's choosing.
    fn fetch_all(&self) -> (r: Result<Vec<Pokemon>, FetchAllError>)
        requires
            self.inv(),
        ensures
            r matches Ok(v) ==> lists_store(v@, self.stored()),
            self.reliable() ==> r is Ok,
            self.broken() ==> r is Err,
    ;
}

/// A backend that keeps its records in memory, in the order of insertion.
/// It can be made to fail on every call.
pub struct InMemoryRepository {
    error: bool,
    pokemons: Vec<Pokemon>,
    store: Ghost<StoreView>,
}

impl InMemoryRepository {
    /// An empty backend that works.
    pub fn new() -> (r: InMemoryRepository)
        ensures
            r.inv(),
            r.stored() == Map::<u16, RecordView>::empty(),
            r.reliable(),
    {
        InMemoryRepository { error: false, pokemons: Vec::new(), store: Ghost(Map::empty()) }
    }

    /// The same backend, made to fail on every call.
    pub fn with_error(self) -> (r: InMemoryRepository)
        requires
            self.inv(),
        ensures
            r.inv(),
            r.stored() == self.stored(),
            r.broken(),
    {
        InMemoryRepository { error: true, ..self }
    }

    /// Whether a record with number `n` is kept.
    fn contains_number(&self, n: u16) -> (r: bool)
        requires
            self.inv(),
        ensures
            r == self.stored().contains_key(n),
    {
        let mut i: usize = 0;
        while i < self.pokemons.len()
            invariant
                i <= self.pokemons.len(),
                self.inv(),
                forall|j: int| 0 <= j < i ==> (#[trigger] self.pokemons@[j])@.0 != n,
            decreases self.pokemons.len() - i,
        {
            if self.pokemons[i].number.value() == n {
                assert(self.stored().contains_key(self.pokemons@[i as int]@.0));
                return true;
            }
            i = i + 1;
        }
        false
    }
}

impl Repository for InMemoryRepository {
    closed spec fn inv(&self) -> bool {
        lists_store(self.pokemons@, self.store@)
    }

    closed spec fn stored(&self) -> StoreView {
        self.store@
    }

    closed spec fn reliable(&self) -> bool {
        !self.error
    }

    closed spec fn broken(&self) -> bool {
        self.error
    }

    fn insert(&mut self, number: PokemonNumber, name: PokemonName, types: PokemonTypes) -> (r: Result<
        Pokemon,
        InsertError,
    >) {
        if self.error {
            return Err(InsertError::Unknown);
        }
        if self.contains_number(number.value()) {
            return Err(InsertError::Conflict);
        }
        let p = Pokemon::new(number, name, types);
        let stored = p.duplicate();
        proof {
            assert(!self.store@.contains_key(p@.0));
        }
        let ghost old_v = self.pokemons@;
        let ghost new_store = self.store@.insert(p@.0, (p@.1, p@.2));
        self.pokemons.push(stored);
        self.store = Ghost(new_store);
        proof {
            let v = self.pokemons@;
            assert(v.len() == old_v.len() + 1);
            assert forall|i: int| 0 <= i < v.len() implies new_store.contains_key((#[trigger] v[i])@.0)
                && new_store[v[i]@.0] == (v[i]@.1, v[i]@.2) by {
                if i < old_v.len() {
                    assert(v[i] == old_v[i]);
                }
            }
            assert forall|i: int, j: int| 0 <= i < j < v.len() implies (#[trigger] v[i])@.0 != (
            #[trigger] v[j])@.0 by {
                if j < old_v.len() {
                    assert(v[i] == old_v[i] && v[j] == old_v[j]);
                } else {
                    assert(v[i] == old_v[i]);
                }
            }
            assert forall|k: u16| #[trigger] new_store.contains_key(k) implies exists|i: int|
                0 <= i < v.len() && (#[trigger] v[i])@.0 == k by {
                if k == p@.0 {
                    assert(v[old_v.len() as int]@.0 == k);
                } else {
                    let i = choose|i: int| 0 <= i < old_v.len() && (#[trigger] old_v[i])@.0 == k;
                    assert(v[i] == old_v[i]);
                }
            }
            assert forall|i: int| 0 <= i < v.len() implies #[trigger] v[i].wf() by {
                if i < old_v.len() {
                    assert(v[i] == old_v[i]);
                }
            }
        }
        Ok(p)
    }

    fn fetch_all(&self) -> (r: Result<Vec<Pokemon>, FetchAllError>) {
        if self.error {
            return Err(FetchAllError::Unknown);
        }
        let mut out: Vec<Pokemon> = Vec::new();
        let mut i: usize = 0;
        while i < self.pokemons.len()
            invariant
                i <= self.pokemons.len(),
                out@.len() == i,
                forall|j: int| 0 <= j < i ==> (#[trigger] out@[j])@ == self.pokemons@[j]@ && out@[j].wf()
                    == self.pokemons@[j].wf(),
            decreases self.pokemons.len() - i,
        {
            out.push(self.pokemons[i].duplicate());
            i = i + 1;
        }
        proof {
            let v = out@;
            let w = self.pokemons@;
            assert forall|i: int| 0 <= i < v.len() implies #[trigger] v[i].wf() by {
                assert(w[i].wf());
            }
            assert forall|i: int|
                0 <= i < v.len() implies self.store@.contains_key((#[trigger] v[i])@.0)
                && self.store@[v[i]@.0] == (v[i]@.1, v[i]@.2) by {
                assert(v[i]@ == w[i]@);
            }
            assert forall|i: int, j: int| 0 <= i < j < v.len() implies (#[trigger] v[i])@.0 != (
            #[trigger] v[j])@.0 by {
                assert(v[i]@ == w[i]@ && v[j]@ == w[j]@);
            }
            assert forall|k: u16| #[trigger] self.store@.contains_key(k) implies exists|i: int|
                0 <= i < v.len() && (#[trigger] v[i])@.0 == k by {
                let i = choose|i: int| 0 <= i < w.len() && (#[trigger] w[i])@.0 == k;
                assert(v[i]@ == w[i]@);
            }
        }
        Ok(out)
    }
}

} // verus!
