use vstd::prelude::*;
use crate::model::{Circuit, DataSource, StoreError};

verus! {

/// Whether some record of the table has this identifier.
pub open spec fn holds_id(table: Seq<Seq<Seq<char>>>, id: Seq<char>) -> bool {
    exists|i: int| 0 <= i < table.len() && #[trigger] table[i][0] == id
}

/// The table after every record with the identifier of `c` is replaced by `c`.
pub open spec fn replaced(table: Seq<Seq<Seq<char>>>, c: Seq<Seq<char>>) -> Seq<Seq<Seq<char>>> {
    Seq::new(table.len(), |i: int| if table[i][0] == c[0] { c } else { table[i] })
}

/// Whether no two records share an identifier.
pub open spec fn distinct_ids(table: Seq<Seq<Seq<char>>>) -> bool {
    forall|i: int, j: int| 0 <= i < j < table.len() ==> table[i][0] != table[j][0]
}

/// The record store in memory: circuits in insertion order, viewed as their
/// attributes in column order.
#[derive(Clone)]
pub struct CircuitTable {
    rows: Vec<Circuit>,
}

impl View for CircuitTable {
    type V = Seq<Seq<Seq<char>>>;

    closed spec fn view(&self) -> Seq<Seq<Seq<char>>> {
        self.rows@.map_values(|c: Circuit| c@)
    }
}

impl CircuitTable {
    /// An empty table.
    pub fn new() -> (r: CircuitTable)
        ensures
            r@ == Seq::<Seq<Seq<char>>>::empty(),
    {
        let r = CircuitTable { rows: Vec::new() };
        assert(r@ =~= Seq::<Seq<Seq<char>>>::empty());
        r
    }

    fn position(&self, id: &String) -> (r: Option<usize>)
        ensures
            r matches Some(i) ==> i < self@.len() && self@[i as int][0] == id@,
            r is None ==> !holds_id(self@, id@),
    {
        let mut i: usize = 0;
        while i < self.rows.len()
            invariant
                i <= self.rows.len(),
                forall|j: int| 0 <= j < i ==> self@[j][0] != id@,
            decreases self.rows.len() - i,
        {
            assert(self@[i as int][0] == self.rows@[i as int].id@);
            if self.rows[i].id == *id {
                return Some(i);
            }
            i = i + 1;
        }
        None
    }
}

impl DataSource<Circuit> for CircuitTable {
    type Id = String;

    /// Every record, in insertion order.
    fn get_all(&self) -> (r: Result<Vec<Circuit>, StoreError>)
        ensures
            r matches Ok(v) && v@.map_values(|c: Circuit| c@) == self@,
    {
        let mut out: Vec<Circuit> = Vec::new();
        let mut i: usize = 0;
        while i < self.rows.len()
            invariant
                i <= self.rows.len(),
                out.len() == i,
                forall|j: int| 0 <= j < i ==> #[trigger] out@[j]@ == self@[j],
            decreases self.rows.len() - i,
        {
            out.push(self.rows[i].duplicate());
            i = i + 1;
        }
        assert(out@.map_values(|c: Circuit| c@) =~= self@);
        Ok(out)
    }

    /// Replaces the record with the identifier of `value`; an identifier that no
    /// record has is refused.
    fn update(&mut self, value: Circuit) -> (r: Result<Circuit, StoreError>)
        ensures
            distinct_ids(old(self)@) ==> distinct_ids(final(self)@),
            holds_id(old(self)@, value@[0]) ==> (r matches Ok(c) && c@ == value@)
                && final(self)@ == replaced(old(self)@, value@),
            !holds_id(old(self)@, value@[0]) ==> r == Err::<Circuit, StoreError>(StoreError::NotFound)
                && final(self)@ == old(self)@,
    {
        let ghost prev = self@;
        assert(forall|j: int| 0 <= j < self.rows@.len() ==> #[trigger] self.rows@[j]@ == prev[j]);
        let mut found = false;
        let mut i: usize = 0;
        while i < self.rows.len()
            invariant
                i <= self.rows.len(),
                self.rows@.len() == prev.len(),
                forall|j: int| 0 <= j < i ==> #[trigger] self.rows@[j]@ == replaced(prev, value@)[j],
                forall|j: int| i <= j < self.rows@.len() ==> #[trigger] self.rows@[j]@ == prev[j],
                found <==> exists|j: int| 0 <= j < i && #[trigger] prev[j][0] == value@[0],
            decreases self.rows.len() - i,
        {
            assert(self.rows@[i as int]@ == prev[i as int]);
            let is_match = self.rows[i].id == value.id;
            assert(is_match <==> prev[i as int][0] == value@[0]);
            if is_match {
                self.rows.set(i, value.duplicate());
                found = true;
            }
            assert(self.rows@[i as int]@ == replaced(prev, value@)[i as int]);
            i = i + 1;
        }
        assert(self@ =~= replaced(prev, value@));
        if found {
            Ok(value)
        } else {
            assert(self@ =~= prev);
            Err(StoreError::NotFound)
        }
    }

    /// The record with this identifier; an identifier that no record has is refused.
    fn get(&self, id: String) -> (r: Result<Circuit, StoreError>)
        ensures
            holds_id(self@, id@) ==> (r matches Ok(c) && c@[0] == id@
                && exists|i: int| 0 <= i < self@.len() && #[trigger] self@[i] == c@),
            !holds_id(self@, id@) ==> r == Err::<Circuit, StoreError>(StoreError::NotFound),
    {
        match self.position(&id) {
            Some(i) => {
                let c = self.rows[i].duplicate();
                assert(self@[i as int] == c@);
                Ok(c)
            },
            None => Err(StoreError::NotFound),
        }
    }

    /// Adds a record; an identifier that a record already has is refused.
    fn create(&mut self, value: Circuit) -> (r: Result<Circuit, StoreError>)
        ensures
            distinct_ids(old(self)@) ==> distinct_ids(final(self)@),
            holds_id(old(self)@, value@[0]) ==> r == Err::<Circuit, StoreError>(StoreError::DuplicateId)
                && final(self)@ == old(self)@,
            !holds_id(old(self)@, value@[0]) ==> (r matches Ok(c) && c@ == value@)
                && final(self)@ == old(self)@.push(value@),
    {
        if self.position(&value.id).is_some() {
            return Err(StoreError::DuplicateId);
        }
        let copy = value.duplicate();
        let ghost prev = self@;
        self.rows.push(value);
        assert(self@ =~= prev.push(copy@));
        Ok(copy)
    }
}

} // verus!
