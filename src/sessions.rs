use vstd::prelude::*;
use crate::bytes::bytes_eq;

verus! {

/// Opaque session state from the key-agreement protocol, with the identifier
/// it reports for itself.
#[derive(Clone, Debug, PartialEq, Eq)]
pub struct SessionRecord {
    pub id: Vec<u8>,
    pub state: Vec<u8>,
}

/// Session records keyed by their identifiers; no two share an identifier.
#[derive(Clone, Debug, PartialEq, Eq)]
pub struct SessionTable {
    pub records: Vec<SessionRecord>,
}

/// A persisted session table in which some entry's key is not the identifier
/// of its record, or two entries share a key.
#[derive(Clone, Copy, Debug, PartialEq, Eq, Structural)]
pub enum SessionError {
    CorruptState,
}

/// One persisted entry of a session table: the key it was stored under and
/// the record.
#[derive(Clone, Debug, PartialEq, Eq)]
pub struct SessionEntry {
    pub key: Vec<u8>,
    pub record: SessionRecord,
}

pub open spec fn ids_unique(s: Seq<SessionRecord>) -> bool {
    forall|i: int, j: int| 0 <= i < j < s.len() ==> s[i].id@ != s[j].id@
}

pub open spec fn keys_match(e: Seq<SessionEntry>) -> bool {
    forall|i: int| 0 <= i < e.len() ==> #[trigger] e[i].key@ == e[i].record.id@
}

pub open spec fn records_of(e: Seq<SessionEntry>) -> Seq<SessionRecord> {
    e.map_values(|x: SessionEntry| x.record)
}

impl SessionTable {
    pub open spec fn wf(&self) -> bool {
        ids_unique(self.records@)
    }

    /// The table holds `r` under identifier `id`.
    pub open spec fn holds(&self, id: Seq<u8>, r: SessionRecord) -> bool {
        exists|i: int| 0 <= i < self.records@.len() && self.records@[i] == r && r.id@ == id
    }

    pub open spec fn has_id(&self, id: Seq<u8>) -> bool {
        exists|i: int| 0 <= i < self.records@.len() && #[trigger] self.records@[i].id@ == id
    }

    pub fn new() -> (r: SessionTable)
        ensures
            r.wf(),
            r.records@.len() == 0,
    {
        SessionTable { records: Vec::new() }
    }

    pub fn len(&self) -> (r: usize)
        ensures
            r == self.records@.len(),
    {
        self.records.len()
    }

    fn position(&self, id: &Vec<u8>) -> (r: Option<usize>)
        ensures
            match r {
                Some(i) => i < self.records@.len() && self.records@[i as int].id@ == id@,
                None => forall|i: int| 0 <= i < self.records@.len() ==> self.records@[i].id@ != id@,
            },
    {
        let mut i: usize = 0;
        while i < self.records.len()
            invariant
                0 <= i <= self.records@.len(),
                forall|k: int| 0 <= k < i ==> self.records@[k].id@ != id@,
            decreases self.records@.len() - i,
        {
            if bytes_eq(&self.records[i].id, id) {
                return Some(i);
            }
            i = i + 1;
        }
        None
    }

    /// Looks a session up by identifier.
    pub fn get(&self, id: &Vec<u8>) -> (r: Option<&SessionRecord>)
        ensures
            match r {
                Some(x) => self.holds(id@, *x),
                None => !self.has_id(id@),
            },
    {
        match self.position(id) {
            Some(i) => Some(&self.records[i]),
            None => None,
        }
    }

    /// Inserts a session; one with the same identifier is replaced.
    pub fn insert(&mut self, record: SessionRecord)
        requires
            old(self).wf(),
        ensures
            final(self).wf(),
            final(self).holds(record.id@, record),
            forall|id: Seq<u8>, x: SessionRecord|
                id != record.id@ ==> (final(self).holds(id, x) <==> old(self).holds(id, x)),
            forall|x: SessionRecord| #[trigger] final(self).holds(record.id@, x) ==> x == record,
    {
        let ghost rid = record.id@;
        let ghost prev = *self;
        let ghost rec = record;
        match self.position(&record.id) {
            Some(i) => {
                self.records.set(i, record);
                assert(self.records@[i as int].id@ == rid);
                assert forall|id: Seq<u8>, x: SessionRecord| id != rid implies (self.holds(id, x)
                    <==> prev.holds(id, x)) by {
                    if self.holds(id, x) {
                        let j = choose|j: int|
                            0 <= j < self.records@.len() && self.records@[j] == x && x.id@ == id;
                        assert(prev.records@[j] == x);
                    }
                    if prev.holds(id, x) {
                        let j = choose|j: int|
                            0 <= j < prev.records@.len() && prev.records@[j] == x && x.id@ == id;
                        assert(self.records@[j] == x);
                    }
                }
                assert forall|x: SessionRecord| #[trigger] self.holds(rid, x) implies x == rec by {
                    let j = choose|j: int|
                        0 <= j < self.records@.len() && self.records@[j] == x && x.id@ == rid;
                    if j != i {
                        assert(prev.records@[j].id@ == prev.records@[i as int].id@);
                    }
                }
            },
            None => {
                self.records.push(record);
                let ghost n: int = self.records@.len() - 1;
                assert(self.records@[n].id@ == rid);
                assert forall|id: Seq<u8>, x: SessionRecord| id != rid implies (self.holds(id, x)
                    <==> prev.holds(id, x)) by {
                    if self.holds(id, x) {
                        let j = choose|j: int|
                            0 <= j < self.records@.len() && self.records@[j] == x && x.id@ == id;
                        assert(prev.records@[j] == x);
                    }
                    if prev.holds(id, x) {
                        let j = choose|j: int|
                            0 <= j < prev.records@.len() && prev.records@[j] == x && x.id@ == id;
                        assert(self.records@[j] == x);
                    }
                }
                assert forall|x: SessionRecord| #[trigger] self.holds(rid, x) implies x == rec by {
                    let j = choose|j: int|
                        0 <= j < self.records@.len() && self.records@[j] == x && x.id@ == rid;
                    if j != n {
                        assert(prev.records@[j].id@ == rid);
                    }
                }
            },
        }
    }

    /// Builds a table from persisted entries, refusing entries whose key is
    /// not their record's identifier, and keys that repeat.
    pub fn from_entries(entries: Vec<SessionEntry>) -> (r: Result<SessionTable, SessionError>)
        ensures
            r is Ok <==> (keys_match(entries@) && ids_unique(records_of(entries@))),
            r matches Ok(t) ==> t.wf() && t.records@ == records_of(entries@),
    {
        let ghost all = entries@;
        let ghost rs = records_of(entries@);
        let mut rest = entries;
        let mut t = SessionTable::new();
        let ghost mut i: int = 0;
        while rest.len() > 0
            invariant
                0 <= i <= all.len(),
                all == entries@,
                rest@ == all.subrange(i, all.len() as int),
                rs == records_of(all),
                t.wf(),
                t.records@ == rs.subrange(0, i),
                forall|k: int| 0 <= k < i ==> #[trigger] all[k].key@ == all[k].record.id@,
            decreases rest@.len(),
        {
            assert(rest@.len() == all.len() - i);
            let e = rest.remove(0);
            assert(e == all[i]);
            if !bytes_eq(&e.key, &e.record.id) {
                assert(!keys_match(all)) by {
                    assert(all[i].key@ != all[i].record.id@);
                }
                return Err(SessionError::CorruptState);
            }
            if t.position(&e.key).is_some() {
                assert(!ids_unique(rs)) by {
                    let j = choose|j: int| 0 <= j < t.records@.len() && t.records@[j].id@ == e.key@;
                    assert(t.records@[j] == rs[j]);
                    assert(rs[i] == all[i].record);
                    assert(rs[j].id@ == rs[i].id@);
                    assert(0 <= j < i < rs.len());
                }
                return Err(SessionError::CorruptState);
            }
            t.records.push(e.record);
            assert(rs.subrange(0, i + 1) == rs.subrange(0, i).push(rs[i]));
            assert(rest@ == all.subrange(i + 1, all.len() as int));
            proof {
                i = i + 1;
            }
        }
        assert(rs.subrange(0, all.len() as int) == rs);
        Ok(t)
    }
}

} // verus!
