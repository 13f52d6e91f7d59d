//! The storage layer: an embedded persistent key-value store with byte-string
//! keys, shared by chain state and contract state. The store itself is an
//! outside crate; its contents are named by `db_view`, and the two operations
//! the runtime uses are wrapped with contracts over that name. On top of it,
//! a verified write set buffers a run's writes: a run that fails is dropped
//! with its whole set, so it leaves no partial state behind, while a storage
//! fault during the apply of a successful run can leave a prefix of the
//! writes applied and is reported as a fault.

use vstd::prelude::*;

use crate::codec::copy_range;
use crate::errors::ErrorKind;

verus! {

#[verifier::external_type_specification]
#[verifier::external_body]
pub struct ExDb(sled::Db);

/// What the store holds: a map from keys to values, as observed through the
/// one handle the runtime owns.
pub uninterp spec fn db_view(db: sled::Db) -> Map<Seq<u8>, Seq<u8>>;

/// Relies on sled::Tree::get: retrieves the value stored under the key, if
/// one exists.
#[verifier::external_body]
fn db_get(db: &sled::Db, key: &Vec<u8>) -> (r: Result<Option<Vec<u8>>, ErrorKind>)
    ensures
        match r {
            Ok(Some(v)) => db_view(*db).dom().contains(key@) && v@ == db_view(*db)[key@],
            Ok(None) => !db_view(*db).dom().contains(key@),
            Err(e) => e == ErrorKind::StorageFailure,
        },
{
    match db.get(key.as_slice()) {
        Ok(Some(v)) => Ok(Some(v.to_vec())),
        Ok(None) => Ok(None),
        Err(_) => Err(ErrorKind::StorageFailure),
    }
}

/// Relies on sled::Tree::insert: sets the key to the new value. On a fault
/// nothing is claimed about the store's contents.
#[verifier::external_body]
fn db_insert(db: &mut sled::Db, key: &Vec<u8>, value: &Vec<u8>) -> (r: Result<(), ErrorKind>)
    ensures
        match r {
            Ok(_) => db_view(*final(db)) == db_view(*old(db)).insert(key@, value@),
            Err(e) => e == ErrorKind::StorageFailure,
        },
{
    match db.insert(key.as_slice(), value.as_slice()) {
        Ok(_) => Ok(()),
        Err(_) => Err(ErrorKind::StorageFailure),
    }
}

/// The runtime's handle on the persistent store.
pub struct Storage {
    db: sled::Db,
}

impl Storage {
    /// The stored contents as a map from keys to values.
    pub closed spec fn contents(self) -> Map<Seq<u8>, Seq<u8>> {
        db_view(self.db)
    }

    /// Wraps an opened store. The handle must be the only one in use: the
    /// contents are modelled as a function of this handle alone.
    pub fn new(db: sled::Db) -> (r: Storage)
        ensures
            r.contents() == db_view(db),
    {
        Storage { db }
    }

    /// The value under the key, if any; a fault is reported, never raised.
    pub fn get(&self, key: &Vec<u8>) -> (r: Result<Option<Vec<u8>>, ErrorKind>)
        ensures
            match r {
                Ok(Some(v)) => self.contents().dom().contains(key@) && v@
                    == self.contents()[key@],
                Ok(None) => !self.contents().dom().contains(key@),
                Err(e) => e == ErrorKind::StorageFailure,
            },
    {
        db_get(&self.db, key)
    }

    /// Sets the key to the value. On a fault nothing is known of the
    /// contents any more; the caller reports the failure outcome.
    pub fn put(&mut self, key: &Vec<u8>, value: &Vec<u8>) -> (r: Result<(), ErrorKind>)
        ensures
            match r {
                Ok(_) => final(self).contents() == old(self).contents().insert(key@, value@),
                Err(e) => e == ErrorKind::StorageFailure,
            },
    {
        db_insert(&mut self.db, key, value)
    }
}

/// The writes a run has made, in order; later writes to a key win.
pub open spec fn ws_map_of(s: Seq<(Vec<u8>, Vec<u8>)>) -> Map<Seq<u8>, Seq<u8>>
    decreases s.len(),
{
    if s.len() == 0 {
        Map::empty()
    } else {
        ws_map_of(s.drop_last()).insert(s.last().0@, s.last().1@)
    }
}

/// A run's buffered writes. They reach the store only when the run succeeds
/// and the set is applied; a failed run's set is dropped whole, so its
/// writes are never observable. A storage fault while applying can leave a
/// prefix of the writes behind; the apply reports it and the caller turns it
/// into a failure outcome.
pub struct WriteSet {
    entries: Vec<(Vec<u8>, Vec<u8>)>,
}

impl View for WriteSet {
    type V = Map<Seq<u8>, Seq<u8>>;

    closed spec fn view(&self) -> Map<Seq<u8>, Seq<u8>> {
        ws_map_of(self.entries@)
    }
}

impl WriteSet {
    pub fn new() -> (r: WriteSet)
        ensures
            r@ == Map::<Seq<u8>, Seq<u8>>::empty(),
    {
        WriteSet { entries: Vec::new() }
    }

    pub fn set(&mut self, key: Vec<u8>, value: Vec<u8>)
        ensures
            final(self)@ == old(self)@.insert(key@, value@),
    {
        let ghost k = key@;
        let ghost v = value@;
        self.entries.push((key, value));
        proof {
            assert(self.entries@.drop_last() =~= old(self).entries@);
            assert(self.entries@.last().0@ == k && self.entries@.last().1@ == v);
        }
    }

    /// The buffered value under the key: the latest write wins.
    pub fn get(&self, key: &Vec<u8>) -> (r: Option<&Vec<u8>>)
        ensures
            match r {
                Some(v) => self@.dom().contains(key@) && v@ == self@[key@],
                None => !self@.dom().contains(key@),
            },
    {
        let mut i: usize = self.entries.len();
        proof {
            assert(self.entries@.subrange(0, self.entries@.len() as int) =~= self.entries@);
        }
        while i > 0
            invariant
                i <= self.entries@.len(),
                self@.dom().contains(key@) == ws_map_of(
                    self.entries@.subrange(0, i as int),
                ).dom().contains(key@),
                ws_map_of(self.entries@.subrange(0, i as int)).dom().contains(key@) ==> self@[key@]
                    == ws_map_of(self.entries@.subrange(0, i as int))[key@],
            decreases i,
        {
            proof {
                assert(self.entries@.subrange(0, i as int).drop_last() =~= self.entries@.subrange(
                    0,
                    i - 1,
                ));
                assert(self.entries@.subrange(0, i as int).last() == self.entries@[i - 1]);
            }
            if crate::codec::bytes_eq(&self.entries[i - 1].0, key) {
                return Some(&self.entries[i - 1].1);
            }
            i = i - 1;
        }
        proof {
            assert(self.entries@.subrange(0, 0) =~= Seq::<(Vec<u8>, Vec<u8>)>::empty());
        }
        None
    }

    /// Applies every buffered write to the store, in order. On success the
    /// contents are the old contents overridden by the set; on a fault some
    /// prefix of the writes may have been applied, and the caller reports
    /// the failure outcome.
    pub fn apply(&self, storage: &mut Storage) -> (r: Result<(), ErrorKind>)
        ensures
            match r {
                Ok(_) => final(storage).contents() == old(storage).contents().union_prefer_right(
                    self@,
                ),
                Err(e) => e == ErrorKind::StorageFailure,
            },
    {
        let mut i: usize = 0;
        while i < self.entries.len()
            invariant
                i <= self.entries@.len(),
                storage.contents() == old(storage).contents().union_prefer_right(
                    ws_map_of(self.entries@.subrange(0, i as int)),
                ),
            decreases self.entries@.len() - i,
        {
            proof {
                assert(self.entries@.subrange(0, 0) =~= Seq::<(Vec<u8>, Vec<u8>)>::empty());
            }
            let key = &self.entries[i].0;
            let value = &self.entries[i].1;
            match storage.put(key, value) {
                Ok(_) => {},
                Err(e) => {
                    return Err(e);
                },
            }
            i = i + 1;
            proof {
                assert(self.entries@.subrange(0, i as int).drop_last() =~= self.entries@.subrange(
                    0,
                    i - 1,
                ));
                assert(self.entries@.subrange(0, i as int).last() == self.entries@[i - 1]);
                assert(old(storage).contents().union_prefer_right(
                    ws_map_of(self.entries@.subrange(0, i - 1)),
                ).insert(key@, value@) =~= old(storage).contents().union_prefer_right(
                    ws_map_of(self.entries@.subrange(0, i as int)),
                ));
            }
        }
        proof {
            assert(self.entries@.subrange(0, self.entries@.len() as int) =~= self.entries@);
        }
        Ok(())
    }
}

/// The state a run observes: the store's contents overridden by the run's
/// own buffered writes, so that a run reads its own writes back.
pub open spec fn effective(base: Map<Seq<u8>, Seq<u8>>, ws: Map<Seq<u8>, Seq<u8>>) -> Map<
    Seq<u8>,
    Seq<u8>,
> {
    base.union_prefer_right(ws)
}

/// Reads a key as the run observes it: the write set first, then the store.
pub fn read_through(storage: &Storage, ws: &WriteSet, key: &Vec<u8>) -> (r: Result<
    Option<Vec<u8>>,
    ErrorKind,
>)
    ensures
        match r {
            Ok(Some(v)) => effective(storage.contents(), ws@).dom().contains(key@) && v@
                == effective(storage.contents(), ws@)[key@],
            Ok(None) => !effective(storage.contents(), ws@).dom().contains(key@),
            Err(e) => e == ErrorKind::StorageFailure,
        },
{
    match ws.get(key) {
        Some(v) => {
            let out = copy_range(v, 0, v.len());
            proof {
                assert(out@ =~= v@);
            }
            Ok(Some(out))
        },
        None => storage.get(key),
    }
}

} // verus!
