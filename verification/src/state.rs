//! The transactional state: an in-memory backing reader and a write-through
//! cache in front of it.  Maps are association lists read from the newest
//! entry backwards, viewed as mathematical maps keyed by felt values.

use vstd::prelude::*;
use crate::felt::{Felt, ContractAddress, ClassHash};
use crate::errors::StateError;
use crate::types::ContractClass;

verus! {

/// The map denoted by an association list; a later entry wins.
pub open spec fn map_of<V>(entries: Seq<(Felt, V)>) -> Map<int, V>
    decreases entries.len(),
{
    if entries.len() == 0 {
        Map::empty()
    } else {
        map_of(entries.drop_last()).insert(entries.last().0@, entries.last().1)
    }
}

/// The map denoted by an association list with a pair key.
pub open spec fn map2_of<V>(entries: Seq<((Felt, Felt), V)>) -> Map<(int, int), V>
    decreases entries.len(),
{
    if entries.len() == 0 {
        Map::empty()
    } else {
        map2_of(entries.drop_last()).insert(
            (entries.last().0.0@, entries.last().0.1@),
            entries.last().1,
        )
    }
}

/// A map from felts to values, as an association list.
pub struct FeltMap<V> {
    pub entries: Vec<(Felt, V)>,
}

impl<V> View for FeltMap<V> {
    type V = Map<int, V>;

    open spec fn view(&self) -> Map<int, V> {
        map_of(self.entries@)
    }
}

proof fn lemma_map_of_skip_found<V>(entries: Seq<(Felt, V)>, i: int)
    requires
        0 <= i < entries.len(),
        forall|j: int| i < j < entries.len() ==> (#[trigger] entries[j]).0@ != entries[i].0@,
    ensures
        map_of(entries).dom().contains(entries[i].0@),
        map_of(entries)[entries[i].0@] == entries[i].1,
    decreases entries.len(),
{
    if i == entries.len() - 1 {
    } else {
        assert(entries.drop_last()[i] == entries[i]);
        lemma_map_of_skip_found(entries.drop_last(), i);
    }
}

proof fn lemma_map_of_absent<V>(entries: Seq<(Felt, V)>, k: int)
    requires
        forall|j: int| 0 <= j < entries.len() ==> (#[trigger] entries[j]).0@ != k,
    ensures
        !map_of(entries).dom().contains(k),
    decreases entries.len(),
{
    if entries.len() > 0 {
        lemma_map_of_absent(entries.drop_last(), k);
    }
}

impl<V> FeltMap<V> {
    pub fn new() -> (r: FeltMap<V>)
        ensures
            r@ =~= Map::<int, V>::empty(),
    {
        FeltMap { entries: Vec::new() }
    }

    /// Looks the key up; the newest binding wins.
    pub fn get(&self, k: &Felt) -> (r: Option<&V>)
        ensures
            match r {
                Some(v) => self@.dom().contains(k@) && *v == self@[k@],
                None => !self@.dom().contains(k@),
            },
    {
        let n = self.entries.len();
        let mut i: usize = n;
        while i > 0
            invariant
                0 <= i <= n,
                n == self.entries@.len(),
                forall|j: int| i <= j < n ==> (#[trigger] self.entries@[j]).0@ != k@,
            decreases i,
        {
            i = i - 1;
            let e = &self.entries[i];
            if e.0.eq_felt(k) {
                proof {
                    lemma_map_of_skip_found(self.entries@, i as int);
                }
                return Some(&e.1);
            }
        }
        proof {
            lemma_map_of_absent(self.entries@, k@);
        }
        None
    }

    pub fn insert(&mut self, k: Felt, v: V)
        ensures
            final(self)@ == old(self)@.insert(k@, v),
    {
        self.entries.push((k, v));
        proof {
            assert(self.entries@.drop_last() =~= old(self).entries@);
        }
    }
}

/// A map from felt pairs to values, as an association list.
pub struct FeltPairMap<V> {
    pub entries: Vec<((Felt, Felt), V)>,
}

impl<V> View for FeltPairMap<V> {
    type V = Map<(int, int), V>;

    open spec fn view(&self) -> Map<(int, int), V> {
        map2_of(self.entries@)
    }
}

proof fn lemma_map2_of_skip_found<V>(entries: Seq<((Felt, Felt), V)>, i: int)
    requires
        0 <= i < entries.len(),
        forall|j: int|
            i < j < entries.len() ==> ((#[trigger] entries[j]).0.0@ != entries[i].0.0@ || entries[j].0.1@
                != entries[i].0.1@),
    ensures
        map2_of(entries).dom().contains((entries[i].0.0@, entries[i].0.1@)),
        map2_of(entries)[(entries[i].0.0@, entries[i].0.1@)] == entries[i].1,
    decreases entries.len(),
{
    if i == entries.len() - 1 {
    } else {
        assert(entries.drop_last()[i] == entries[i]);
        lemma_map2_of_skip_found(entries.drop_last(), i);
    }
}

proof fn lemma_map2_of_absent<V>(entries: Seq<((Felt, Felt), V)>, k: (int, int))
    requires
        forall|j: int|
            0 <= j < entries.len() ==> ((#[trigger] entries[j]).0.0@ != k.0 || entries[j].0.1@ != k.1),
    ensures
        !map2_of(entries).dom().contains(k),
    decreases entries.len(),
{
    if entries.len() > 0 {
        lemma_map2_of_absent(entries.drop_last(), k);
    }
}

impl<V> FeltPairMap<V> {
    pub fn new() -> (r: FeltPairMap<V>)
        ensures
            r@ =~= Map::<(int, int), V>::empty(),
    {
        FeltPairMap { entries: Vec::new() }
    }

    pub fn get(&self, k0: &Felt, k1: &Felt) -> (r: Option<&V>)
        ensures
            match r {
                Some(v) => self@.dom().contains((k0@, k1@)) && *v == self@[(k0@, k1@)],
                None => !self@.dom().contains((k0@, k1@)),
            },
    {
        let n = self.entries.len();
        let mut i: usize = n;
        while i > 0
            invariant
                0 <= i <= n,
                n == self.entries@.len(),
                forall|j: int|
                    i <= j < n ==> ((#[trigger] self.entries@[j]).0.0@ != k0@
                        || self.entries@[j].0.1@ != k1@),
            decreases i,
        {
            i = i - 1;
            let e = &self.entries[i];
            if e.0.0.eq_felt(k0) && e.0.1.eq_felt(k1) {
                proof {
                    lemma_map2_of_skip_found(self.entries@, i as int);
                }
                return Some(&e.1);
            }
        }
        proof {
            lemma_map2_of_absent(self.entries@, (k0@, k1@));
        }
        None
    }

    pub fn insert(&mut self, k0: Felt, k1: Felt, v: V)
        ensures
            final(self)@ == old(self)@.insert((k0@, k1@), v),
    {
        self.entries.push(((k0, k1), v));
        proof {
            assert(self.entries@.drop_last() =~= old(self).entries@);
        }
    }
}

/// The backing store beneath the transactional cache: plain in-memory maps.
pub struct InMemoryStateReader {
    pub address_to_class_hash: FeltMap<ClassHash>,
    pub address_to_nonce: FeltMap<Felt>,
    /// Keyed by contract address and storage key.
    pub address_to_storage: FeltPairMap<Felt>,
    pub class_hash_to_contract_class: FeltMap<ContractClass>,
}

impl InMemoryStateReader {
    pub fn new_default() -> (r: InMemoryStateReader)
        ensures
            r.address_to_class_hash@ =~= Map::<int, ClassHash>::empty(),
            r.address_to_nonce@ =~= Map::<int, Felt>::empty(),
            r.address_to_storage@ =~= Map::<(int, int), Felt>::empty(),
            r.class_hash_to_contract_class@ =~= Map::<int, ContractClass>::empty(),
    {
        InMemoryStateReader {
            address_to_class_hash: FeltMap::new(),
            address_to_nonce: FeltMap::new(),
            address_to_storage: FeltPairMap::new(),
            class_hash_to_contract_class: FeltMap::new(),
        }
    }
}

/// The class declarations, the backing reader and the nonce cache are
/// untouched between two states: only storage and address bindings moved.
pub open spec fn class_tables_unchanged(a: CachedState, b: CachedState) -> bool {
    &&& b.contract_classes == a.contract_classes
    &&& b.state_reader == a.state_reader
    &&& b.nonce_writes == a.nonce_writes
}

/// A transactional view over a state reader: writes land in cache maps, the
/// reader is consulted beneath them, and the caller decides what to do with
/// the accumulated writes.
pub struct CachedState {
    pub state_reader: InMemoryStateReader,
    pub contract_classes: FeltMap<ContractClass>,
    pub storage_writes: FeltPairMap<Felt>,
    pub class_hash_writes: FeltMap<ClassHash>,
    pub nonce_writes: FeltMap<Felt>,
}

impl CachedState {
    /// Every felt held in storage lies below the prime.
    pub open spec fn storage_wf(self) -> bool {
        &&& forall|k: (int, int)|
            self.storage_writes@.dom().contains(k) ==> (#[trigger] self.storage_writes@[k]).wf()
        &&& forall|k: (int, int)|
            self.state_reader.address_to_storage@.dom().contains(k) ==> (
            #[trigger] self.state_reader.address_to_storage@[k]).wf()
    }

    /// The storage slot `(address, key)`, write-through: `None` when neither
    /// the cache nor the reader holds it.
    pub open spec fn storage_entry(self, a: int, k: int) -> Option<int> {
        if self.storage_writes@.dom().contains((a, k)) {
            Some(self.storage_writes@[(a, k)]@)
        } else if self.state_reader.address_to_storage@.dom().contains((a, k)) {
            Some(self.state_reader.address_to_storage@[(a, k)]@)
        } else {
            None
        }
    }

    /// The value a storage read yields: an unset slot reads as zero.
    pub open spec fn storage_value(self, a: int, k: int) -> int {
        match self.storage_entry(a, k) {
            Some(v) => v,
            None => 0,
        }
    }

    /// The class hash installed at an address; zero when none is.
    pub open spec fn class_hash_at(self, a: int) -> int {
        if self.class_hash_writes@.dom().contains(a) {
            self.class_hash_writes@[a]@
        } else if self.state_reader.address_to_class_hash@.dom().contains(a) {
            self.state_reader.address_to_class_hash@[a]@
        } else {
            0
        }
    }

    /// The contract class declared under a hash.
    pub open spec fn class_of(self, h: int) -> Option<ContractClass> {
        if self.contract_classes@.dom().contains(h) {
            Some(self.contract_classes@[h])
        } else if self.state_reader.class_hash_to_contract_class@.dom().contains(h) {
            Some(self.state_reader.class_hash_to_contract_class@[h])
        } else {
            None
        }
    }

    pub fn new(state_reader: InMemoryStateReader) -> (r: CachedState)
        ensures
            r.state_reader == state_reader,
            r.contract_classes@ =~= Map::<int, ContractClass>::empty(),
            r.storage_writes@ =~= Map::<(int, int), Felt>::empty(),
            r.class_hash_writes@ =~= Map::<int, ClassHash>::empty(),
            r.nonce_writes@ =~= Map::<int, Felt>::empty(),
    {
        CachedState {
            state_reader,
            contract_classes: FeltMap::new(),
            storage_writes: FeltPairMap::new(),
            class_hash_writes: FeltMap::new(),
            nonce_writes: FeltMap::new(),
        }
    }

    /// Reads a storage slot; an unset slot is an error, which callers may
    /// choose to read as zero.
    pub fn get_storage_at(&self, address: &ContractAddress, key: &Felt) -> (r: Result<
        Felt,
        StateError,
    >)
        ensures
            match r {
                Ok(v) => self.storage_entry(address@, key@) == Some(v@) && (self.storage_wf()
                    ==> v.wf()),
                Err(e) => self.storage_entry(address@, key@) is None && e == StateError::NoneStorage,
            },
    {
        match self.storage_writes.get(&address.0, key) {
            Some(v) => Ok(*v),
            None => match self.state_reader.address_to_storage.get(&address.0, key) {
                Some(v) => Ok(*v),
                None => Err(StateError::NoneStorage),
            },
        }
    }

    /// Writes a storage slot through to the cache.
    pub fn set_storage_at(&mut self, address: &ContractAddress, key: &Felt, value: Felt)
        ensures
            final(self).storage_writes@ == old(self).storage_writes@.insert(
                (address@, key@),
                value,
            ),
            final(self).state_reader == old(self).state_reader,
            final(self).contract_classes == old(self).contract_classes,
            final(self).class_hash_writes == old(self).class_hash_writes,
            final(self).nonce_writes == old(self).nonce_writes,
            old(self).storage_wf() && value.wf() ==> final(self).storage_wf(),
    {
        self.storage_writes.insert(address.0, *key, value);
        proof {
            if old(self).storage_wf() && value.wf() {
                assert forall|k: (int, int)| self.storage_writes@.dom().contains(k) implies (
                #[trigger] self.storage_writes@[k]).wf() by {
                    if k != (address@, key@) {
                        assert(old(self).storage_writes@.dom().contains(k));
                    }
                }
            }
        }
    }

    /// The class hash at an address; zero when none was installed.
    pub fn get_class_hash_at(&self, address: &ContractAddress) -> (r: ClassHash)
        ensures
            r@ == self.class_hash_at(address@),
            self.class_hash_at(address@) == 0 ==> r == (ClassHash(crate::felt::Felt::spec_zero())),
    {
        proof {
            crate::felt::lemma_felt_view_injective(
                crate::felt::Felt::spec_zero(),
                crate::felt::Felt::spec_zero(),
            );
        }
        match self.class_hash_writes.get(&address.0) {
            Some(h) => *h,
            None => match self.state_reader.address_to_class_hash.get(&address.0) {
                Some(h) => *h,
                None => ClassHash(Felt::zero()),
            },
        }
    }

    pub fn set_class_hash_at(&mut self, address: ContractAddress, class_hash: ClassHash) -> (r:
        Result<(), StateError>)
        ensures
            r is Ok,
            final(self).class_hash_writes@ == old(self).class_hash_writes@.insert(
                address@,
                class_hash,
            ),
            final(self).state_reader == old(self).state_reader,
            final(self).contract_classes == old(self).contract_classes,
            final(self).storage_writes == old(self).storage_writes,
            final(self).nonce_writes == old(self).nonce_writes,
    {
        self.class_hash_writes.insert(address.0, class_hash);
        Ok(())
    }

    /// Installs a class at an address.  The zero address and an address that
    /// already holds a class are refused.
    pub fn deploy_contract(&mut self, address: ContractAddress, class_hash: ClassHash) -> (r:
        Result<(), StateError>)
        ensures
            match r {
                Ok(_) => {
                    &&& address@ != 0
                    &&& old(self).class_hash_at(address@) == 0
                    &&& final(self).class_hash_writes@ == old(self).class_hash_writes@.insert(
                        address@,
                        class_hash,
                    )
                    &&& final(self).state_reader == old(self).state_reader
                    &&& final(self).contract_classes == old(self).contract_classes
                    &&& final(self).storage_writes == old(self).storage_writes
                    &&& final(self).nonce_writes == old(self).nonce_writes
                },
                Err(e) => {
                    &&& *final(self) == *old(self)
                    &&& (address@ == 0 || old(self).class_hash_at(address@) != 0)
                    &&& e == if address@ == 0 {
                        StateError::ContractAddressOutOfRange
                    } else {
                        StateError::ContractAddressUnavailable
                    }
                },
            },
    {
        if address.0.is_zero() {
            return Err(StateError::ContractAddressOutOfRange);
        }
        let current = self.get_class_hash_at(&address);
        if !current.0.is_zero() {
            return Err(StateError::ContractAddressUnavailable);
        }
        self.class_hash_writes.insert(address.0, class_hash);
        Ok(())
    }

    /// The class declared under a hash; missing classes are an error.
    pub fn get_contract_class(&self, class_hash: &ClassHash) -> (r: Result<
        &ContractClass,
        StateError,
    >)
        ensures
            match r {
                Ok(c) => self.class_of(class_hash@) == Some(*c),
                Err(e) => self.class_of(class_hash@) is None && e == StateError::MissingClassHash,
            },
    {
        match self.contract_classes.get(&class_hash.0) {
            Some(c) => Ok(c),
            None => match self.state_reader.class_hash_to_contract_class.get(&class_hash.0) {
                Some(c) => Ok(c),
                None => Err(StateError::MissingClassHash),
            },
        }
    }

    pub fn set_contract_class(&mut self, class_hash: &ClassHash, class: ContractClass) -> (r:
        Result<(), StateError>)
        ensures
            r is Ok,
            final(self).contract_classes@ == old(self).contract_classes@.insert(class_hash@, class),
            final(self).state_reader == old(self).state_reader,
            final(self).class_hash_writes == old(self).class_hash_writes,
            final(self).storage_writes == old(self).storage_writes,
            final(self).nonce_writes == old(self).nonce_writes,
    {
        self.contract_classes.insert(class_hash.0, class);
        Ok(())
    }

    /// The nonce of an address; zero when it was never set.
    pub fn get_nonce_at(&self, address: &ContractAddress) -> (r: Felt)
        ensures
            r@ == if self.nonce_writes@.dom().contains(address@) {
                self.nonce_writes@[address@]@
            } else if self.state_reader.address_to_nonce@.dom().contains(address@) {
                self.state_reader.address_to_nonce@[address@]@
            } else {
                0
            },
    {
        match self.nonce_writes.get(&address.0) {
            Some(n) => *n,
            None => match self.state_reader.address_to_nonce.get(&address.0) {
                Some(n) => *n,
                None => Felt::zero(),
            },
        }
    }
}

} // verus!
