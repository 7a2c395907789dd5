//! The operations of one path, by kind, in the order in which they were
//! first registered.

use vstd::prelude::*;
use indexmap::IndexMap;
use crate::method::OperationType;
use crate::models::{Operation, OperationView};
use crate::ordered::{keys_of, lookup, put, put_all, with_values, lemma_put_keys, lemma_put_with_values, lemma_with_values_keys, lemma_put_all_push};

verus! {

#[verifier::external_type_specification]
#[verifier::external_body]
#[verifier::reject_recursive_types(K)]
#[verifier::reject_recursive_types(V)]
#[verifier::reject_recursive_types(S)]
pub struct ExIndexMap<K, V, S>(IndexMap<K, V, S>);

/// The entries that a map of operations holds, in the map's own order.
pub uninterp spec fn operation_entries(map: IndexMap<OperationType, Operation>) -> Seq<
    (OperationType, Operation),
>;

/// `IndexMap::new`: a map that holds no entry.
#[verifier::external_body]
fn operations_new() -> (map: IndexMap<OperationType, Operation>)
    ensures
        operation_entries(map) == Seq::<(OperationType, Operation)>::empty(),
{
    IndexMap::new()
}

/// `IndexMap::len`: the number of entries.
#[verifier::external_body]
fn operations_len(map: &IndexMap<OperationType, Operation>) -> (n: usize)
    ensures
        n == operation_entries(*map).len(),
{
    map.len()
}

/// `IndexMap::get_index`: the entry at a position of the map's order, and
/// `None` for a position behind the last entry.
#[verifier::external_body]
fn operations_get_index(map: &IndexMap<OperationType, Operation>, index: usize) -> (r: Option<
    (&OperationType, &Operation),
>)
    ensures
        match r {
            Some((key, value)) => index < operation_entries(*map).len() && *key
                == operation_entries(*map)[index as int].0 && *value == operation_entries(
                *map,
            )[index as int].1,
            None => index >= operation_entries(*map).len(),
        },
{
    map.get_index(index)
}

/// `IndexMap::get_index_of`: the position of the entry with the given key,
/// and `None` where no entry has it.
#[verifier::external_body]
fn operations_get_index_of(map: &IndexMap<OperationType, Operation>, key: &OperationType) -> (r:
    Option<usize>)
    ensures
        match r {
            Some(i) => keys_of(operation_entries(*map)).index_of_first(*key) == Some(i as int),
            None => keys_of(operation_entries(*map)).index_of_first(*key) is None,
        },
{
    map.get_index_of(key)
}

/// `IndexMap::insert`: where the key is known its value is replaced and the
/// entry keeps its place; where it is new the entry goes to the end. The
/// value that was replaced is handed back.
#[verifier::external_body]
fn operations_insert(
    map: &mut IndexMap<OperationType, Operation>,
    key: OperationType,
    value: Operation,
) -> (previous: Option<Operation>)
    ensures
        operation_entries(*final(map)) == put(operation_entries(*old(map)), key, value),
        previous == lookup(operation_entries(*old(map)), key),
{
    map.insert(key, value)
}

/// The operations of one path. Each kind stands once; a kind that is
/// registered again keeps its place and takes the later operation.
pub struct OperationMap {
    inner: IndexMap<OperationType, Operation>,
}

impl View for OperationMap {
    type V = Seq<(OperationType, OperationView)>;

    closed spec fn view(&self) -> Seq<(OperationType, OperationView)> {
        with_values(operation_entries(self.inner), |o: Operation| o.deep_view())
    }
}

impl DeepView for OperationMap {
    type V = Seq<(OperationType, OperationView)>;

    open spec fn deep_view(&self) -> Seq<(OperationType, OperationView)> {
        self@
    }
}

impl OperationMap {
    #[verifier::type_invariant]
    closed spec fn each_kind_once(&self) -> bool {
        keys_of(operation_entries(self.inner)).no_duplicates()
    }

    /// A map without operations.
    pub fn new() -> (r: Self)
        ensures
            r@ == Seq::<(OperationType, OperationView)>::empty(),
    {
        let inner = operations_new();
        assert(keys_of(operation_entries(inner)) =~= Seq::<OperationType>::empty());
        let r = OperationMap { inner };
        assert(r@ =~= Seq::<(OperationType, OperationView)>::empty());
        r
    }

    /// The number of operations. No kind stands twice among them.
    pub fn len(&self) -> (n: usize)
        ensures
            n == self@.len(),
            keys_of(self@).no_duplicates(),
    {
        proof {
            use_type_invariant(self);
            lemma_with_values_keys(operation_entries(self.inner), |o: Operation| o.deep_view());
        }
        operations_len(&self.inner)
    }

    /// Whether the map holds no operation.
    pub fn is_empty(&self) -> (r: bool)
        ensures
            r == (self@.len() == 0),
    {
        operations_len(&self.inner) == 0
    }

    /// The operation at a position of the map's order.
    pub fn get_index(&self, index: usize) -> (r: Option<(OperationType, &Operation)>)
        ensures
            match r {
                Some((kind, operation)) => index < self@.len() && self@[index as int] == (
                    kind,
                    operation.deep_view(),
                ),
                None => index >= self@.len(),
            },
    {
        match operations_get_index(&self.inner, index) {
            Some((kind, operation)) => Some((*kind, operation)),
            None => None,
        }
    }

    /// The operation of the kind `kind`.
    pub fn get(&self, kind: OperationType) -> (r: Option<&Operation>)
        ensures
            match r {
                Some(operation) => lookup(self@, kind) == Some(operation.deep_view()),
                None => lookup(self@, kind) is None,
            },
    {
        proof {
            lemma_with_values_keys(operation_entries(self.inner), |o: Operation| o.deep_view());
            keys_of(operation_entries(self.inner)).index_of_first_ensures(kind);
        }
        match operations_get_index_of(&self.inner, &kind) {
            Some(i) => match operations_get_index(&self.inner, i) {
                Some((_, operation)) => Some(operation),
                None => None,
            },
            None => None,
        }
    }

    /// Registers `operation` under `kind`: in the place of the operation that
    /// the kind had, or at the end where the kind is new.
    pub fn insert(&mut self, kind: OperationType, operation: Operation)
        ensures
            final(self)@ == put(old(self)@, kind, operation.deep_view()),
    {
        proof {
            use_type_invariant(&*self);
            lemma_put_keys(operation_entries(self.inner), kind, operation);
            lemma_put_with_values(
                operation_entries(self.inner),
                kind,
                operation,
                |o: Operation| o.deep_view(),
            );
        }
        let mut inner = operations_new();
        assert(keys_of(operation_entries(inner)) =~= Seq::<OperationType>::empty());
        core::mem::swap(&mut self.inner, &mut inner);
        let _ = operations_insert(&mut inner, kind, operation);
        self.inner = inner;
    }

    /// Registers every operation of `other`, in the order of `other`. Where
    /// both hold a kind, the operation of `other` wins.
    pub fn extend(&mut self, other: &OperationMap)
        ensures
            final(self)@ == put_all(old(self)@, other@),
    {
        let n = other.len();
        let mut i: usize = 0;
        assert(other@.take(0) =~= Seq::<(OperationType, OperationView)>::empty());
        while i < n
            invariant
                i <= n,
                n == other@.len(),
                self@ == put_all(old(self)@, other@.take(i as int)),
            decreases n - i,
        {
            match other.get_index(i) {
                Some((kind, operation)) => {
                    proof {
                        lemma_put_all_push(old(self)@, other@.take(i as int), other@[i as int]);
                        assert(other@.take(i as int).push(other@[i as int]) =~= other@.take(i + 1));
                    }
                    self.insert(kind, operation.clone());
                },
                None => {},
            }
            i = i + 1;
        }
        assert(other@.take(n as int) =~= other@);
    }
}

impl Clone for OperationMap {
    fn clone(&self) -> (r: Self)
        ensures
            r@ == self@,
    {
        let mut r = OperationMap::new();
        let n = self.len();
        proof {
            crate::ordered::lemma_put_all_rebuilds(self@);
        }
        r.extend(self);
        r
    }
}

impl Default for OperationMap {
    fn default() -> (r: Self)
        ensures
            r@ == Seq::<(OperationType, OperationView)>::empty(),
    {
        OperationMap::new()
    }
}

} // verus!
