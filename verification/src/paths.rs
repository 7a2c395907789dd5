//! The paths of a description, each with its operations, in the order in
//! which the paths were first registered.

use vstd::prelude::*;
use vstd::string::*;
use indexmap::IndexMap;
use crate::method::OperationType;
use crate::models::{OperationView, Parameter, ParameterView};
use crate::operation_map::OperationMap;
use crate::ordered::{keys_of, lookup, put, put_all, with_values, lemma_put_keys, lemma_put_with_values, lemma_with_values_keys, lemma_put_all_push, lemma_put_all_rebuilds};

verus! {

/// What the description says of one path.
pub struct PathItem {
    pub operations: OperationMap,
    pub parameters: Vec<Parameter>,
}

/// What a [`PathItem`] stands for.
pub struct PathItemView {
    pub operations: Seq<(OperationType, OperationView)>,
    pub parameters: Seq<ParameterView>,
}

impl PathItemView {
    /// The item that says nothing.
    pub open spec fn empty() -> PathItemView {
        PathItemView { operations: Seq::empty(), parameters: Seq::empty() }
    }
}

impl DeepView for PathItem {
    type V = PathItemView;

    open spec fn deep_view(&self) -> PathItemView {
        PathItemView { operations: self.operations@, parameters: self.parameters.deep_view() }
    }
}

impl View for PathItem {
    type V = PathItemView;

    open spec fn view(&self) -> PathItemView {
        self.deep_view()
    }
}

impl Clone for PathItem {
    fn clone(&self) -> (r: Self)
        ensures
            r@ == self@,
    {
        let parameters = self.parameters.clone();
        assert(parameters.deep_view() =~= self.parameters.deep_view());
        PathItem { operations: self.operations.clone(), parameters }
    }
}

impl Default for PathItem {
    fn default() -> (r: Self)
        ensures
            r@ == PathItemView::empty(),
    {
        let r = PathItem { operations: OperationMap::new(), parameters: Vec::new() };
        assert(r.parameters.deep_view() =~= Seq::<ParameterView>::empty());
        r
    }
}

/// The entries that a map of paths holds, in the map's own order, each key
/// as the characters of the path.
pub uninterp spec fn path_entries(map: IndexMap<String, PathItem>) -> Seq<(Seq<char>, PathItem)>;

/// `IndexMap::new`: a map that holds no entry.
#[verifier::external_body]
fn paths_new() -> (map: IndexMap<String, PathItem>)
    ensures
        path_entries(map) == Seq::<(Seq<char>, PathItem)>::empty(),
{
    IndexMap::new()
}

/// `IndexMap::len`: the number of entries.
#[verifier::external_body]
fn paths_len(map: &IndexMap<String, PathItem>) -> (n: usize)
    ensures
        n == path_entries(*map).len(),
{
    map.len()
}

/// `IndexMap::get_index`: the entry at a position of the map's order, and
/// `None` for a position behind the last entry.
#[verifier::external_body]
fn paths_get_index(map: &IndexMap<String, PathItem>, index: usize) -> (r: Option<
    (&String, &PathItem),
>)
    ensures
        match r {
            Some((key, value)) => index < path_entries(*map).len() && key@ == path_entries(
                *map,
            )[index as int].0 && *value == path_entries(*map)[index as int].1,
            None => index >= path_entries(*map).len(),
        },
{
    map.get_index(index)
}

/// `IndexMap::get_index_of`: the position of the entry whose key holds the
/// given characters, and `None` where no entry has them.
#[verifier::external_body]
fn paths_get_index_of(map: &IndexMap<String, PathItem>, key: &str) -> (r: Option<usize>)
    ensures
        match r {
            Some(i) => keys_of(path_entries(*map)).index_of_first(key@) == Some(i as int),
            None => keys_of(path_entries(*map)).index_of_first(key@) is None,
        },
{
    map.get_index_of(key)
}

/// `IndexMap::insert`: where the key is known its value is replaced and the
/// entry keeps its place; where it is new the entry goes to the end. The
/// value that was replaced is handed back.
#[verifier::external_body]
fn paths_insert(map: &mut IndexMap<String, PathItem>, key: String, value: PathItem) -> (previous:
    Option<PathItem>)
    ensures
        path_entries(*final(map)) == put(path_entries(*old(map)), key@, value),
        previous == lookup(path_entries(*old(map)), key@),
{
    map.insert(key, value)
}

/// The paths of a description. Each path stands once; a path that is
/// registered again keeps its place.
pub struct Paths {
    paths: IndexMap<String, PathItem>,
}

impl View for Paths {
    type V = Seq<(Seq<char>, PathItemView)>;

    closed spec fn view(&self) -> Seq<(Seq<char>, PathItemView)> {
        with_values(path_entries(self.paths), |item: PathItem| item@)
    }
}

impl DeepView for Paths {
    type V = Seq<(Seq<char>, PathItemView)>;

    open spec fn deep_view(&self) -> Seq<(Seq<char>, PathItemView)> {
        self@
    }
}

impl Paths {
    #[verifier::type_invariant]
    closed spec fn each_path_once(&self) -> bool {
        keys_of(path_entries(self.paths)).no_duplicates()
    }

    /// No path at all.
    pub fn new() -> (r: Self)
        ensures
            r@ == Seq::<(Seq<char>, PathItemView)>::empty(),
    {
        let paths = paths_new();
        assert(keys_of(path_entries(paths)) =~= Seq::<Seq<char>>::empty());
        let r = Paths { paths };
        assert(r@ =~= Seq::<(Seq<char>, PathItemView)>::empty());
        r
    }

    /// The number of paths. No path stands twice among them.
    pub fn len(&self) -> (n: usize)
        ensures
            n == self@.len(),
            keys_of(self@).no_duplicates(),
    {
        proof {
            use_type_invariant(self);
            lemma_with_values_keys(path_entries(self.paths), |item: PathItem| item@);
        }
        paths_len(&self.paths)
    }

    /// Whether there is no path.
    pub fn is_empty(&self) -> (r: bool)
        ensures
            r == (self@.len() == 0),
    {
        paths_len(&self.paths) == 0
    }

    /// The path at a position of the order, with its item.
    pub fn get_index(&self, index: usize) -> (r: Option<(&str, &PathItem)>)
        ensures
            match r {
                Some((path, item)) => index < self@.len() && self@[index as int] == (
                    path@,
                    item@,
                ),
                None => index >= self@.len(),
            },
    {
        match paths_get_index(&self.paths, index) {
            Some((path, item)) => Some((path.as_str(), item)),
            None => None,
        }
    }

    /// The item of the path `path`.
    pub fn get(&self, path: &str) -> (r: Option<&PathItem>)
        ensures
            match r {
                Some(item) => lookup(self@, path@) == Some(item@),
                None => lookup(self@, path@) is None,
            },
    {
        proof {
            lemma_with_values_keys(path_entries(self.paths), |item: PathItem| item@);
            keys_of(path_entries(self.paths)).index_of_first_ensures(path@);
        }
        match paths_get_index_of(&self.paths, path) {
            Some(i) => match paths_get_index(&self.paths, i) {
                Some((_, item)) => Some(item),
                None => None,
            },
            None => None,
        }
    }

    /// Puts `item` under `path`: in the place of the item that the path had,
    /// or at the end where the path is new.
    pub fn insert(&mut self, path: String, item: PathItem)
        ensures
            final(self)@ == put(old(self)@, path@, item@),
    {
        proof {
            use_type_invariant(&*self);
            lemma_put_keys(path_entries(self.paths), path@, item);
            lemma_put_with_values(path_entries(self.paths), path@, item, |item: PathItem| item@);
        }
        let mut paths = paths_new();
        assert(keys_of(path_entries(paths)) =~= Seq::<Seq<char>>::empty());
        core::mem::swap(&mut self.paths, &mut paths);
        let _ = paths_insert(&mut paths, path, item);
        self.paths = paths;
    }
}

/// `paths` after `operations` are registered at `path`: behind the operations
/// that the path had, replacing those of the same kind; under a new item at
/// the end where the path is new.
pub open spec fn merged_at(
    paths: Seq<(Seq<char>, PathItemView)>,
    path: Seq<char>,
    operations: Seq<(OperationType, OperationView)>,
) -> Seq<(Seq<char>, PathItemView)> {
    let item = match lookup(paths, path) {
        Some(known) => known,
        None => PathItemView::empty(),
    };
    put(
        paths,
        path,
        PathItemView {
            operations: put_all(item.operations, operations),
            parameters: item.parameters,
        },
    )
}

impl Paths {
    /// Registers `operations` at `path`. An operation of a kind that the path
    /// has already is replaced by the later one.
    pub fn merge_operations(&mut self, path: &str, operations: &OperationMap)
        ensures
            final(self)@ == merged_at(old(self)@, path@, operations@),
    {
        let mut item: PathItem = match self.get(path) {
            Some(known) => known.clone(),
            None => PathItem::default(),
        };
        item.operations.extend(operations);
        self.insert(String::from_str(path), item);
    }
}

impl Clone for Paths {
    fn clone(&self) -> (r: Self)
        ensures
            r@ == self@,
    {
        let mut r = Paths::new();
        let n = self.len();
        let mut i: usize = 0;
        assert(self@.take(0) =~= Seq::<(Seq<char>, PathItemView)>::empty());
        while i < n
            invariant
                i <= n,
                n == self@.len(),
                r@ == put_all(Seq::<(Seq<char>, PathItemView)>::empty(), self@.take(i as int)),
            decreases n - i,
        {
            match self.get_index(i) {
                Some((path, item)) => {
                    proof {
                        lemma_put_all_push(
                            Seq::<(Seq<char>, PathItemView)>::empty(),
                            self@.take(i as int),
                            self@[i as int],
                        );
                        assert(self@.take(i as int).push(self@[i as int]) =~= self@.take(i + 1));
                    }
                    r.insert(String::from_str(path), item.clone());
                },
                None => {},
            }
            i = i + 1;
        }
        proof {
            assert(self@.take(n as int) =~= self@);
            lemma_put_all_rebuilds(self@);
        }
        r
    }
}

impl Default for Paths {
    fn default() -> (r: Self)
        ensures
            r@ == Seq::<(Seq<char>, PathItemView)>::empty(),
    {
        Paths::new()
    }
}

} // verus!
