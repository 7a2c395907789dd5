//! The registry of named components that the whole description shares.
//!
//! A registry grows by registration only. A schema name that is new is added;
//! one that is known with the same definition changes nothing; one that is
//! known with another definition is a conflict and stops the build.

use vstd::prelude::*;
use vstd::string::*;
use crate::error::Error;
use crate::models::{NamedSchema, NamedSchemaView, Parameter, ParameterView, SecurityScheme, SecuritySchemeView};

verus! {

/// The named components of a description.
#[derive(Debug, PartialEq, Eq)]
pub struct Components {
    pub schemas: Vec<NamedSchema>,
    pub parameters: Vec<Parameter>,
    pub security_schemes: Vec<SecurityScheme>,
}

/// What a [`Components`] stands for.
pub struct ComponentsView {
    pub schemas: Seq<NamedSchemaView>,
    pub parameters: Seq<ParameterView>,
    pub security_schemes: Seq<SecuritySchemeView>,
}

impl DeepView for Components {
    type V = ComponentsView;

    open spec fn deep_view(&self) -> ComponentsView {
        ComponentsView {
            schemas: self.schemas.deep_view(),
            parameters: self.parameters.deep_view(),
            security_schemes: self.security_schemes.deep_view(),
        }
    }
}

impl View for Components {
    type V = ComponentsView;

    open spec fn view(&self) -> ComponentsView {
        self.deep_view()
    }
}

impl Clone for Components {
    fn clone(&self) -> (r: Self)
        ensures
            r.deep_view() == self.deep_view(),
    {
        let schemas = self.schemas.clone();
        let parameters = self.parameters.clone();
        let security_schemes = self.security_schemes.clone();
        assert(schemas.deep_view() =~= self.schemas.deep_view());
        assert(parameters.deep_view() =~= self.parameters.deep_view());
        assert(security_schemes.deep_view() =~= self.security_schemes.deep_view());
        Components { schemas, parameters, security_schemes }
    }
}

impl Default for Components {
    fn default() -> (r: Self)
        ensures
            r.deep_view() == ComponentsView::empty(),
    {
        let r = Components {
            schemas: Vec::new(),
            parameters: Vec::new(),
            security_schemes: Vec::new(),
        };
        assert(r.schemas.deep_view() =~= Seq::<NamedSchemaView>::empty());
        assert(r.parameters.deep_view() =~= Seq::<ParameterView>::empty());
        assert(r.security_schemes.deep_view() =~= Seq::<SecuritySchemeView>::empty());
        r
    }
}

/// Where the schema `name` stands in `registry`: the first place that holds
/// the name, if there is one.
pub open spec fn schema_position(registry: Seq<NamedSchemaView>, name: Seq<char>) -> Option<int>
    decreases registry.len(),
{
    if registry.len() == 0 {
        None
    } else {
        match schema_position(registry.drop_last(), name) {
            Some(i) => Some(i),
            None => if registry.last().name == name {
                Some(registry.len() - 1)
            } else {
                None
            },
        }
    }
}

/// The registry after `entry` is registered, or the name in conflict.
pub open spec fn registered(registry: Seq<NamedSchemaView>, entry: NamedSchemaView) -> Result<
    Seq<NamedSchemaView>,
    Seq<char>,
> {
    match schema_position(registry, entry.name) {
        None => Ok(registry.push(entry)),
        Some(i) => if registry[i].schema == entry.schema {
            Ok(registry)
        } else {
            Err(entry.name)
        },
    }
}

/// The registry after the schemas of `entries` are registered one after the
/// other, or the name of the first conflict.
pub open spec fn registered_all(
    registry: Seq<NamedSchemaView>,
    entries: Seq<NamedSchemaView>,
) -> Result<Seq<NamedSchemaView>, Seq<char>>
    decreases entries.len(),
{
    if entries.len() == 0 {
        Ok(registry)
    } else {
        match registered(registry, entries[0]) {
            Ok(next) => registered_all(next, entries.drop_first()),
            Err(name) => Err(name),
        }
    }
}

/// No name stands twice in `registry`.
pub open spec fn names_distinct(registry: Seq<NamedSchemaView>) -> bool {
    forall|i: int, j: int|
        0 <= i < j < registry.len() ==> (#[trigger] registry[i]).name != (
        #[trigger] registry[j]).name
}

/// Where a parameter called `name` stands in `known`, if it does.
pub open spec fn parameter_known(known: Seq<ParameterView>, name: Seq<char>) -> bool {
    exists|i: int| 0 <= i < known.len() && (#[trigger] known[i]).name == name
}

/// `known` and, behind it, the parameters of `more` whose names it lacks,
/// each once.
pub open spec fn parameters_added(known: Seq<ParameterView>, more: Seq<ParameterView>) -> Seq<
    ParameterView,
>
    decreases more.len(),
{
    if more.len() == 0 {
        known
    } else if parameter_known(known, more[0].name) {
        parameters_added(known, more.drop_first())
    } else {
        parameters_added(known.push(more[0]), more.drop_first())
    }
}

/// Where a security scheme called `name` stands in `known`, if it does.
pub open spec fn scheme_known(known: Seq<SecuritySchemeView>, name: Seq<char>) -> bool {
    exists|i: int| 0 <= i < known.len() && (#[trigger] known[i]).name == name
}

/// `known` and, behind it, the security schemes of `more` whose names it
/// lacks, each once.
pub open spec fn schemes_added(
    known: Seq<SecuritySchemeView>,
    more: Seq<SecuritySchemeView>,
) -> Seq<SecuritySchemeView>
    decreases more.len(),
{
    if more.len() == 0 {
        known
    } else if scheme_known(known, more[0].name) {
        schemes_added(known, more.drop_first())
    } else {
        schemes_added(known.push(more[0]), more.drop_first())
    }
}

impl ComponentsView {
    /// The registry that holds nothing.
    pub open spec fn empty() -> ComponentsView {
        ComponentsView {
            schemas: Seq::empty(),
            parameters: Seq::empty(),
            security_schemes: Seq::empty(),
        }
    }

    /// This registry after all of `other` is registered in it, or the name of
    /// the first schema in conflict.
    pub open spec fn merged(self, other: ComponentsView) -> Result<ComponentsView, Seq<char>> {
        match registered_all(self.schemas, other.schemas) {
            Ok(schemas) => Ok(
                ComponentsView {
                    schemas,
                    parameters: parameters_added(self.parameters, other.parameters),
                    security_schemes: schemes_added(self.security_schemes, other.security_schemes),
                },
            ),
            Err(name) => Err(name),
        }
    }

    /// This registry after each of `others` is merged into it in turn, or the
    /// name of the first schema in conflict.
    pub open spec fn merged_all(self, others: Seq<ComponentsView>) -> Result<
        ComponentsView,
        Seq<char>,
    >
        decreases others.len(),
    {
        if others.len() == 0 {
            Ok(self)
        } else {
            match self.merged(others[0]) {
                Ok(next) => next.merged_all(others.drop_first()),
                Err(name) => Err(name),
            }
        }
    }
}

/// Finds the first schema of `registry` that is called `name`.
pub fn find_schema(registry: &Vec<NamedSchema>, name: &str) -> (r: Option<usize>)
    ensures
        match r {
            Some(i) => schema_position(registry.deep_view(), name@) == Some(i as int) && i
                < registry.len(),
            None => schema_position(registry.deep_view(), name@) is None,
        },
{
    let ghost all = registry.deep_view();
    let mut i: usize = 0;
    assert(all.take(0) =~= Seq::<NamedSchemaView>::empty());
    while i < registry.len()
        invariant
            i <= registry.len(),
            all == registry.deep_view(),
            schema_position(all.take(i as int), name@) is None,
        decreases registry.len() - i,
    {
        assert(all.take(i + 1).drop_last() =~= all.take(i as int));
        assert(all.take(i + 1).last() == registry[i as int].deep_view());
        if crate::text::same_text(registry[i].name.as_str(), name) {
            proof {
                lemma_position_stays(all, i + 1, name@);
            }
            return Some(i);
        }
        i = i + 1;
    }
    assert(all.take(i as int) =~= all);
    None
}

/// A position found in a front part of a registry is the position in the
/// whole registry.
proof fn lemma_position_stays(registry: Seq<NamedSchemaView>, n: int, name: Seq<char>)
    requires
        0 <= n <= registry.len(),
        schema_position(registry.take(n), name) is Some,
    ensures
        schema_position(registry, name) == schema_position(registry.take(n), name),
    decreases registry.len() - n,
{
    if n < registry.len() {
        assert(registry.take(n + 1).drop_last() =~= registry.take(n));
        lemma_position_stays(registry, n + 1, name);
    } else {
        assert(registry.take(n) =~= registry);
    }
}

/// What a position says: the name stands there and nowhere before.
pub proof fn lemma_position_is_first(registry: Seq<NamedSchemaView>, name: Seq<char>)
    ensures
        match schema_position(registry, name) {
            Some(i) => 0 <= i < registry.len() && registry[i].name == name && forall|j: int|
                0 <= j < i ==> (#[trigger] registry[j]).name != name,
            None => forall|j: int| 0 <= j < registry.len() ==> (#[trigger] registry[j]).name != name,
        },
    decreases registry.len(),
{
    if registry.len() > 0 {
        lemma_position_is_first(registry.drop_last(), name);
        assert forall|j: int| 0 <= j < registry.len() - 1 implies registry.drop_last()[j]
            == registry[j] by {}
        match schema_position(registry.drop_last(), name) {
            Some(i) => {
                assert forall|j: int| 0 <= j < i implies (#[trigger] registry[j]).name != name by {
                    assert(registry.drop_last()[j].name != name);
                }
            },
            None => {
                assert forall|j: int| 0 <= j < registry.len() - 1 implies (
                #[trigger] registry[j]).name != name by {
                    assert(registry.drop_last()[j].name != name);
                }
            },
        }
    }
}

impl Components {
    /// Registers one schema: a new name is added at the end, a known name with
    /// the same definition changes nothing, and a known name with another
    /// definition is a conflict, which leaves the registry as it was.
    pub fn register_schema(&mut self, entry: NamedSchema) -> (r: Result<(), Error>)
        ensures
            final(self).parameters == old(self).parameters,
            final(self).security_schemes == old(self).security_schemes,
            match r {
                Ok(()) => registered(old(self).schemas.deep_view(), entry.deep_view()) == Ok::<
                    Seq<NamedSchemaView>,
                    Seq<char>,
                >(final(self).schemas.deep_view()),
                Err(e) => {
                    &&& final(self).schemas == old(self).schemas
                    &&& e matches Error::SchemaDefinitionConflict { name }
                    &&& registered(old(self).schemas.deep_view(), entry.deep_view()) == Err::<
                        Seq<NamedSchemaView>,
                        Seq<char>,
                    >(name@)
                },
            },
    {
        match find_schema(&self.schemas, entry.name.as_str()) {
            None => {
                let ghost before = self.schemas.deep_view();
                self.schemas.push(entry);
                assert(self.schemas.deep_view() =~= before.push(entry.deep_view()));
                Ok(())
            },
            Some(i) => {
                if self.schemas[i].schema.same(&entry.schema) {
                    Ok(())
                } else {
                    Err(Error::SchemaDefinitionConflict { name: entry.name })
                }
            },
        }
    }

    /// Adds a parameter unless one of its name is known.
    pub fn register_parameter(&mut self, parameter: Parameter)
        ensures
            final(self).schemas == old(self).schemas,
            final(self).security_schemes == old(self).security_schemes,
            final(self).parameters.deep_view() == if parameter_known(
                old(self).parameters.deep_view(),
                parameter.name@,
            ) {
                old(self).parameters.deep_view()
            } else {
                old(self).parameters.deep_view().push(parameter.deep_view())
            },
    {
        let ghost known = self.parameters.deep_view();
        let mut i: usize = 0;
        while i < self.parameters.len()
            invariant
                i <= self.parameters.len(),
                *self == *old(self),
                known == self.parameters.deep_view(),
                forall|j: int| 0 <= j < i ==> (#[trigger] known[j]).name != parameter.name@,
            decreases self.parameters.len() - i,
        {
            if crate::text::same_text(self.parameters[i].name.as_str(), parameter.name.as_str()) {
                assert(known[i as int].name == parameter.name@);
                return ;
            }
            i = i + 1;
        }
        self.parameters.push(parameter);
        assert(self.parameters.deep_view() =~= known.push(parameter.deep_view()));
    }

    /// Adds a security scheme unless one of its name is known.
    pub fn register_security_scheme(&mut self, scheme: SecurityScheme)
        ensures
            final(self).schemas == old(self).schemas,
            final(self).parameters == old(self).parameters,
            final(self).security_schemes.deep_view() == if scheme_known(
                old(self).security_schemes.deep_view(),
                scheme.name@,
            ) {
                old(self).security_schemes.deep_view()
            } else {
                old(self).security_schemes.deep_view().push(scheme.deep_view())
            },
    {
        let ghost known = self.security_schemes.deep_view();
        let mut i: usize = 0;
        while i < self.security_schemes.len()
            invariant
                i <= self.security_schemes.len(),
                *self == *old(self),
                known == self.security_schemes.deep_view(),
                forall|j: int| 0 <= j < i ==> (#[trigger] known[j]).name != scheme.name@,
            decreases self.security_schemes.len() - i,
        {
            if crate::text::same_text(self.security_schemes[i].name.as_str(), scheme.name.as_str()) {
                assert(known[i as int].name == scheme.name@);
                return ;
            }
            i = i + 1;
        }
        self.security_schemes.push(scheme);
        assert(self.security_schemes.deep_view() =~= known.push(scheme.deep_view()));
    }

    /// Registers all of `other` in this registry, in the order in which
    /// `other` holds it. On a schema conflict nothing is registered.
    pub fn merge(&mut self, other: Components) -> (r: Result<(), Error>)
        ensures
            match r {
                Ok(()) => old(self).deep_view().merged(other.deep_view()) == Ok::<
                    ComponentsView,
                    Seq<char>,
                >(final(self).deep_view()),
                Err(e) => {
                    &&& final(self).deep_view() == old(self).deep_view()
                    &&& e matches Error::SchemaDefinitionConflict { name }
                    &&& old(self).deep_view().merged(other.deep_view()) == Err::<
                        ComponentsView,
                        Seq<char>,
                    >(name@)
                },
            },
    {
        let ghost start = self.deep_view();
        let ghost theirs = other.deep_view();
        let mut next: Components = self.clone();
        let Components { schemas, parameters, security_schemes } = other;
        let ghost schemas_seq = schemas@;
        assert(theirs.schemas.skip(0) =~= theirs.schemas);
        for entry in it: schemas
            invariant
                it.seq() == schemas_seq,
                schemas_seq.len() == theirs.schemas.len(),
                forall|k: int| 0 <= k < schemas_seq.len() ==> (#[trigger] schemas_seq[k]).deep_view() == theirs.schemas[k],
                next.parameters.deep_view() == start.parameters,
                next.security_schemes.deep_view() == start.security_schemes,
                registered_all(start.schemas, theirs.schemas) == registered_all(
                    next.schemas.deep_view(),
                    theirs.schemas.skip(it.index() as int),
                ),
                self.deep_view() == start,
                start == old(self).deep_view(),
                theirs == other.deep_view(),
        {
            let ghost rest = theirs.schemas.skip(it.index() as int);
            assert(rest[0] == entry.deep_view());
            assert(rest.drop_first() =~= theirs.schemas.skip(it.index() + 1));
            let ghost before = next.schemas.deep_view();
            assert(rest.len() > 0);
            match next.register_schema(entry) {
                Ok(()) => {},
                Err(e) => {
                    assert(registered_all(before, rest) is Err);
                    return Err(e);
                },
            }
        }
        let ghost parameters_seq = parameters@;
        assert(theirs.parameters.skip(0) =~= theirs.parameters);
        for parameter in it: parameters
            invariant
                it.seq() == parameters_seq,
                parameters_seq.len() == theirs.parameters.len(),
                forall|k: int| 0 <= k < parameters_seq.len() ==> (#[trigger] parameters_seq[k]).deep_view() == theirs.parameters[k],
                registered_all(start.schemas, theirs.schemas) == Ok::<
                    Seq<NamedSchemaView>,
                    Seq<char>,
                >(next.schemas.deep_view()),
                next.security_schemes.deep_view() == start.security_schemes,
                parameters_added(start.parameters, theirs.parameters) == parameters_added(
                    next.parameters.deep_view(),
                    theirs.parameters.skip(it.index() as int),
                ),
        {
            let ghost known = next.parameters.deep_view();
            let ghost rest = theirs.parameters.skip(it.index() as int);
            assert(rest[0] == parameter.deep_view());
            assert(rest.drop_first() =~= theirs.parameters.skip(it.index() + 1));
            next.register_parameter(parameter);
        }
        let ghost security_schemes_seq = security_schemes@;
        assert(theirs.security_schemes.skip(0) =~= theirs.security_schemes);
        for scheme in it: security_schemes
            invariant
                it.seq() == security_schemes_seq,
                security_schemes_seq.len() == theirs.security_schemes.len(),
                forall|k: int| 0 <= k < security_schemes_seq.len() ==> (#[trigger] security_schemes_seq[k]).deep_view() == theirs.security_schemes[k],
                registered_all(start.schemas, theirs.schemas) == Ok::<
                    Seq<NamedSchemaView>,
                    Seq<char>,
                >(next.schemas.deep_view()),
                next.parameters.deep_view() == parameters_added(
                    start.parameters,
                    theirs.parameters,
                ),
                schemes_added(start.security_schemes, theirs.security_schemes) == schemes_added(
                    next.security_schemes.deep_view(),
                    theirs.security_schemes.skip(it.index() as int),
                ),
        {
            let ghost known = next.security_schemes.deep_view();
            let ghost rest = theirs.security_schemes.skip(it.index() as int);
            assert(rest[0] == scheme.deep_view());
            assert(rest.drop_first() =~= theirs.security_schemes.skip(it.index() + 1));
            next.register_security_scheme(scheme);
        }
        *self = next;
        Ok(())
    }
}

/// Registering a schema a second time, under the same name and with the same
/// definition, changes nothing: the registry holds it once.
pub proof fn law_register_twice_is_once(registry: Seq<NamedSchemaView>, entry: NamedSchemaView)
    requires
        registered(registry, entry) is Ok,
    ensures
        registered(registered(registry, entry)->Ok_0, entry) == registered(registry, entry),
{
    let once = registered(registry, entry)->Ok_0;
    lemma_position_is_first(registry, entry.name);
    lemma_position_is_first(once, entry.name);
    if schema_position(registry, entry.name) is None {
        assert(once.last() == entry);
        assert(schema_position(once, entry.name) is Some);
        let i = schema_position(once, entry.name)->Some_0;
        if i < registry.len() {
            assert(once[i] == registry[i]);
        }
        assert(i == registry.len());
    }
}

/// Registering a known name with another definition is a conflict that names
/// the schema.
pub proof fn law_register_conflict(registry: Seq<NamedSchemaView>, entry: NamedSchemaView, i: int)
    requires
        names_distinct(registry),
        0 <= i < registry.len(),
        registry[i].name == entry.name,
        registry[i].schema != entry.schema,
    ensures
        registered(registry, entry) == Err::<Seq<NamedSchemaView>, Seq<char>>(entry.name),
{
    lemma_position_is_first(registry, entry.name);
    let p = schema_position(registry, entry.name);
    assert(p is Some);
    let k = p->Some_0;
    if k != i {
        if k < i {
            assert(registry[k].name != registry[i].name);
        } else {
            assert(registry[i].name != registry[k].name);
        }
    }
}

/// A registry in which no name stands twice stays so under registration.
pub proof fn law_register_keeps_names_distinct(
    registry: Seq<NamedSchemaView>,
    entry: NamedSchemaView,
)
    requires
        names_distinct(registry),
        registered(registry, entry) is Ok,
    ensures
        names_distinct(registered(registry, entry)->Ok_0),
{
    lemma_position_is_first(registry, entry.name);
    let next = registered(registry, entry)->Ok_0;
    if schema_position(registry, entry.name) is None {
        assert forall|i: int, j: int| 0 <= i < j < next.len() implies (#[trigger] next[i]).name != (
        #[trigger] next[j]).name by {
            if j < registry.len() {
                assert(next[i] == registry[i] && next[j] == registry[j]);
            } else {
                assert(next[i] == registry[i]);
                assert(next[j] == entry);
            }
        }
    }
}

/// The same schema, registered by two contributions one after the other in a
/// registry that did not know its name, stands in the registry exactly once.
pub proof fn law_same_schema_from_two_contributions(
    registry: Seq<NamedSchemaView>,
    entry: NamedSchemaView,
)
    requires
        schema_position(registry, entry.name) is None,
    ensures
        registered_all(registry, seq![entry, entry]) == Ok::<Seq<NamedSchemaView>, Seq<char>>(
            registry.push(entry),
        ),
{
    let both = seq![entry, entry];
    let one = both.drop_first();
    assert(one =~= seq![entry]);
    assert(one.drop_first() =~= Seq::<NamedSchemaView>::empty());
    assert(both[0] == entry && one[0] == entry);
    law_register_twice_is_once(registry, entry);
    assert(registered(registry, entry) == Ok::<Seq<NamedSchemaView>, Seq<char>>(
        registry.push(entry),
    ));
    assert(registered_all(registry.push(entry), one) == registered_all(
        registry.push(entry),
        one.drop_first(),
    ));
}

} // verus!
