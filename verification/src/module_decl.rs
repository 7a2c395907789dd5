//! Modules as they are declared: by name, with the names of what they import
//! and own.

use vstd::prelude::*;
use vstd::string::*;
use crate::config::Config;
use crate::error::Error;
use crate::syntax::{Attribute, DeriveInput, ListItem, Meta, MetaList};
use crate::text::same_text;
use crate::type_syntax::{is_type, parses_as_type};

verus! {

/// A module as it is declared.
#[derive(Debug, PartialEq, Eq)]
pub struct ModuleDecl {
    pub ident: String,
    /// The modules that this module imports, by name, in declared order.
    pub imports: Vec<String>,
    /// The controllers that this module owns, by the name of their type, in
    /// declared order.
    pub controllers: Vec<String>,
    pub middlewares: Vec<String>,
    /// The state type that the module binds, in source form.
    pub state: Option<String>,
    /// The context type that the module binds, in source form.
    pub context: Option<String>,
}

/// What a module declaration has gathered from the arguments read so far.
pub struct Gathered {
    pub imports: Seq<String>,
    pub controllers: Seq<String>,
    pub middlewares: Seq<String>,
    pub state: Option<String>,
    pub context: Option<String>,
}

impl Gathered {
    /// Nothing gathered yet.
    pub open spec fn none() -> Gathered {
        Gathered {
            imports: Seq::empty(),
            controllers: Seq::empty(),
            middlewares: Seq::empty(),
            state: None,
            context: None,
        }
    }

    /// What is gathered after one more argument, or what is wrong with the
    /// argument: `imports`, `controllers` and `middlewares` take a list and
    /// add to what is there; `state` and `context` take one type and replace
    /// what is there; there is no other key.
    pub open spec fn with(self, item: ListItem) -> Result<Gathered, Error> {
        match item {
            ListItem::List(list) => if list.name@ == "imports"@ {
                Ok(Gathered { imports: self.imports + list.items@, ..self })
            } else if list.name@ == "controllers"@ {
                Ok(Gathered { controllers: self.controllers + list.items@, ..self })
            } else if list.name@ == "middlewares"@ {
                Ok(Gathered { middlewares: self.middlewares + list.items@, ..self })
            } else if list.name@ == "state"@ {
                if list.items@.len() == 1 && parses_as_type(list.items@[0]@) {
                    Ok(Gathered { state: Some(list.items@[0]), ..self })
                } else {
                    Err(Error::InvalidType)
                }
            } else if list.name@ == "context"@ {
                if list.items@.len() == 1 && parses_as_type(list.items@[0]@) {
                    Ok(Gathered { context: Some(list.items@[0]), ..self })
                } else {
                    Err(Error::InvalidType)
                }
            } else {
                Err(Error::UnknownAttributeKey)
            },
            _ => Err(Error::MalformedOption),
        }
    }

    /// What is gathered after the arguments `items`, read in order, or the
    /// fault of the first argument that has one.
    pub open spec fn with_all(self, items: Seq<ListItem>) -> Result<Gathered, Error>
        decreases items.len(),
    {
        if items.len() == 0 {
            Ok(self)
        } else {
            match self.with(items[0]) {
                Ok(next) => next.with_all(items.drop_first()),
                Err(e) => Err(e),
            }
        }
    }

    /// What is gathered after the attribute `attribute`: an attribute that is
    /// not called `module` adds nothing, one without arguments adds nothing,
    /// and one written as `module = value` is at fault.
    pub open spec fn with_attribute(self, attribute: Attribute) -> Result<Gathered, Error> {
        if attribute.name@ == "module"@ {
            match attribute.meta {
                Meta::Path => Ok(self),
                Meta::List(items) => self.with_all(items@),
                Meta::NameValue(_) => Err(Error::UnsupportedMeta),
            }
        } else {
            Ok(self)
        }
    }

    /// What is gathered after the attributes `attrs`, read in order, or the
    /// fault of the first attribute that has one.
    pub open spec fn with_attributes(self, attrs: Seq<Attribute>) -> Result<Gathered, Error>
        decreases attrs.len(),
    {
        if attrs.len() == 0 {
            Ok(self)
        } else {
            match self.with_attribute(attrs[0]) {
                Ok(next) => next.with_attributes(attrs.drop_first()),
                Err(e) => Err(e),
            }
        }
    }
}

/// A binding that a declaration names, or else the default of the settings,
/// which has to be a type.
pub open spec fn bound(named: Option<String>, default: Option<String>) -> Result<
    Option<Seq<char>>,
    Error,
> {
    match named {
        Some(text) => Ok(Some(text@)),
        None => match default {
            Some(text) => if parses_as_type(text@) {
                Ok(Some(text@))
            } else {
                Err(Error::InvalidType)
            },
            None => Ok(None),
        },
    }
}

/// Chooses the binding that a declaration names, or else the default.
fn bind(named: Option<String>, default: &Option<String>) -> (r: Result<Option<String>, Error>)
    ensures
        match r {
            Ok(binding) => bound(named, *default) == Ok::<Option<Seq<char>>, Error>(
                binding.deep_view(),
            ),
            Err(e) => bound(named, *default) == Err::<Option<Seq<char>>, Error>(e),
        },
{
    match named {
        Some(text) => Ok(Some(text)),
        None => match default {
            Some(text) => {
                if is_type(text.as_str()) {
                    Ok(Some(text.clone()))
                } else {
                    Err(Error::InvalidType)
                }
            },
            None => Ok(None),
        },
    }
}

impl ModuleDecl {
    /// What `self` has gathered.
    pub open spec fn gathered(&self) -> Gathered {
        Gathered {
            imports: self.imports@,
            controllers: self.controllers@,
            middlewares: self.middlewares@,
            state: self.state,
            context: self.context,
        }
    }

    /// Adds what one argument of a module attribute says.
    fn gather(&mut self, item: &ListItem) -> (r: Result<(), Error>)
        ensures
            final(self).ident == old(self).ident,
            match r {
                Ok(()) => old(self).gathered().with(*item) == Ok::<Gathered, Error>(
                    final(self).gathered(),
                ),
                Err(e) => old(self).gathered().with(*item) == Err::<Gathered, Error>(e),
            },
    {
        let list: &MetaList = match item {
            ListItem::List(list) => list,
            _ => {
                return Err(Error::MalformedOption);
            },
        };
        proof {
            reveal_strlit("imports");
            reveal_strlit("controllers");
            reveal_strlit("middlewares");
            reveal_strlit("state");
            reveal_strlit("context");
            assert("imports"@.len() == 7 && "context"@.len() == 7 && "imports"@[0] != "context"@[0]);
            assert("controllers"@.len() == 11 && "middlewares"@.len() == 11 && "controllers"@[0]
                != "middlewares"@[0]);
            assert("state"@.len() == 5);
        }
        let mut items = list.items.clone();
        assert(items@ =~= list.items@) by {
            assert forall|i: int| 0 <= i < items@.len() implies items@[i] == list.items@[i] by {
                assert(cloned(list.items@[i], items@[i]));
            }
        }
        if same_text(list.name.as_str(), "imports") {
            self.imports.append(&mut items);
            Ok(())
        } else if same_text(list.name.as_str(), "controllers") {
            self.controllers.append(&mut items);
            Ok(())
        } else if same_text(list.name.as_str(), "middlewares") {
            self.middlewares.append(&mut items);
            Ok(())
        } else if same_text(list.name.as_str(), "state") {
            if items.len() == 1 && is_type(items[0].as_str()) {
                self.state = items.pop();
                Ok(())
            } else {
                Err(Error::InvalidType)
            }
        } else if same_text(list.name.as_str(), "context") {
            if items.len() == 1 && is_type(items[0].as_str()) {
                self.context = items.pop();
                Ok(())
            } else {
                Err(Error::InvalidType)
            }
        } else {
            Err(Error::UnknownAttributeKey)
        }
    }

    /// What `self` is once the bindings that it does not name are taken from
    /// `config`.
    pub open spec fn reads(&self, item: DeriveInput, config: Config) -> bool {
        match Gathered::none().with_attributes(item.attrs@) {
            Ok(found) => {
                &&& self.ident == item.ident
                &&& self.imports@ == found.imports
                &&& self.controllers@ == found.controllers
                &&& self.middlewares@ == found.middlewares
                &&& bound(found.state, config.state) == Ok::<Option<Seq<char>>, Error>(
                    self.state.deep_view(),
                )
                &&& bound(found.context, config.module_context) == Ok::<Option<Seq<char>>, Error>(
                    self.context.deep_view(),
                )
            },
            Err(_) => false,
        }
    }

    /// What is wrong with the declaration of a module, if anything is: the
    /// fault of the first attribute that has one; else a default binding
    /// that is needed and is no type, that of the state first.
    pub open spec fn fault(item: DeriveInput, config: Config) -> Option<Error> {
        match Gathered::none().with_attributes(item.attrs@) {
            Err(e) => Some(e),
            Ok(found) => match bound(found.state, config.state) {
                Err(e) => Some(e),
                Ok(_) => match bound(found.context, config.module_context) {
                    Err(e) => Some(e),
                    Ok(_) => None,
                },
            },
        }
    }
}

/// Reads the declaration of a module from the attributes called `module`
/// on its type.
#[verifier::loop_isolation(false)]
pub fn expand(item: DeriveInput, config: &Config) -> (r: Result<ModuleDecl, Error>)
    ensures
        match r {
            Ok(module) => ModuleDecl::fault(item, *config) is None && module.reads(
                item,
                *config,
            ),
            Err(e) => ModuleDecl::fault(item, *config) == Some(e),
        },
{
    let mut module = ModuleDecl {
        ident: item.ident,
        imports: Vec::new(),
        controllers: Vec::new(),
        middlewares: Vec::new(),
        state: None,
        context: None,
    };
    let ghost whole = Gathered::none().with_attributes(item.attrs@);
    let mut a: usize = 0;
    assert(item.attrs@.skip(0) =~= item.attrs@);
    assert(module.gathered() == Gathered::none());
    while a < item.attrs.len()
        invariant
            a <= item.attrs.len(),
            module.ident == item.ident,
            whole == module.gathered().with_attributes(item.attrs@.skip(a as int)),
        decreases item.attrs.len() - a,
    {
        let attribute = &item.attrs[a];
        let ghost rest = item.attrs@.skip(a as int);
        assert(rest[0] == *attribute);
        assert(rest.drop_first() =~= item.attrs@.skip(a + 1));
        if same_text(attribute.name.as_str(), "module") {
            match &attribute.meta {
                Meta::Path => {},
                Meta::NameValue(_) => {
                    return Err(Error::UnsupportedMeta);
                },
                Meta::List(items) => {
                    let ghost before = module.gathered();
                    let mut i: usize = 0;
                    assert(items@.skip(0) =~= items@);
                    while i < items.len()
                        invariant
                            i <= items.len(),
                            module.ident == item.ident,
                            before.with_all(items@) == module.gathered().with_all(
                                items@.skip(i as int),
                            ),
                        decreases items.len() - i,
                    {
                        let ghost left = items@.skip(i as int);
                        assert(left[0] == items@[i as int]);
                        assert(left.drop_first() =~= items@.skip(i + 1));
                        match module.gather(&items[i]) {
                            Ok(()) => {},
                            Err(e) => {
                                return Err(e);
                            },
                        }
                        i = i + 1;
                    }
                },
            }
        }
        a = a + 1;
    }
    let ghost found = module.gathered();
    let state = match bind(module.state, &config.state) {
        Ok(binding) => binding,
        Err(e) => {
            return Err(e);
        },
    };
    let context = match bind(module.context, &config.module_context) {
        Ok(binding) => binding,
        Err(e) => {
            return Err(e);
        },
    };
    Ok(
        ModuleDecl {
            ident: module.ident,
            imports: module.imports,
            controllers: module.controllers,
            middlewares: module.middlewares,
            state,
            context,
        },
    )
}

} // verus!
