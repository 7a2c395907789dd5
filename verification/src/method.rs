//! HTTP methods: as a handler declares them, as the API description names
//! them, and as sets that one handler answers.

use vstd::prelude::*;
use vstd::string::*;
use crate::text::same_text;

verus! {

/// The HTTP method that a handler declares.
#[derive(Clone, Copy, PartialEq, Eq, Hash, Debug, Structural)]
pub enum MethodType {
    Get,
    Post,
    Put,
    Delete,
    Head,
    Connect,
    Options,
    Trace,
    Patch,
}

impl MethodType {
    /// The method's name in lower case, which is also the name of the
    /// attribute that declares it.
    pub open spec fn lower(self) -> Seq<char> {
        match self {
            MethodType::Get => "get"@,
            MethodType::Post => "post"@,
            MethodType::Put => "put"@,
            MethodType::Delete => "delete"@,
            MethodType::Head => "head"@,
            MethodType::Connect => "connect"@,
            MethodType::Options => "options"@,
            MethodType::Trace => "trace"@,
            MethodType::Patch => "patch"@,
        }
    }

    /// The method that the attribute name `name` declares, if it declares one.
    pub open spec fn named(name: Seq<char>) -> Option<MethodType> {
        if name == "get"@ {
            Some(MethodType::Get)
        } else if name == "post"@ {
            Some(MethodType::Post)
        } else if name == "put"@ {
            Some(MethodType::Put)
        } else if name == "delete"@ {
            Some(MethodType::Delete)
        } else if name == "head"@ {
            Some(MethodType::Head)
        } else if name == "connect"@ {
            Some(MethodType::Connect)
        } else if name == "options"@ {
            Some(MethodType::Options)
        } else if name == "trace"@ {
            Some(MethodType::Trace)
        } else if name == "patch"@ {
            Some(MethodType::Patch)
        } else {
            None
        }
    }

    /// The method's name in lower case.
    pub fn as_lower_str(&self) -> (r: &'static str)
        ensures
            r@ == self.lower(),
    {
        match self {
            MethodType::Get => "get",
            MethodType::Post => "post",
            MethodType::Put => "put",
            MethodType::Delete => "delete",
            MethodType::Head => "head",
            MethodType::Connect => "connect",
            MethodType::Options => "options",
            MethodType::Trace => "trace",
            MethodType::Patch => "patch",
        }
    }

    /// Reads an attribute name as a method: `Ok` exactly for the nine
    /// lower-case method names.
    pub fn from_path(path: &str) -> (r: Result<MethodType, ()>)
        ensures
            r == match MethodType::named(path@) {
                Some(m) => Ok::<MethodType, ()>(m),
                None => Err::<MethodType, ()>(()),
            },
    {
        if same_text(path, "get") {
            Ok(MethodType::Get)
        } else if same_text(path, "post") {
            Ok(MethodType::Post)
        } else if same_text(path, "put") {
            Ok(MethodType::Put)
        } else if same_text(path, "delete") {
            Ok(MethodType::Delete)
        } else if same_text(path, "head") {
            Ok(MethodType::Head)
        } else if same_text(path, "connect") {
            Ok(MethodType::Connect)
        } else if same_text(path, "options") {
            Ok(MethodType::Options)
        } else if same_text(path, "trace") {
            Ok(MethodType::Trace)
        } else if same_text(path, "patch") {
            Ok(MethodType::Patch)
        } else {
            Err(())
        }
    }

    /// The set that holds this method alone.
    pub open spec fn spec_filter(self) -> MethodFilter {
        match self {
            MethodType::Connect => MethodFilter { bits: 1 },
            MethodType::Delete => MethodFilter { bits: 2 },
            MethodType::Get => MethodFilter { bits: 4 },
            MethodType::Head => MethodFilter { bits: 8 },
            MethodType::Options => MethodFilter { bits: 16 },
            MethodType::Patch => MethodFilter { bits: 32 },
            MethodType::Post => MethodFilter { bits: 64 },
            MethodType::Put => MethodFilter { bits: 128 },
            MethodType::Trace => MethodFilter { bits: 256 },
        }
    }

    /// The set that holds this method alone.
    pub fn filter(&self) -> (r: MethodFilter)
        ensures
            r == self.spec_filter(),
    {
        match self {
            MethodType::Connect => MethodFilter { bits: 1 },
            MethodType::Delete => MethodFilter { bits: 2 },
            MethodType::Get => MethodFilter { bits: 4 },
            MethodType::Head => MethodFilter { bits: 8 },
            MethodType::Options => MethodFilter { bits: 16 },
            MethodType::Patch => MethodFilter { bits: 32 },
            MethodType::Post => MethodFilter { bits: 64 },
            MethodType::Put => MethodFilter { bits: 128 },
            MethodType::Trace => MethodFilter { bits: 256 },
        }
    }
}

/// Reading a method's own lower-case name gives the method back.
pub proof fn law_method_name_round_trip(m: MethodType)
    ensures
        MethodType::named(m.lower()) == Some(m),
{
    reveal_strlit("get");
    reveal_strlit("post");
    reveal_strlit("put");
    reveal_strlit("delete");
    reveal_strlit("head");
    reveal_strlit("connect");
    reveal_strlit("options");
    reveal_strlit("trace");
    reveal_strlit("patch");
    assert("get"@.len() == 3 && "put"@.len() == 3 && "get"@[0] != "put"@[0]);
    assert("post"@.len() == 4 && "head"@.len() == 4 && "post"@[0] != "head"@[0]);
    assert("trace"@.len() == 5 && "patch"@.len() == 5 && "trace"@[0] != "patch"@[0]);
    assert("connect"@.len() == 7 && "options"@.len() == 7 && "connect"@[0] != "options"@[0]);
    assert("delete"@.len() == 6);
}

/// The kind of an operation in the API description.
#[derive(Clone, Copy, PartialEq, Eq, Hash, Debug, Structural)]
pub enum OperationType {
    Get,
    Put,
    Post,
    Delete,
    Options,
    Head,
    Patch,
    Trace,
}

impl OperationType {
    /// The kind's name in lower case, as it stands in the description and at
    /// the front of a generated operation identifier.
    pub open spec fn lower(self) -> Seq<char> {
        match self {
            OperationType::Get => "get"@,
            OperationType::Put => "put"@,
            OperationType::Post => "post"@,
            OperationType::Delete => "delete"@,
            OperationType::Options => "options"@,
            OperationType::Head => "head"@,
            OperationType::Patch => "patch"@,
            OperationType::Trace => "trace"@,
        }
    }

    /// The kind's name in lower case.
    pub fn as_lower_str(&self) -> (r: &'static str)
        ensures
            r@ == self.lower(),
    {
        match self {
            OperationType::Get => "get",
            OperationType::Put => "put",
            OperationType::Post => "post",
            OperationType::Delete => "delete",
            OperationType::Options => "options",
            OperationType::Head => "head",
            OperationType::Patch => "patch",
            OperationType::Trace => "trace",
        }
    }

    /// The method that an operation of this kind answers.
    pub open spec fn method(self) -> MethodType {
        match self {
            OperationType::Get => MethodType::Get,
            OperationType::Put => MethodType::Put,
            OperationType::Post => MethodType::Post,
            OperationType::Delete => MethodType::Delete,
            OperationType::Options => MethodType::Options,
            OperationType::Head => MethodType::Head,
            OperationType::Patch => MethodType::Patch,
            OperationType::Trace => MethodType::Trace,
        }
    }
}

/// A set of HTTP methods, one bit for each.
#[derive(Clone, Copy, PartialEq, Eq, Debug, Structural)]
pub struct MethodFilter {
    pub bits: u16,
}

impl MethodFilter {
    /// Whether every method of `other` is in this set.
    pub open spec fn spec_contains(&self, other: MethodFilter) -> bool {
        self.bits & other.bits == other.bits
    }

    /// Whether the method `m` is in this set.
    pub open spec fn allows(&self, m: MethodType) -> bool {
        self.spec_contains(m.spec_filter())
    }

    /// Whether every method of `other` is in this set.
    #[verifier::when_used_as_spec(spec_contains)]
    pub fn contains(&self, other: MethodFilter) -> (r: bool)
        ensures
            r == self.spec_contains(other),
    {
        self.bits & other.bits == other.bits
    }

    /// The set of the methods that are in this set or in `other`.
    pub fn or(self, other: MethodFilter) -> (r: MethodFilter)
        ensures
            r.bits == self.bits | other.bits,
    {
        MethodFilter { bits: self.bits | other.bits }
    }

    /// The set that holds `CONNECT` alone.
    pub fn connect() -> (r: MethodFilter)
        ensures
            r == MethodType::Connect.spec_filter(),
    {
        MethodFilter { bits: 1 }
    }

    /// The set that holds `DELETE` alone.
    pub fn delete() -> (r: MethodFilter)
        ensures
            r == MethodType::Delete.spec_filter(),
    {
        MethodFilter { bits: 2 }
    }

    /// The set that holds `GET` alone.
    pub fn get() -> (r: MethodFilter)
        ensures
            r == MethodType::Get.spec_filter(),
    {
        MethodFilter { bits: 4 }
    }

    /// The set that holds `HEAD` alone.
    pub fn head() -> (r: MethodFilter)
        ensures
            r == MethodType::Head.spec_filter(),
    {
        MethodFilter { bits: 8 }
    }

    /// The set that holds `OPTIONS` alone.
    pub fn options() -> (r: MethodFilter)
        ensures
            r == MethodType::Options.spec_filter(),
    {
        MethodFilter { bits: 16 }
    }

    /// The set that holds `PATCH` alone.
    pub fn patch() -> (r: MethodFilter)
        ensures
            r == MethodType::Patch.spec_filter(),
    {
        MethodFilter { bits: 32 }
    }

    /// The set that holds `POST` alone.
    pub fn post() -> (r: MethodFilter)
        ensures
            r == MethodType::Post.spec_filter(),
    {
        MethodFilter { bits: 64 }
    }

    /// The set that holds `PUT` alone.
    pub fn put() -> (r: MethodFilter)
        ensures
            r == MethodType::Put.spec_filter(),
    {
        MethodFilter { bits: 128 }
    }

    /// The set that holds `TRACE` alone.
    pub fn trace() -> (r: MethodFilter)
        ensures
            r == MethodType::Trace.spec_filter(),
    {
        MethodFilter { bits: 256 }
    }
}

/// The kinds of operation that the description knows, in the order in which
/// a registration fills them in.
pub open spec fn documented_kinds() -> Seq<OperationType> {
    seq![
        OperationType::Get,
        OperationType::Delete,
        OperationType::Head,
        OperationType::Options,
        OperationType::Patch,
        OperationType::Post,
        OperationType::Put,
        OperationType::Trace,
    ]
}

/// The `i`-th kind of operation that the description knows.
pub fn documented_kind(i: usize) -> (r: OperationType)
    requires
        i < 8,
    ensures
        r == documented_kinds()[i as int],
{
    if i == 0 {
        OperationType::Get
    } else if i == 1 {
        OperationType::Delete
    } else if i == 2 {
        OperationType::Head
    } else if i == 3 {
        OperationType::Options
    } else if i == 4 {
        OperationType::Patch
    } else if i == 5 {
        OperationType::Post
    } else if i == 6 {
        OperationType::Put
    } else {
        OperationType::Trace
    }
}

/// The method that an operation of kind `kind` answers.
pub fn method_of(kind: OperationType) -> (r: MethodType)
    ensures
        r == kind.method(),
{
    match kind {
        OperationType::Get => MethodType::Get,
        OperationType::Put => MethodType::Put,
        OperationType::Post => MethodType::Post,
        OperationType::Delete => MethodType::Delete,
        OperationType::Options => MethodType::Options,
        OperationType::Head => MethodType::Head,
        OperationType::Patch => MethodType::Patch,
        OperationType::Trace => MethodType::Trace,
    }
}

} // verus!
