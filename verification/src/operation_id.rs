//! Identifiers of operations: stable from build to build, and told apart by
//! the digest of the path where the resource names collide.

use vstd::prelude::*;
use vstd::string::*;
use crate::digest::{digest_of, lower_hex, md5_digest, to_lower_hex};
use crate::method::OperationType;
use crate::pattern::{find_resource, first_group, resource_pattern};
use crate::text::{dash_separators, dashed, trim_separators, trimmed};

verus! {

/// The resource that a path speaks of: what the pattern found in front of
/// the first parameter in braces or, where it found nothing, the whole path;
/// without the separators at both ends, and with a dash for each separator
/// inside.
pub open spec fn resource_of(path: Seq<char>, capture: Option<Seq<char>>) -> Seq<char> {
    dashed(
        trimmed(
            match capture {
                Some(found) => found,
                None => path,
            },
        ),
    )
}

/// The identifier made of the kind of operation, the resource and the digest
/// of the path.
pub open spec fn composed_operation_id(
    kind: OperationType,
    path: Seq<char>,
    capture: Option<Seq<char>>,
    digest: Seq<u8>,
) -> Seq<char> {
    kind.lower() + seq!['_'] + resource_of(path, capture) + seq!['-'] + lower_hex(digest)
}

/// The identifier of the operation of kind `kind` at `path`.
pub open spec fn operation_id(kind: OperationType, path: Seq<char>) -> Seq<char> {
    composed_operation_id(kind, path, first_group(resource_pattern(), path), md5_digest(path))
}

/// Puts an identifier together: the kind in lower case, an underscore, the
/// resource, a dash, and the digest in lower-case hexadecimal digits.
pub fn compose_operation_id(
    operation_type: &OperationType,
    path: &str,
    capture: Option<&str>,
    digest: &[u8],
) -> (id: String)
    ensures
        id@ == composed_operation_id(*operation_type, path@, capture.deep_view(), digest@),
{
    let source: &str = match capture {
        Some(found) => found,
        None => path,
    };
    let resource: String = dash_separators(trim_separators(source));
    let hex: String = to_lower_hex(digest);
    proof {
        reveal_strlit("_");
        reveal_strlit("-");
    }
    assert("_"@ =~= seq!['_']);
    assert("-"@ =~= seq!['-']);
    let mut id: String = String::from_str(operation_type.as_lower_str());
    id.append("_");
    id.append(resource.as_str());
    id.append("-");
    id.append(hex.as_str());
    id
}

/// The identifier of the operation of kind `operation_type` at `path`. It
/// depends on nothing but the two: the same path and kind give the same
/// identifier in every build.
pub fn build_operation_id(path: &str, operation_type: &OperationType) -> (id: String)
    ensures
        id@ == operation_id(*operation_type, path@),
{
    let capture: Option<String> = find_resource(path);
    let digest: [u8; 16] = digest_of(path);
    match &capture {
        Some(found) => compose_operation_id(
            operation_type,
            path,
            Some(found.as_str()),
            digest.as_slice(),
        ),
        None => compose_operation_id(operation_type, path, None, digest.as_slice()),
    }
}

/// The identifier of an operation is the same in every build: two
/// identifiers of one kind of operation at one path are the same text.
pub proof fn law_operation_id_is_stable(
    kind: OperationType,
    path: Seq<char>,
    first: Seq<char>,
    second: Seq<char>,
)
    requires
        first == operation_id(kind, path),
        second == operation_id(kind, path),
    ensures
        first == second,
{
}

/// Identifiers of operations of different kinds differ, whatever their paths.
pub proof fn law_operation_ids_differ_by_kind(
    kind: OperationType,
    other: OperationType,
    path: Seq<char>,
    other_path: Seq<char>,
)
    requires
        kind != other,
    ensures
        operation_id(kind, path) != operation_id(other, other_path),
{
    let a = operation_id(kind, path);
    let b = operation_id(other, other_path);
    reveal_strlit("get");
    reveal_strlit("put");
    reveal_strlit("post");
    reveal_strlit("delete");
    reveal_strlit("options");
    reveal_strlit("head");
    reveal_strlit("patch");
    reveal_strlit("trace");
    let n = kind.lower().len() as int;
    let m = other.lower().len() as int;
    assert(a[n] == '_');
    assert(b[m] == '_');
    assert(forall|i: int| 0 <= i < n ==> a[i] == kind.lower()[i]);
    assert(forall|i: int| 0 <= i < m ==> b[i] == other.lower()[i]);
    assert(forall|i: int| 0 <= i < n ==> kind.lower()[i] != '_');
    assert(forall|i: int| 0 <= i < m ==> other.lower()[i] != '_');
    if a == b {
        if n < m {
            assert(b[n] == other.lower()[n]);
        } else if m < n {
            assert(a[m] == kind.lower()[m]);
        } else {
            assert(a[0] == kind.lower()[0] && b[0] == other.lower()[0]);
            assert(a[1] == kind.lower()[1] && b[1] == other.lower()[1]);
        }
    }
}

/// An identifier starts with the lower-case name of its kind and an
/// underscore, and ends with a dash and the thirty-two digits of the digest.
pub proof fn law_operation_id_shape(kind: OperationType, path: Seq<char>, digest: Seq<u8>)
    requires
        digest.len() == 16,
    ensures
        ({
            let capture = first_group(resource_pattern(), path);
            let id = composed_operation_id(kind, path, capture, digest);
            let head = kind.lower().len() as int;
            let resource = resource_of(path, capture).len() as int;
            &&& id.len() == head + 1 + resource + 1 + 32
            &&& id.subrange(0, head) == kind.lower()
            &&& id[head] == '_'
            &&& id[head + 1 + resource] == '-'
            &&& id.subrange(head + 1 + resource + 1, id.len() as int) == lower_hex(digest)
        }),
{
    let capture = first_group(resource_pattern(), path);
    let id = composed_operation_id(kind, path, capture, digest);
    let head = kind.lower().len() as int;
    let resource = resource_of(path, capture).len() as int;
    assert(id.subrange(0, head) =~= kind.lower());
    assert(id.subrange(head + 1 + resource + 1, id.len() as int) =~= lower_hex(digest));
}

} // verus!
