//! What a publisher decides before it connects: the namespace under which
//! it announces.
use vstd::prelude::*;
use vstd::string::StringExecFns;

use crate::text::str_to_string;

verus! {

/// The prefix of a namespace that was made up.
pub open spec fn spec_namespace_prefix() -> Seq<char> {
    "quic.video/"@
}

/// The namespace to announce under, given the configured one and an
/// identifier to fall back to: the configured namespace, unless it is
/// empty; then the identifier behind the prefix `quic.video/`.
pub open spec fn spec_namespace(configured: Seq<char>, id: Seq<char>) -> Seq<char> {
    if configured.len() > 0 {
        configured
    } else {
        spec_namespace_prefix() + id
    }
}

/// The shape of an identifier in hyphenated form: 36 characters with
/// hyphens at the places 8, 13, 18 and 23.
pub open spec fn spec_hyphenated(id: Seq<char>) -> bool {
    &&& id.len() == 36
    &&& id[8] == '-'
    &&& id[13] == '-'
    &&& id[18] == '-'
    &&& id[23] == '-'
}

/// The namespace to announce under, given the configured one and an
/// identifier to fall back to.
pub fn namespace_with(configured: &str, id: &str) -> (r: String)
    ensures
        r@ == spec_namespace(configured@, id@),
{
    if configured.is_empty() {
        str_to_string("quic.video/").concat(id)
    } else {
        str_to_string(configured)
    }
}

/// `Uuid::new_v4` of the `uuid` crate, written out by its `Display`: a
/// random identifier in the hyphenated form, which has 36 characters with
/// hyphens at the places 8, 13, 18 and 23. Nothing is claimed of the other
/// characters: two calls give different identifiers.
#[verifier::external_body]
fn fresh_id() -> (id: String)
    ensures
        spec_hyphenated(id@),
{
    uuid::Uuid::new_v4().to_string()
}

/// The namespace to announce under: the configured one, unless it is
/// empty; then a fresh random identifier in hyphenated form behind the
/// prefix `quic.video/`.
pub fn namespace_or_fresh(configured: &str) -> (r: String)
    ensures
        configured@.len() > 0 ==> r@ == configured@,
        configured@.len() == 0 ==> r@.subrange(0, spec_namespace_prefix().len() as int)
            == spec_namespace_prefix() && spec_hyphenated(
            r@.subrange(spec_namespace_prefix().len() as int, r@.len() as int),
        ),
{
    if configured.is_empty() {
        let id = fresh_id();
        let r = namespace_with(configured, id.as_str());
        proof {
            let n = spec_namespace_prefix().len() as int;
            assert(r@.subrange(0, n) =~= spec_namespace_prefix());
            assert(r@.subrange(n, r@.len() as int) =~= id@);
        }
        r
    } else {
        namespace_with(configured, "")
    }
}

} // verus!
