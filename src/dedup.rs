use vstd::prelude::*;

use crate::seqs::first_by;
use crate::state::{service_fragment, vm_fragment, Service, VerificationMethod};
use itertools::Itertools;

verus! {

/// The characters of a text.
pub open spec fn string_view() -> spec_fn(String) -> Seq<char> {
    |s: String| s@
}

/// The bytes of a key.
pub open spec fn bytes_view() -> spec_fn(Vec<u8>) -> Seq<u8> {
    |v: Vec<u8>| v@
}

/// Relies on itertools' `unique_by`: in order, the first service of each fragment.
#[verifier::external_body]
pub(crate) fn unique_services(services: Vec<Service>) -> (r: Vec<Service>)
    ensures
        r@ == first_by(services@, service_fragment()),
{
    services.into_iter().unique_by(|s| s.fragment.clone()).collect()
}

/// Relies on itertools' `unique_by`: in order, the first method of each fragment.
#[verifier::external_body]
pub(crate) fn unique_methods(methods: Vec<VerificationMethod>) -> (r: Vec<VerificationMethod>)
    ensures
        r@ == first_by(methods@, vm_fragment()),
{
    methods.into_iter().unique_by(|vm| vm.fragment.clone()).collect()
}

/// Relies on itertools' `unique`: in order, the first occurrence of each text.
#[verifier::external_body]
pub(crate) fn unique_strings(v: Vec<String>) -> (r: Vec<String>)
    ensures
        r@ == first_by(v@, string_view()),
{
    v.into_iter().unique().collect()
}

/// Relies on itertools' `unique`: in order, a copy of the first occurrence of each key.
#[verifier::external_body]
pub(crate) fn unique_keys(v: Vec<Vec<u8>>) -> (r: Vec<Vec<u8>>)
    ensures
        r@.map_values(bytes_view()) == first_by(v@, bytes_view()).map_values(bytes_view()),
{
    v.into_iter().unique().collect()
}

} // verus!
