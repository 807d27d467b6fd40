//! Whether two types, or two declarations, are the same: they hold the same
//! names, the same fields and the same cases.

use crate::elm::model::{
    cases_model, fields_model, lemma_record_model, optional_type_model, Decl, RecordPresence, Type,
};
use crate::sorted_map::SortedMap;
use crate::text::str_eq;
use vstd::prelude::*;

verus! {

/// Whether two texts that may be absent are the same.
pub fn same_text(a: &Option<String>, b: &Option<String>) -> (same: bool)
    ensures
        same == (crate::elm::model::optional_text(*a) == crate::elm::model::optional_text(*b)),
{
    match (a, b) {
        (None, None) => true,
        (Some(x), Some(y)) => str_eq(x.as_str(), y.as_str()),
        _ => false,
    }
}

/// Whether two tags are the same.
pub fn same_pair(a: &Option<(String, String)>, b: &Option<(String, String)>) -> (same: bool)
    ensures
        same == (crate::elm::model::pair_model(*a) == crate::elm::model::pair_model(*b)),
{
    match (a, b) {
        (None, None) => true,
        (Some((t1, v1)), Some((t2, v2))) => str_eq(t1.as_str(), t2.as_str()) && str_eq(
            v1.as_str(),
            v2.as_str(),
        ),
        _ => false,
    }
}

impl Type {
    /// Whether the fields of two records are the same.
    fn same_fields(
        owner: &Type,
        a: &SortedMap<(Type, RecordPresence)>,
        b: &SortedMap<(Type, RecordPresence)>,
    ) -> (same: bool)
        requires
            owner is Record,
            owner->Record_0 == *a,
        ensures
            same == (fields_model(a@) == fields_model(b@)),
        decreases owner, 0nat,
    {
        let n = a.len();
        if n != b.len() {
            return false;
        }
        let mut i: usize = 0;
        while i < n
            invariant
                i <= n,
                n == a@.len(),
                n == b@.len(),
                owner is Record,
                owner->Record_0 == *a,
                forall|j: int| 0 <= j < i ==> fields_model(a@)[j] == fields_model(b@)[j],
            decreases n - i,
        {
            proof {
                a.lemma_value_decreases(i as int);
                assert(decreases_to!(*owner => owner->Record_0));
            }
            let x = a.value_at(i);
            let y = b.value_at(i);
            let same = str_eq(a.key_at(i).as_str(), b.key_at(i).as_str()) && x.1 == y.1
                && x.0.same_as(&y.0);
            if !same {
                assert(fields_model(a@)[i as int] != fields_model(b@)[i as int]);
                return false;
            }
            i += 1;
        }
        assert(fields_model(a@) =~= fields_model(b@));
        true
    }

    /// Whether this type and `other` are the same.
    pub fn same_as(&self, other: &Type) -> (same: bool)
        ensures
            same == (self@ == other@),
        decreases self, 1nat,
    {
        match (self, other) {
            (Type::Int, Type::Int) => true,
            (Type::Float, Type::Float) => true,
            (Type::Bool, Type::Bool) => true,
            (Type::String, Type::String) => true,
            (Type::Unit, Type::Unit) => true,
            (Type::Maybe(a), Type::Maybe(b)) => a.same_as(b),
            (Type::DictWithStringKeys(a), Type::DictWithStringKeys(b)) => a.same_as(b),
            (Type::List(a), Type::List(b)) => a.same_as(b),
            (Type::Ref(a), Type::Ref(b)) => str_eq(a.orig(), b.orig()),
            (Type::Record(a), Type::Record(b)) => {
                proof {
                    lemma_record_model(*self);
                    lemma_record_model(*other);
                }
                Type::same_fields(self, a, b)
            },
            _ => false,
        }
    }
}

/// Whether two types that may be absent are the same.
pub fn same_optional_type(a: &Option<Type>, b: &Option<Type>) -> (same: bool)
    ensures
        same == (optional_type_model(*a) == optional_type_model(*b)),
{
    match (a, b) {
        (None, None) => true,
        (Some(x), Some(y)) => x.same_as(y),
        _ => false,
    }
}

/// Whether the cases of two custom types are the same.
fn same_cases(a: &SortedMap<Option<Type>>, b: &SortedMap<Option<Type>>) -> (same: bool)
    ensures
        same == (cases_model(a@) == cases_model(b@)),
{
    let n = a.len();
    if n != b.len() {
        return false;
    }
    let mut i: usize = 0;
    while i < n
        invariant
            i <= n,
            n == a@.len(),
            n == b@.len(),
            forall|j: int| 0 <= j < i ==> cases_model(a@)[j] == cases_model(b@)[j],
        decreases n - i,
    {
        let same = str_eq(a.key_at(i).as_str(), b.key_at(i).as_str()) && same_optional_type(
            a.value_at(i),
            b.value_at(i),
        );
        if !same {
            assert(cases_model(a@)[i as int] != cases_model(b@)[i as int]);
            return false;
        }
        i += 1;
    }
    assert(cases_model(a@) =~= cases_model(b@));
    true
}

impl Decl {
    /// Whether this declaration and `other` are the same.
    pub fn same_as(&self, other: &Decl) -> (same: bool)
        ensures
            same == (self@ == other@),
    {
        match (self, other) {
            (
                Decl::CustomTypeEnum { name, discriminator, constructor_prefix, cases },
                Decl::CustomTypeEnum {
                    name: name2,
                    discriminator: discriminator2,
                    constructor_prefix: prefix2,
                    cases: cases2,
                },
            ) => {
                str_eq(name.orig(), name2.orig()) && same_text(discriminator, discriminator2)
                    && str_eq(constructor_prefix.orig(), prefix2.orig()) && same_cases(
                    cases,
                    cases2,
                )
            },
            (
                Decl::TypeAlias { name, type_, discriminator },
                Decl::TypeAlias { name: name2, type_: type2, discriminator: discriminator2 },
            ) => {
                str_eq(name.orig(), name2.orig()) && type_.same_as(type2) && same_pair(
                    discriminator,
                    discriminator2,
                )
            },
            _ => false,
        }
    }
}

} // verus!
