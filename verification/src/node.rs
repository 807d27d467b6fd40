//! The shapes a schema node can take, as the translators read them.

use crate::sorted_map::{lookup, Entries, SortedMap};
use vstd::prelude::*;

verus! {

/// The primitive types a schema can ask for.
#[derive(Debug, PartialEq, Eq, Clone, Copy, Structural)]
pub enum ScalarType {
    Boolean,
    Int8,
    Uint8,
    Int16,
    Uint16,
    Int32,
    Uint32,
    Float32,
    Float64,
    String,
    Timestamp,
}

/// The `metadata` of a node: for each key its value if that is a string, and
/// `None` if it is anything else.
pub type Metadata = SortedMap<Option<String>>;

/// One node of a schema.
///
/// Each form holds what the translators read of it. A reference carries the
/// definitions that were written beside it; the forms that become named
/// declarations carry their metadata, where a name may be given.
#[derive(Debug, PartialEq, Eq)]
pub enum SchemaNode {
    /// No constraint at all.
    Empty,
    /// A reference to a definition, by name.
    Ref { definitions: SortedMap<SchemaNode>, nullable: bool, ref_: String },
    /// A primitive.
    Type { nullable: bool, type_: ScalarType },
    /// One of a set of strings.
    Enum { metadata: Metadata, nullable: bool, enum_: Vec<String> },
    /// A list; every element has the given form.
    Elements { nullable: bool, elements: Box<SchemaNode> },
    /// An object with required and optional properties.
    Properties {
        metadata: Metadata,
        nullable: bool,
        properties: SortedMap<SchemaNode>,
        optional_properties: SortedMap<SchemaNode>,
    },
    /// A dictionary with string keys; every value has the given form.
    Values { nullable: bool, values: Box<SchemaNode> },
    /// A union of objects, told apart by the value of one property.
    Discriminator {
        metadata: Metadata,
        nullable: bool,
        discriminator: String,
        mapping: SortedMap<SchemaNode>,
    },
}

/// The string stored in metadata under `key`, if there is one.
pub open spec fn metadata_text(metadata: Entries<Option<String>>, key: Seq<char>) -> Option<
    Seq<char>,
> {
    match lookup(metadata, key) {
        Some(Some(text)) => Some(text@),
        _ => None,
    }
}

/// The string stored in `metadata` under `key`, if there is one.
pub fn metadata_str<'a>(metadata: &'a Metadata, key: &str) -> (text: Option<&'a String>)
    ensures
        match text {
            Some(t) => metadata_text(metadata@, key@) == Some(t@),
            None => metadata_text(metadata@, key@) is None,
        },
{
    match metadata.get(key) {
        Some(Some(text)) => Some(text),
        _ => None,
    }
}

/// Whether definition `i` of the global table is being resolved.
pub open spec fn in_progress(resolving: Seq<bool>, i: int) -> bool {
    0 <= i < resolving.len() && resolving[i]
}

/// The flags for a table of `n` definitions once definition `at` is being
/// resolved as well.
pub open spec fn mark(resolving: Seq<bool>, n: nat, at: int) -> Seq<bool> {
    Seq::new(n, |j: int| j == at || in_progress(resolving, j))
}

/// How many of the first `n` definitions are not being resolved.
pub open spec fn idle(resolving: Seq<bool>, n: nat) -> nat
    decreases n,
{
    if n == 0 {
        0
    } else {
        idle(resolving, (n - 1) as nat) + if in_progress(resolving, n - 1) {
            0nat
        } else {
            1nat
        }
    }
}

/// The flags of a table of `n` definitions of which none is being resolved.
pub open spec fn none_in_progress(n: nat) -> Seq<bool> {
    Seq::new(n, |j: int| false)
}

/// Marking a definition counts it out of the idle ones.
pub proof fn lemma_mark_idle(resolving: Seq<bool>, n: nat, at: int, upto: nat)
    requires
        0 <= at < n,
        !in_progress(resolving, at),
        upto <= n,
    ensures
        idle(mark(resolving, n, at), upto) + (if at < upto {
            1nat
        } else {
            0nat
        }) == idle(resolving, upto),
    decreases upto,
{
    if upto > 0 {
        lemma_mark_idle(resolving, n, at, (upto - 1) as nat);
    }
}

/// The flags `resolving`, brought to the length `n`, with flag `at` set.
pub fn mark_flags(resolving: &Vec<bool>, n: usize, at: usize) -> (marked: Vec<bool>)
    ensures
        marked@ == mark(resolving@, n as nat, at as int),
{
    let mut marked: Vec<bool> = Vec::new();
    let mut j: usize = 0;
    while j < n
        invariant
            j <= n,
            marked@.len() == j,
            forall|k: int| 0 <= k < j ==> marked@[k] == (k == at || in_progress(resolving@, k)),
        decreases n - j,
    {
        let busy = j == at || (j < resolving.len() && resolving[j]);
        marked.push(busy);
        j += 1;
    }
    assert(marked@ =~= mark(resolving@, n as nat, at as int));
    marked
}

/// The flags of a table of `n` definitions of which none is being resolved.
pub fn no_flags(n: usize) -> (flags: Vec<bool>)
    ensures
        flags@ == none_in_progress(n as nat),
{
    let mut flags: Vec<bool> = Vec::new();
    let mut i: usize = 0;
    while i < n
        invariant
            i <= n,
            flags@.len() == i,
            forall|j: int| 0 <= j < i ==> !flags@[j],
        decreases n - i,
    {
        flags.push(false);
        i += 1;
    }
    assert(flags@ =~= none_in_progress(n as nat));
    flags
}

} // verus!
