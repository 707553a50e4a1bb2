//! The multimap that holds the tracked records, and what is taken on trust
//! about it.
//!
//! Nothing in this module is proved. Each function states what the source of
//! `multimap` shows of the method it calls, over [`records`], the name
//! for what a map holds.

use multimap::MultiMap;
use vstd::prelude::*;

use crate::child_reaper::{ReapableChild, ReapableChildView};

verus! {

/// `multimap::MultiMap`. The proofs see nothing inside a map; what they know
/// of one they know through [`records`].
#[verifier::external_type_specification]
#[verifier::external_body]
#[verifier::reject_recursive_types(K)]
#[verifier::reject_recursive_types(V)]
#[verifier::reject_recursive_types(S)]
pub struct ExMultiMap<K, V, S>(MultiMap<K, V, S>);

/// What a map holds: under each identifier, the records in the order in
/// which they were inserted.
pub uninterp spec fn records(map: MultiMap<String, ReapableChild>) -> Map<
    Seq<char>,
    Seq<ReapableChildView>,
>;

/// The records that `held` has under `id`; none where `id` is not a key.
pub open spec fn records_under(
    held: Map<Seq<char>, Seq<ReapableChildView>>,
    id: Seq<char>,
) -> Seq<ReapableChildView> {
    if held.contains_key(id) {
        held[id]
    } else {
        Seq::empty()
    }
}

/// The test that a record passes where its process is not `pid`.
pub open spec fn not_of(pid: i32) -> spec_fn(ReapableChildView) -> bool {
    |record: ReapableChildView| record.pid != pid
}

/// The records of `under` whose process is not `pid`, in their order.
pub open spec fn other_than(under: Seq<ReapableChildView>, pid: i32) -> Seq<ReapableChildView> {
    under.filter(not_of(pid))
}

/// `held` once every record of process `pid` has left it, and with it every
/// identifier that has no record left.
pub open spec fn without_pid(held: Map<Seq<char>, Seq<ReapableChildView>>, pid: i32) -> Map<
    Seq<char>,
    Seq<ReapableChildView>,
> {
    Map::new(
        |id: Seq<char>| held.contains_key(id) && other_than(held[id], pid).len() > 0,
        |id: Seq<char>| other_than(held[id], pid),
    )
}

/// `MultiMap::new`: a map that holds nothing.
#[verifier::external_body]
pub(crate) fn multimap_new() -> (fresh: MultiMap<String, ReapableChild>)
    ensures
        records(fresh).dom() == Set::<Seq<char>>::empty(),
{
    MultiMap::new()
}

/// `MultiMap::insert`: the record is pushed behind those already held under
/// `id`, or becomes the only one; no other identifier is touched. The call
/// returns: the method has no failing path short of exhausted memory.
#[verifier::external_body]
pub(crate) fn multimap_insert(
    map: &mut MultiMap<String, ReapableChild>,
    id: String,
    record: ReapableChild,
)
    ensures
        records(*final(map)) == records(*old(map)).insert(
            id@,
            records_under(records(*old(map)), id@).push(record@),
        ),
    no_unwind
{
    map.insert(id, record)
}

/// `MultiMap::get`: the first record held under `id`, if `id` is a key. The
/// method indexes the key's vector at 0, so a key with an empty vector is
/// left out.
#[verifier::external_body]
pub(crate) fn multimap_get<'a>(map: &'a MultiMap<String, ReapableChild>, id: &String) -> (first:
    Option<&'a ReapableChild>)
    requires
        records(*map).contains_key(id@) ==> records(*map)[id@].len() > 0,
    ensures
        first is Some <==> records(*map).contains_key(id@),
        first matches Some(record) ==> record@ == records(*map)[id@][0],
{
    map.get(id)
}

/// `MultiMap::retain`, keeping the records that
/// [`ReapableChild::is_other_than`] accepts: each vector keeps those records
/// in their order, then the keys whose vector is empty are dropped. The call
/// returns: neither the method nor the test has a failing path.
#[verifier::external_body]
pub(crate) fn multimap_retain_other_than(map: &mut MultiMap<String, ReapableChild>, pid: i32)
    ensures
        records(*final(map)) == without_pid(records(*old(map)), pid),
    no_unwind
{
    map.retain(|_, record| record.is_other_than(pid))
}

/// `MultiMap::iter_all`: the keys, in no stated order, each with the vector
/// held under it; no key is left out.
#[verifier::external_body]
pub(crate) fn multimap_iter_all<'a>(map: &'a MultiMap<String, ReapableChild>) -> (entries: Vec<
    (&'a String, &'a Vec<ReapableChild>),
>)
    ensures
        forall|i: int|
            0 <= i < entries.len() ==> records(*map).contains_key((#[trigger] entries[i]).0@)
                && records(*map)[entries[i].0@] == entries[i].1.deep_view(),
        forall|id: Seq<char>|
            records(*map).contains_key(id) ==> exists|i: int|
                0 <= i < entries.len() && (#[trigger] entries[i]).0@ == id,
{
    map.iter_all().collect()
}

} // verus!
