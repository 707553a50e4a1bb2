//! What holds across the operations of the library, whatever is tracked:
//! the laws that relate inserting, looking up and forgetting in the
//! registry, and those of publishing an exit code and of answering a
//! synchronous exec.

use vstd::prelude::*;

use crate::child::ChildView;
use crate::child_reaper::{
    holds, inserted, no_records, populated, tracks, well_formed, Error, ReapableChildView,
};
use crate::exec_sync::{
    admission, answer, bare_answer, outcome_result, ExecOutcome, EXEC_FAILED_EXIT_CODE,
    UNKNOWN_CONTAINER_EXIT_CODE,
};
use crate::exit_paths::{decimal, decimal_digits, due, exit_writes_for, performed};
use crate::grandchildren::{not_of, other_than, records_under, without_pid};
use crate::pidfile::{all_digits, digits_value, is_digit, pid_of, unsigned_part};

verus! {

/// The test that a record passes where its process is `pid`.
pub open spec fn of(pid: i32) -> spec_fn(ReapableChildView) -> bool {
    |record: ReapableChildView| record.pid == pid
}

/// `held` once the processes `pids` have been forgotten, one after the
/// other.
pub open spec fn without_pids(held: Map<Seq<char>, Seq<ReapableChildView>>, pids: Seq<i32>) -> Map<
    Seq<char>,
    Seq<ReapableChildView>,
>
    decreases pids.len(),
{
    if pids.len() == 0 {
        held
    } else {
        without_pid(without_pids(held, pids.drop_last()), pids.last())
    }
}

proof fn lemma_other_than(under: Seq<ReapableChildView>, pid: i32)
    ensures
        other_than(under, pid).len() <= under.len(),
        forall|i: int|
            0 <= i < other_than(under, pid).len() ==> (#[trigger] other_than(under, pid)[i]).pid
                != pid && under.contains(other_than(under, pid)[i]),
        forall|i: int|
            0 <= i < under.len() && (#[trigger] under[i]).pid != pid ==> other_than(
                under,
                pid,
            ).contains(under[i]),
{
    let kept = other_than(under, pid);
    under.lemma_filter_len(not_of(pid));
    assert forall|i: int| 0 <= i < kept.len() implies (#[trigger] kept[i]).pid != pid
        && under.contains(kept[i]) by {
        under.lemma_filter_pred(not_of(pid), i);
        assert(kept.contains(kept[i]));
        under.lemma_filter_contains_rev(not_of(pid), kept[i]);
    }
    assert forall|i: int|
        0 <= i < under.len() && (#[trigger] under[i]).pid != pid implies kept.contains(
        under[i],
    ) by {
        under.lemma_filter_contains(not_of(pid), i);
    }
}

proof fn lemma_nothing_to_forget(under: Seq<ReapableChildView>, pid: i32)
    requires
        forall|i: int| 0 <= i < under.len() ==> (#[trigger] under[i]).pid != pid,
    ensures
        other_than(under, pid) == under,
    decreases under.len(),
{
    reveal(Seq::filter);
    if under.len() > 0 {
        let rest = under.drop_last();
        assert forall|i: int| 0 <= i < rest.len() implies (#[trigger] rest[i]).pid != pid by {
            assert(rest[i] == under[i]);
        }
        lemma_nothing_to_forget(rest, pid);
        assert(under[under.len() - 1].pid != pid);
        assert(rest.push(under.last()) =~= under);
    }
}

proof fn lemma_others_stay(under: Seq<ReapableChildView>, pid: i32, other: i32)
    requires
        other != pid,
    ensures
        other_than(under, pid).filter(of(other)) == under.filter(of(other)),
    decreases under.len(),
{
    reveal(Seq::filter);
    if under.len() > 0 {
        let rest = under.drop_last();
        let last = under.last();
        lemma_others_stay(rest, pid, other);
        if last.pid != pid {
            let kept = other_than(rest, pid).push(last);
            assert(other_than(under, pid) == kept);
            assert(kept.drop_last() =~= other_than(rest, pid));
            assert(kept.last() == last);
        }
    }
}

proof fn lemma_tracked_before(held: Map<Seq<char>, Seq<ReapableChildView>>, pid: i32, other: i32)
    requires
        tracks(without_pid(held, pid), other),
    ensures
        tracks(held, other),
        other != pid,
{
    let left = without_pid(held, pid);
    let (id, i) = choose|id: Seq<char>, i: int|
        left.contains_key(id) && 0 <= i < left[id].len() && (#[trigger] left[id][i]).pid == other;
    lemma_other_than(held[id], pid);
    let record = other_than(held[id], pid)[i];
    let k = choose|k: int| 0 <= k < held[id].len() && held[id][k] == record;
    assert(held[id][k].pid == other);
}

proof fn lemma_still_tracked(held: Map<Seq<char>, Seq<ReapableChildView>>, pid: i32, other: i32)
    requires
        tracks(held, other),
        other != pid,
    ensures
        tracks(without_pid(held, pid), other),
{
    let (id, i) = choose|id: Seq<char>, i: int|
        held.contains_key(id) && 0 <= i < held[id].len() && (#[trigger] held[id][i]).pid == other;
    lemma_other_than(held[id], pid);
    let kept = other_than(held[id], pid);
    let k = choose|k: int| 0 <= k < kept.len() && kept[k] == held[id][i];
    assert(without_pid(held, pid)[id][k].pid == other);
}

/// An identifier is tracked from the moment a record is inserted under it,
/// and not before: the empty registry tracks none, and inserting under one
/// identifier leaves every other as it was.
pub proof fn law_tracked_from_insert(
    held: Map<Seq<char>, Seq<ReapableChildView>>,
    id: Seq<char>,
    record: ReapableChildView,
    other: Seq<char>,
)
    ensures
        !no_records().contains_key(id),
        inserted(held, id, record).contains_key(id),
        inserted(held, id, record)[id].last() == record,
        !held.contains_key(id) ==> inserted(held, id, record)[id] == seq![record],
        other != id ==> inserted(held, id, record).contains_key(other) == held.contains_key(other),
        other != id ==> records_under(inserted(held, id, record), other) == records_under(
            held,
            other,
        ),
        populated(held) ==> populated(inserted(held, id, record)),
        well_formed(held) ==> well_formed(inserted(held, id, record)),
        well_formed(no_records()),
{
    assert(Seq::<ReapableChildView>::empty().push(record) =~= seq![record]);
}

/// Once a process is forgotten the registry holds no record of it, however
/// many it held and under whatever identifiers. An identifier that had
/// records of that process only is no longer a key, so that looking it up
/// finds nothing.
pub proof fn law_forgotten_leaves_nothing(
    held: Map<Seq<char>, Seq<ReapableChildView>>,
    pid: i32,
    id: Seq<char>,
)
    ensures
        !tracks(without_pid(held, pid), pid),
        populated(without_pid(held, pid)),
        well_formed(held) ==> well_formed(without_pid(held, pid)),
        (forall|i: int|
            0 <= i < records_under(held, id).len() ==> (#[trigger] records_under(held, id)[i]).pid
                == pid) ==> !without_pid(held, pid).contains_key(id),
{
    if tracks(without_pid(held, pid), pid) {
        lemma_tracked_before(held, pid, pid);
    }
    if well_formed(held) {
        vstd::set_lib::lemma_set_subset_finite(held.dom(), without_pid(held, pid).dom());
    }
    if held.contains_key(id) {
        lemma_other_than(held[id], pid);
        if other_than(held[id], pid).len() > 0 {
            let record = other_than(held[id], pid)[0];
            let k = choose|k: int| 0 <= k < held[id].len() && held[id][k] == record;
            assert(records_under(held, id)[k].pid != pid);
        }
    }
}

/// A child that is watched is found from then on: its record is held, as
/// the youngest under the child's identifier, and its process is tracked.
/// Under an identifier that had no record, it is the record that a lookup
/// returns; under one that had records, the oldest of them still is.
pub proof fn law_watched_is_found(held: Map<Seq<char>, Seq<ReapableChildView>>, child: ChildView)
    ensures
        inserted(held, child.id, child.reapable()).contains_key(child.id),
        inserted(held, child.id, child.reapable())[child.id].last() == child.reapable(),
        holds(inserted(held, child.id, child.reapable()), child.reapable()),
        tracks(inserted(held, child.id, child.reapable()), child.pid),
        !held.contains_key(child.id) ==> inserted(held, child.id, child.reapable())[child.id][0]
            == child.reapable(),
        held.contains_key(child.id) && held[child.id].len() > 0 ==> inserted(
            held,
            child.id,
            child.reapable(),
        )[child.id][0] == held[child.id][0],
{
    let watched = inserted(held, child.id, child.reapable());
    let last = watched[child.id].len() - 1;
    assert(watched[child.id][last] == child.reapable());
    assert(watched[child.id][last].pid == child.pid);
}

/// A child that is watched under a fresh identifier and then forgotten
/// leaves the identifier untracked.
pub proof fn law_watched_then_forgotten(
    held: Map<Seq<char>, Seq<ReapableChildView>>,
    child: ChildView,
)
    requires
        !held.contains_key(child.id),
    ensures
        inserted(held, child.id, child.reapable()).contains_key(child.id),
        !without_pid(inserted(held, child.id, child.reapable()), child.pid).contains_key(
            child.id,
        ),
{
    let watched = inserted(held, child.id, child.reapable());
    assert(watched[child.id] =~= seq![child.reapable()]);
    law_forgotten_leaves_nothing(watched, child.pid, child.id);
}

/// Forgetting a process never adds to the registry: no identifier appears,
/// and under none does the number of records grow.
pub proof fn law_forgetting_never_grows(
    held: Map<Seq<char>, Seq<ReapableChildView>>,
    pid: i32,
    id: Seq<char>,
)
    ensures
        without_pid(held, pid).contains_key(id) ==> held.contains_key(id),
        records_under(without_pid(held, pid), id).len() <= records_under(held, id).len(),
{
    if held.contains_key(id) {
        lemma_other_than(held[id], pid);
    }
}

proof fn lemma_fewer_records(under: Seq<ReapableChildView>, pid: i32, i: int)
    requires
        0 <= i < under.len(),
        under[i].pid == pid,
    ensures
        other_than(under, pid).len() < under.len(),
    decreases under.len(),
{
    reveal(Seq::filter);
    let rest = under.drop_last();
    if under.last().pid == pid {
        rest.lemma_filter_len(not_of(pid));
    } else {
        assert(rest[i] == under[i]);
        lemma_fewer_records(rest, pid, i);
    }
}

/// The number of records in `held`, over all identifiers.
pub open spec fn size(held: Map<Seq<char>, Seq<ReapableChildView>>) -> nat
    decreases held.dom().len(),
    when held.dom().finite()
{
    if held.dom().len() == 0 {
        0
    } else {
        let id = held.dom().choose();
        held[id].len() + size(held.remove(id))
    }
}

proof fn lemma_size_by_any(held: Map<Seq<char>, Seq<ReapableChildView>>, id: Seq<char>)
    requires
        held.dom().finite(),
        held.contains_key(id),
    ensures
        size(held) == held[id].len() + size(held.remove(id)),
    decreases held.dom().len(),
{
    let chosen = held.dom().choose();
    if chosen != id {
        lemma_size_by_any(held.remove(chosen), id);
        lemma_size_by_any(held.remove(id), chosen);
        assert(held.remove(chosen).remove(id) =~= held.remove(id).remove(chosen));
    }
}

proof fn lemma_size_shrinks(held: Map<Seq<char>, Seq<ReapableChildView>>, pid: i32)
    requires
        held.dom().finite(),
    ensures
        without_pid(held, pid).dom().finite(),
        size(without_pid(held, pid)) <= size(held),
        tracks(held, pid) ==> size(without_pid(held, pid)) < size(held),
    decreases held.dom().len(),
{
    let left = without_pid(held, pid);
    vstd::set_lib::lemma_set_subset_finite(held.dom(), left.dom());
    if held.dom().len() == 0 {
        assert(left.dom() =~= Set::empty());
    } else {
        let id = held.dom().choose();
        let rest = held.remove(id);
        lemma_size_shrinks(rest, pid);
        lemma_other_than(held[id], pid);
        if left.contains_key(id) {
            lemma_size_by_any(left, id);
            assert(left.remove(id) =~= without_pid(rest, pid));
        } else {
            assert(left =~= without_pid(rest, pid));
        }
        if tracks(held, pid) {
            let (at, i) = choose|at: Seq<char>, i: int|
                held.contains_key(at) && 0 <= i < held[at].len() && (#[trigger] held[at][i]).pid
                    == pid;
            if at == id {
                lemma_fewer_records(held[id], pid, i);
            } else {
                assert(rest[at][i].pid == pid);
            }
        }
    }
}

/// The size of the registry follows the processes: it is zero for the
/// empty registry, grows by one with each record inserted, and never grows
/// when a process is forgotten; it shrinks when that process was tracked.
pub proof fn law_size_follows_the_processes(
    held: Map<Seq<char>, Seq<ReapableChildView>>,
    id: Seq<char>,
    record: ReapableChildView,
    pid: i32,
)
    requires
        held.dom().finite(),
    ensures
        size(no_records()) == 0,
        size(inserted(held, id, record)) == size(held) + 1,
        size(without_pid(held, pid)) <= size(held),
        tracks(held, pid) ==> size(without_pid(held, pid)) < size(held),
{
    let more = inserted(held, id, record);
    lemma_size_by_any(more, id);
    assert(more.remove(id) =~= held.remove(id));
    if held.contains_key(id) {
        lemma_size_by_any(held, id);
    } else {
        assert(held.remove(id) =~= held);
    }
    lemma_size_shrinks(held, pid);
}

/// Forgetting a process that is not tracked changes nothing; in particular
/// a process may be forgotten twice.
pub proof fn law_forgetting_the_untracked(held: Map<Seq<char>, Seq<ReapableChildView>>, pid: i32)
    requires
        populated(held),
    ensures
        !tracks(held, pid) ==> without_pid(held, pid) == held,
        without_pid(without_pid(held, pid), pid) == without_pid(held, pid),
{
    if !tracks(held, pid) {
        lemma_untracked_is_kept(held, pid);
    }
    law_forgotten_leaves_nothing(held, pid, Seq::empty());
    lemma_untracked_is_kept(without_pid(held, pid), pid);
}

proof fn lemma_untracked_is_kept(held: Map<Seq<char>, Seq<ReapableChildView>>, pid: i32)
    requires
        populated(held),
        !tracks(held, pid),
    ensures
        without_pid(held, pid) == held,
{
    assert forall|id: Seq<char>| held.contains_key(id) implies #[trigger] other_than(held[id], pid)
        == held[id] by {
        assert forall|i: int| 0 <= i < held[id].len() implies (#[trigger] held[id][i]).pid
            != pid by {}
        lemma_nothing_to_forget(held[id], pid);
    }
    assert(without_pid(held, pid) =~= held);
}

/// The registry drains: once every process that it tracks has been
/// forgotten, in whatever order and however often, it tracks nothing.
pub proof fn law_registry_drains(held: Map<Seq<char>, Seq<ReapableChildView>>, pids: Seq<i32>)
    requires
        populated(held),
        forall|pid: i32| tracks(held, pid) ==> pids.contains(pid),
    ensures
        without_pids(held, pids) == no_records(),
{
    let left = without_pids(held, pids);
    lemma_forgotten_in_turn(held, pids);
    assert forall|id: Seq<char>| !left.contains_key(id) by {
        if left.contains_key(id) {
            assert(left[id].len() > 0);
            let pid = left[id][0].pid;
            assert(tracks(left, pid));
        }
    }
    assert(left =~= no_records());
}

proof fn lemma_forgotten_in_turn(held: Map<Seq<char>, Seq<ReapableChildView>>, pids: Seq<i32>)
    requires
        populated(held),
    ensures
        populated(without_pids(held, pids)),
        forall|pid: i32| #[trigger]
            tracks(without_pids(held, pids), pid) ==> tracks(held, pid) && !pids.contains(pid),
    decreases pids.len(),
{
    if pids.len() > 0 {
        let earlier = without_pids(held, pids.drop_last());
        lemma_forgotten_in_turn(held, pids.drop_last());
        assert forall|pid: i32| #[trigger]
            tracks(without_pids(held, pids), pid) implies tracks(held, pid) && !pids.contains(
            pid,
        ) by {
            lemma_tracked_before(earlier, pids.last(), pid);
            if pids.contains(pid) {
                let k = choose|k: int| 0 <= k < pids.len() && pids[k] == pid;
                assert(pids.drop_last()[k] == pid);
            }
        }
    }
}

/// Two processes do not touch each other: forgetting one leaves the records
/// of every other process where they are, identifier by identifier and in
/// their order.
pub proof fn law_processes_are_independent(
    held: Map<Seq<char>, Seq<ReapableChildView>>,
    pid: i32,
    other: i32,
    id: Seq<char>,
)
    requires
        other != pid,
    ensures
        records_under(without_pid(held, pid), id).filter(of(other)) == records_under(
            held,
            id,
        ).filter(of(other)),
        tracks(without_pid(held, pid), other) == tracks(held, other),
{
    if held.contains_key(id) {
        lemma_others_stay(held[id], pid, other);
        if !without_pid(held, pid).contains_key(id) {
            assert(other_than(held[id], pid) =~= Seq::empty());
        }
    } else {
        assert(!without_pid(held, pid).contains_key(id));
    }
    if tracks(held, other) {
        lemma_still_tracked(held, pid, other);
    }
    if tracks(without_pid(held, pid), other) {
        lemma_tracked_before(held, pid, other);
    }
}

/// An exit code is published by one write to each exit path, in the order
/// of the paths, and every write carries the decimal text of the exit code
/// and nothing else. No other file is written.
pub proof fn law_one_write_for_each_path(code: i32, paths: Seq<Seq<char>>)
    ensures
        exit_writes_for(code, paths).len() == paths.len(),
        forall|i: int|
            0 <= i < paths.len() ==> (#[trigger] exit_writes_for(code, paths)[i]).path == paths[i],
        forall|i: int|
            0 <= i < paths.len() ==> (#[trigger] exit_writes_for(code, paths)[i]).content
                == decimal(code as int),
{
}

/// Only the planned writes are ever due: a write that is due for an exit
/// code goes to one of the exit paths and carries the decimal text of the
/// exit code. For an empty list of exit paths no write is due, and behind
/// a write that failed none is.
pub proof fn law_only_planned_writes_are_due<F: Fn(&String, &String) -> bool>(
    write: F,
    code: i32,
    paths: Seq<Seq<char>>,
    path: Seq<char>,
    content: Seq<char>,
    failed: int,
)
    ensures
        due(write, exit_writes_for(code, paths), path, content) ==> paths.contains(path)
            && content == decimal(code as int),
        paths.len() == 0 ==> !due(write, exit_writes_for(code, paths), path, content),
        0 <= failed < paths.len() && !performed(write, exit_writes_for(code, paths)[failed], true)
            && due(write, exit_writes_for(code, paths), path, content) ==> exists|i: int|
            0 <= i <= failed && #[trigger] paths[i] == path,
{
    let plan = exit_writes_for(code, paths);
    if due(write, plan, path, content) {
        let i = choose|i: int|
            0 <= i < plan.len() && (#[trigger] plan[i]).path == path && plan[i].content == content
                && forall|k: int| 0 <= k < i ==> performed(write, #[trigger] plan[k], true);
        assert(paths[i] == path);
        if 0 <= failed < paths.len() && !performed(write, plan[failed], true) {
            assert(i <= failed);
        }
    }
}

/// Two processes publish apart: every write for one of them goes to one of
/// its own exit paths and carries its own exit code, so that no exit path
/// of the other is touched unless the two share it.
pub proof fn law_publications_are_apart(
    code: i32,
    paths: Seq<Seq<char>>,
    other_code: i32,
    other_paths: Seq<Seq<char>>,
)
    requires
        forall|i: int, j: int|
            0 <= i < paths.len() && 0 <= j < other_paths.len() ==> paths[i] != other_paths[j],
    ensures
        forall|i: int, j: int|
            0 <= i < paths.len() && 0 <= j < other_paths.len() ==> (#[trigger] exit_writes_for(
                code,
                paths,
            )[i]).path != (#[trigger] exit_writes_for(other_code, other_paths)[j]).path,
        forall|i: int|
            0 <= i < paths.len() ==> !other_paths.contains(
                (#[trigger] exit_writes_for(code, paths)[i]).path,
            ),
        code != other_code ==> forall|i: int, j: int|
            0 <= i < paths.len() && 0 <= j < other_paths.len() ==> (#[trigger] exit_writes_for(
                code,
                paths,
            )[i]).content != (#[trigger] exit_writes_for(other_code, other_paths)[j]).content,
{
    if code != other_code {
        law_exit_code_reads_back(code);
        law_exit_code_reads_back(other_code);
    }
}

/// The bytes of a text of ASCII characters.
pub open spec fn ascii_bytes(text: Seq<char>) -> Seq<u8> {
    Seq::new(text.len(), |i: int| text[i] as u8)
}

proof fn lemma_digits_read_back(n: nat)
    ensures
        decimal_digits(n).len() > 0,
        all_digits(ascii_bytes(decimal_digits(n))),
        digits_value(ascii_bytes(decimal_digits(n))) == n,
    decreases n,
{
    let bytes = ascii_bytes(decimal_digits(n));
    if n < 10 {
        assert(bytes.drop_last() =~= Seq::<u8>::empty());
        assert(bytes.last() == 48 + n);
        assert(digits_value(bytes.drop_last()) == 0);
    } else {
        lemma_digits_read_back(n / 10);
        let shorter = ascii_bytes(decimal_digits(n / 10));
        assert(bytes.drop_last() =~= shorter);
        assert(bytes.last() == 48 + n % 10);
        assert forall|i: int| 0 <= i < bytes.len() implies is_digit(#[trigger] bytes[i]) by {
            if i < shorter.len() {
                assert(bytes[i] == shorter[i]);
            }
        }
    }
}

/// The text that is written for an exit code is its decimal text: read as
/// a number it gives the exit code back.
pub proof fn law_exit_code_reads_back(code: i32)
    ensures
        pid_of(ascii_bytes(decimal(code as int))) == Some(code),
{
    let text = decimal(code as int);
    let bytes = ascii_bytes(text);
    if code < 0 {
        let n = (-code) as nat;
        lemma_digits_read_back(n);
        assert(bytes[0] == 45);
        assert(unsigned_part(bytes) =~= ascii_bytes(decimal_digits(n)));
    } else {
        let n = code as nat;
        lemma_digits_read_back(n);
        assert(is_digit(bytes[0]));
        assert(unsigned_part(bytes) == bytes);
    }
}

/// A synchronous exec in a container that is not tracked is not admitted,
/// and the caller is answered the exit code of an unknown container and
/// no output. In a tracked container it is admitted.
pub proof fn law_unknown_container(held: Map<Seq<char>, Seq<ReapableChildView>>, id: Seq<char>)
    ensures
        !held.contains_key(id) ==> admission(held, id) matches Err(Error::NotFound),
        held.contains_key(id) ==> admission(held, id) is Ok,
        answer(Err(Error::NotFound)) == bare_answer(UNKNOWN_CONTAINER_EXIT_CODE),
        admission(no_records(), id) is Err,
{
}

/// A synchronous exec that runs past its deadline is a timeout, one that
/// does not start is a spawn failure, and one that cannot be waited for a
/// wait failure; the caller is answered the exit code of a failed exec and
/// no output for each.
pub proof fn law_failed_exec()
    ensures
        outcome_result(ExecOutcome::TimedOut) matches Err(Error::TimeoutError),
        outcome_result(ExecOutcome::SpawnFailed) matches Err(Error::SpawnFailure),
        outcome_result(ExecOutcome::WaitFailed) matches Err(Error::WaitFailure),
        answer(outcome_result(ExecOutcome::TimedOut)) == bare_answer(EXEC_FAILED_EXIT_CODE),
        answer(outcome_result(ExecOutcome::SpawnFailed)) == bare_answer(EXEC_FAILED_EXIT_CODE),
        answer(outcome_result(ExecOutcome::WaitFailed)) == bare_answer(EXEC_FAILED_EXIT_CODE),
{
}

} // verus!
