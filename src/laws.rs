use vstd::prelude::*;

use crate::achievement::Achievement;
use crate::registry::{holds, ids_in_order, next_record, records_of, CourseAchievementsContract};

verus! {

/// The records that a registry holds after issuing `calls` in order, starting
/// empty; each call is `(course_id, user_id, metadata_uri, issued_at)`.
pub open spec fn issued_from(calls: Seq<(u32, u32, String, u64)>) -> Seq<Achievement>
    decreases calls.len(),
{
    if calls.len() == 0 {
        Seq::empty()
    } else {
        let before = issued_from(calls.drop_last());
        let (course_id, user_id, metadata_uri, issued_at) = calls.last();
        before.push(next_record(before, course_id, user_id, metadata_uri, issued_at))
    }
}

/// Issuing one more call appends exactly the record that `issue` appends to
/// the registry built by the earlier calls.
pub proof fn lemma_issued_from_push(calls: Seq<(u32, u32, String, u64)>, call: (u32, u32, String, u64))
    ensures
        issued_from(calls.push(call)) == issued_from(calls).push(
            next_record(issued_from(calls), call.0, call.1, call.2, call.3),
        ),
{
    assert(calls.push(call).drop_last() =~= calls);
}

/// Over any run of issuances from an empty registry, the k-th call (counting
/// from 1) yields the record with id k, carrying exactly that call's course,
/// user, metadata and timestamp; so no two records share an id.
pub proof fn lemma_issue_run(calls: Seq<(u32, u32, String, u64)>)
    requires
        calls.len() <= u32::MAX,
    ensures
        issued_from(calls).len() == calls.len(),
        ids_in_order(issued_from(calls)),
        forall|k: int| 0 <= k < calls.len() ==> {
            let a = #[trigger] issued_from(calls)[k];
            &&& a.id == k + 1
            &&& a.course_id == calls[k].0
            &&& a.user_id == calls[k].1
            &&& a.metadata_uri == calls[k].2
            &&& a.issued_at == calls[k].3
        },
    decreases calls.len(),
{
    if calls.len() > 0 {
        let prefix = calls.drop_last();
        lemma_issue_run(prefix);
        assert forall|k: int| 0 <= k < calls.len() - 1 implies calls[k] == prefix[k] by {}
    }
}

/// In a well-formed registry no two records share an id, and the record at
/// position i has id i + 1.
pub proof fn lemma_ids_unique(c: &CourseAchievementsContract)
    requires
        c.wf(),
    ensures
        forall|i: int| 0 <= i < c@.len() ==> #[trigger] c@[i].id == i + 1,
        forall|i: int, j: int|
            0 <= i < c@.len() && 0 <= j < c@.len() && i != j ==> c@[i].id != c@[j].id,
{
}

/// Every issued record verifies for its own user and for no other user.
pub proof fn lemma_verify_issued(c: &CourseAchievementsContract, i: int, other_user: u32)
    requires
        c.wf(),
        0 <= i < c@.len(),
        other_user != c@[i].user_id,
    ensures
        holds(c@, c@[i].id, c@[i].user_id),
        !holds(c@, c@[i].id, other_user),
{
    assert(c@[i].id == i + 1);
}

/// An id that no record carries (0, or past the number of records) verifies
/// for no user.
pub proof fn lemma_verify_missing(c: &CourseAchievementsContract, achievement_id: u32, user_id: u32)
    requires
        c.wf(),
        achievement_id == 0 || achievement_id > c@.len(),
    ensures
        !holds(c@, achievement_id, user_id),
{
    if holds(c@, achievement_id, user_id) {
        let i = choose|i: int| 0 <= i < c@.len() && #[trigger] c@[i].id == achievement_id && c@[i].user_id == user_id;
        assert(c@[i].id == i + 1);
    }
}

/// The records of a user are exactly the subsequence of all records whose
/// owner is that user.
pub proof fn lemma_query_is_subsequence(s: Seq<Achievement>, user_id: u32)
    ensures
        records_of(s, user_id) == s.filter(|a: Achievement| a.user_id == user_id),
    decreases s.len(),
{
    reveal(Seq::filter);
    if s.len() > 0 {
        lemma_query_is_subsequence(s.drop_last(), user_id);
    }
}

/// Every record in a user's list belongs to that user and stands in `s`.
pub proof fn lemma_query_members(s: Seq<Achievement>, user_id: u32)
    ensures
        forall|k: int| 0 <= k < records_of(s, user_id).len() ==>
            (#[trigger] records_of(s, user_id)[k]).user_id == user_id
            && s.contains(records_of(s, user_id)[k]),
    decreases s.len(),
{
    if s.len() > 0 {
        let rest = s.drop_last();
        lemma_query_members(rest, user_id);
        assert forall|k: int| 0 <= k < records_of(s, user_id).len() implies
            (#[trigger] records_of(s, user_id)[k]).user_id == user_id
            && s.contains(records_of(s, user_id)[k]) by {
            if k < records_of(rest, user_id).len() {
                let j = choose|j: int| 0 <= j < rest.len() && rest[j] == records_of(rest, user_id)[k];
                assert(s[j] == rest[j]);
            } else {
                assert(s[s.len() - 1] == s.last());
            }
        }
    }
}

/// Ids in a user's list never exceed the number of records and strictly
/// increase, so the list is in issuance order.
proof fn lemma_query_ascending(s: Seq<Achievement>, user_id: u32)
    requires
        ids_in_order(s),
    ensures
        forall|k: int| 0 <= k < records_of(s, user_id).len() ==>
            1 <= (#[trigger] records_of(s, user_id)[k]).id <= s.len(),
        forall|k: int, l: int| 0 <= k < l < records_of(s, user_id).len() ==>
            (#[trigger] records_of(s, user_id)[k]).id < (#[trigger] records_of(s, user_id)[l]).id,
    decreases s.len(),
{
    if s.len() > 0 {
        let rest = s.drop_last();
        assert forall|i: int| 0 <= i < rest.len() implies #[trigger] rest[i].id == i + 1 by {
            assert(s[i].id == i + 1);
        }
        lemma_query_ascending(rest, user_id);
        assert(s.last().id == s.len()) by {
            assert(s[s.len() - 1].id == s.len());
        }
        let r = records_of(s, user_id);
        let rr = records_of(rest, user_id);
        if s.last().user_id == user_id {
            assert(r == rr.push(s.last()));
            assert forall|k: int| 0 <= k < r.len() implies 1 <= (#[trigger] r[k]).id <= s.len() by {
                if k < rr.len() {
                    assert(r[k] == rr[k]);
                }
            }
            assert forall|k: int, l: int| 0 <= k < l < r.len() implies
                (#[trigger] r[k]).id < (#[trigger] r[l]).id by {
                assert(r[k] == rr[k]);
                if l < rr.len() {
                    assert(r[l] == rr[l]);
                }
            }
        }
    }
}

/// A user's list is in ascending id order, holds only that user's records,
/// holds every one of them, and is empty for a user who never received one.
pub proof fn lemma_query_ordered(c: &CourseAchievementsContract, user_id: u32)
    requires
        c.wf(),
    ensures
        forall|k: int, l: int| 0 <= k < l < records_of(c@, user_id).len() ==>
            (#[trigger] records_of(c@, user_id)[k]).id < (#[trigger] records_of(c@, user_id)[l]).id,
        forall|k: int| 0 <= k < records_of(c@, user_id).len() ==>
            (#[trigger] records_of(c@, user_id)[k]).user_id == user_id,
        forall|i: int| 0 <= i < c@.len() && (#[trigger] c@[i]).user_id == user_id ==>
            records_of(c@, user_id).contains(c@[i]),
        (forall|i: int| 0 <= i < c@.len() ==> (#[trigger] c@[i]).user_id != user_id)
            ==> records_of(c@, user_id).len() == 0,
{
    lemma_query_ascending(c@, user_id);
    lemma_query_members(c@, user_id);
    lemma_query_complete(c@, user_id);
}

/// Each record of `s` that belongs to `user_id` is in the user's list, and
/// the list is empty when none does.
proof fn lemma_query_complete(s: Seq<Achievement>, user_id: u32)
    ensures
        forall|i: int| 0 <= i < s.len() && (#[trigger] s[i]).user_id == user_id ==>
            records_of(s, user_id).contains(s[i]),
        (forall|i: int| 0 <= i < s.len() ==> (#[trigger] s[i]).user_id != user_id)
            ==> records_of(s, user_id).len() == 0,
    decreases s.len(),
{
    if s.len() > 0 {
        let rest = s.drop_last();
        lemma_query_complete(rest, user_id);
        let r = records_of(s, user_id);
        let rr = records_of(rest, user_id);
        assert forall|i: int| 0 <= i < s.len() && (#[trigger] s[i]).user_id == user_id implies r.contains(s[i]) by {
            if i < rest.len() {
                assert(rest[i] == s[i]);
                let k = choose|k: int| 0 <= k < rr.len() && rr[k] == rest[i];
                if s.last().user_id == user_id {
                    assert(r[k] == rr[k]);
                }
            } else {
                assert(s[i] == s.last());
                assert(r[rr.len() as int] == s.last());
            }
        }
        if forall|i: int| 0 <= i < s.len() ==> (#[trigger] s[i]).user_id != user_id {
            assert(rest.len() == s.len() - 1);
            assert forall|i: int| 0 <= i < rest.len() implies (#[trigger] rest[i]).user_id != user_id by {
                assert(rest[i] == s[i]);
            }
            assert(s[s.len() - 1].user_id != user_id);
        }
    }
}

} // verus!
