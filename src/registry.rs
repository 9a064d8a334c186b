use vstd::prelude::*;

use crate::achievement::{Achievement, Error};

verus! {

/// True when the ids of `s` are exactly `1..=s.len()` in sequence order.
pub open spec fn ids_in_order(s: Seq<Achievement>) -> bool {
    &&& s.len() <= u32::MAX
    &&& forall|i: int| 0 <= i < s.len() ==> #[trigger] s[i].id == i + 1
}

/// The record that issuing appends to `s`: its id is one past the current
/// length.
pub open spec fn next_record(
    s: Seq<Achievement>,
    course_id: u32,
    user_id: u32,
    metadata_uri: String,
    issued_at: u64,
) -> Achievement {
    Achievement { id: (s.len() + 1) as u32, course_id, user_id, issued_at, metadata_uri }
}

/// Some record of `s` has id `achievement_id` and belongs to `user_id`.
pub open spec fn holds(s: Seq<Achievement>, achievement_id: u32, user_id: u32) -> bool {
    exists|i: int| 0 <= i < s.len() && #[trigger] s[i].id == achievement_id && s[i].user_id == user_id
}

/// The records of `s` that belong to `user_id`, in the order of `s`.
pub open spec fn records_of(s: Seq<Achievement>, user_id: u32) -> Seq<Achievement>
    decreases s.len(),
{
    if s.len() == 0 {
        Seq::empty()
    } else {
        let rest = records_of(s.drop_last(), user_id);
        if s.last().user_id == user_id {
            rest.push(s.last())
        } else {
            rest
        }
    }
}

/// The registry: one ordered, append-only sequence of achievement records.
pub struct CourseAchievementsContract {
    achievements: Vec<Achievement>,
}

impl View for CourseAchievementsContract {
    type V = Seq<Achievement>;

    closed spec fn view(&self) -> Seq<Achievement> {
        self.achievements@
    }
}

impl CourseAchievementsContract {
    /// Well-formed: ids are `1..=len` in order, so none is reused.
    pub open spec fn wf(&self) -> bool {
        ids_in_order(self@)
    }

    /// An empty registry, as it stands before the first issuance.
    pub fn new() -> (r: Self)
        ensures
            r.wf(),
            r@ == Seq::<Achievement>::empty(),
    {
        CourseAchievementsContract { achievements: Vec::new() }
    }

    /// Takes over a stored sequence of records; `None` when their ids are
    /// not `1..=len` in order.
    pub fn from_records(records: Vec<Achievement>) -> (r: Option<Self>)
        ensures
            r is Some <==> ids_in_order(records@),
            r matches Some(c) ==> c@ == records@ && c.wf(),
    {
        if records.len() > u32::MAX as usize {
            return None;
        }
        let mut i: usize = 0;
        while i < records.len()
            invariant
                i <= records@.len() <= u32::MAX,
                forall|j: int| 0 <= j < i ==> #[trigger] records@[j].id == j + 1,
            decreases records@.len() - i,
        {
            if records[i].id as usize != i + 1 {
                return None;
            }
            i += 1;
        }
        Some(CourseAchievementsContract { achievements: records })
    }

    /// The records in issuance order, for persisting.
    pub fn records(&self) -> (r: &Vec<Achievement>)
        ensures
            r@ == self@,
    {
        &self.achievements
    }

    /// Appends a record for `user_id` completing `course_id`, stamped with
    /// `issued_at`, and returns it. Its id is the new number of records.
    pub fn issue(&mut self, course_id: u32, user_id: u32, metadata_uri: String, issued_at: u64) -> (r: Result<Achievement, Error>)
        requires
            old(self).wf(),
            old(self)@.len() < u32::MAX,
        ensures
            final(self).wf(),
            r == Ok::<Achievement, Error>(next_record(old(self)@, course_id, user_id, metadata_uri, issued_at)),
            final(self)@ == old(self)@.push(next_record(old(self)@, course_id, user_id, metadata_uri, issued_at)),
    {
        let id = self.achievements.len() as u32 + 1;
        let achievement = Achievement { id, course_id, user_id, issued_at, metadata_uri };
        self.achievements.push(achievement.clone());
        Ok(achievement)
    }

    /// Whether the record with id `achievement_id` exists and belongs to
    /// `user_id`.
    pub fn verify(&self, achievement_id: u32, user_id: u32) -> (r: Result<bool, Error>)
        ensures
            r == Ok::<bool, Error>(holds(self@, achievement_id, user_id)),
    {
        let mut i: usize = 0;
        while i < self.achievements.len()
            invariant
                i <= self@.len(),
                forall|j: int| 0 <= j < i ==> !(#[trigger] self@[j].id == achievement_id && self@[j].user_id == user_id),
            decreases self@.len() - i,
        {
            let a = &self.achievements[i];
            if a.id == achievement_id && a.user_id == user_id {
                return Ok(true);
            }
            i += 1;
        }
        Ok(false)
    }

    /// Every record of `user_id`, in issuance order.
    pub fn get_user_achievements(&self, user_id: u32) -> (r: Result<Vec<Achievement>, Error>)
        ensures
            r matches Ok(v) && v@ == records_of(self@, user_id),
    {
        let mut found: Vec<Achievement> = Vec::new();
        let mut i: usize = 0;
        while i < self.achievements.len()
            invariant
                i <= self@.len(),
                found@ == records_of(self@.take(i as int), user_id),
            decreases self@.len() - i,
        {
            proof {
                let t = self@.take(i + 1);
                assert(t.drop_last() =~= self@.take(i as int));
                assert(t.last() == self@[i as int]);
            }
            if self.achievements[i].user_id == user_id {
                found.push(self.achievements[i].clone());
            }
            i += 1;
        }
        assert(self@.take(self@.len() as int) =~= self@);
        Ok(found)
    }
}

} // verus!
