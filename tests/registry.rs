use course_achievements::{Achievement, CourseAchievementsContract, Error};

fn uri(s: &str) -> String {
    s.to_string()
}

#[test]
fn test_issue_achievement() {
    let mut client = CourseAchievementsContract::new();

    let course_id = 101;
    let user_id = 1;
    let metadata_uri = uri("ipfs://QmW");

    let result = client.issue(course_id, user_id, metadata_uri.clone(), 0);
    assert!(result.is_ok());

    let achievement = result.unwrap();
    assert_eq!(achievement.id, 1);
    assert_eq!(achievement.course_id, course_id);
    assert_eq!(achievement.user_id, user_id);
    assert_eq!(achievement.metadata_uri, metadata_uri);

    let achievements = client.get_user_achievements(user_id).unwrap();
    assert_eq!(achievements.len(), 1);
    assert_eq!(achievements.get(0).unwrap().id, 1);
}

#[test]
fn test_verify_achievement() {
    let mut client = CourseAchievementsContract::new();

    let course_id = 101;
    let user_id = 1;
    let metadata_uri = uri("ipfs://QmW");

    let issued_achievement = client.issue(course_id, user_id, metadata_uri, 0).unwrap();

    let is_verified = client.verify(issued_achievement.id, user_id).unwrap();
    assert!(is_verified);

    let is_not_verified = client.verify(issued_achievement.id, 2).unwrap();
    assert!(!is_not_verified);

    let is_not_verified_wrong_id = client.verify(999, user_id).unwrap();
    assert!(!is_not_verified_wrong_id);
}

#[test]
fn test_get_user_achievements() {
    let mut client = CourseAchievementsContract::new();

    let user1_id = 1;
    let user2_id = 2;

    client.issue(101, user1_id, uri("ipfs://QmW1"), 0).unwrap();
    client.issue(102, user1_id, uri("ipfs://QmW2"), 0).unwrap();

    client.issue(201, user2_id, uri("ipfs://QmW3"), 0).unwrap();

    let user1_achievements = client.get_user_achievements(user1_id).unwrap();
    assert_eq!(user1_achievements.len(), 2);
    assert_eq!(user1_achievements.get(0).unwrap().user_id, user1_id);
    assert_eq!(user1_achievements.get(1).unwrap().user_id, user1_id);

    let user2_achievements = client.get_user_achievements(user2_id).unwrap();
    assert_eq!(user2_achievements.len(), 1);
    assert_eq!(user2_achievements.get(0).unwrap().user_id, user2_id);

    let user3_achievements = client.get_user_achievements(3).unwrap();
    assert_eq!(user3_achievements.len(), 0);
}

#[test]
fn ids_count_up_from_one() {
    let mut reg = CourseAchievementsContract::new();
    for k in 1..=20u32 {
        let a = reg.issue(k * 10, k % 3, uri("ipfs://x"), 1000 + k as u64).unwrap();
        assert_eq!(a.id, k);
    }
    let ids: Vec<u32> = reg.records().iter().map(|a| a.id).collect();
    assert_eq!(ids, (1..=20u32).collect::<Vec<u32>>());
}

#[test]
fn issue_returns_its_inputs() {
    let mut reg = CourseAchievementsContract::new();
    let a = reg.issue(7, 42, uri("ipfs://QmZ"), 1_700_000_000).unwrap();
    assert_eq!(
        a,
        Achievement {
            id: 1,
            course_id: 7,
            user_id: 42,
            issued_at: 1_700_000_000,
            metadata_uri: uri("ipfs://QmZ"),
        }
    );
    assert_eq!(reg.records(), &vec![a.clone()]);
}

#[test]
fn verify_on_empty_registry_is_false() {
    let reg = CourseAchievementsContract::new();
    assert_eq!(reg.verify(1, 1), Ok(false));
    assert_eq!(reg.verify(0, 0), Ok(false));
}

#[test]
fn verify_every_issued_record() {
    let mut reg = CourseAchievementsContract::new();
    for k in 0..10u32 {
        reg.issue(k, k % 4, uri("u"), 0).unwrap();
    }
    for a in reg.records().clone() {
        assert_eq!(reg.verify(a.id, a.user_id), Ok(true));
        assert_eq!(reg.verify(a.id, a.user_id + 1), Ok(false));
    }
    assert_eq!(reg.verify(0, 0), Ok(false));
    assert_eq!(reg.verify(11, 0), Ok(false));
}

#[test]
fn query_keeps_issuance_order() {
    let mut reg = CourseAchievementsContract::new();
    reg.issue(1, 5, uri("a"), 10).unwrap();
    reg.issue(2, 6, uri("b"), 11).unwrap();
    reg.issue(3, 5, uri("c"), 12).unwrap();
    reg.issue(4, 6, uri("d"), 13).unwrap();
    reg.issue(5, 5, uri("e"), 14).unwrap();
    let mine = reg.get_user_achievements(5).unwrap();
    let ids: Vec<u32> = mine.iter().map(|a| a.id).collect();
    assert_eq!(ids, vec![1, 3, 5]);
    let courses: Vec<u32> = mine.iter().map(|a| a.course_id).collect();
    assert_eq!(courses, vec![1, 3, 5]);
    assert_eq!(mine[1].metadata_uri, "c");
    assert_eq!(mine[2].issued_at, 14);
}

#[test]
fn reads_repeat_without_change() {
    let mut reg = CourseAchievementsContract::new();
    reg.issue(101, 1, uri("ipfs://QmW1"), 3).unwrap();
    reg.issue(201, 2, uri("ipfs://QmW3"), 4).unwrap();
    let before = reg.records().clone();
    let first = reg.get_user_achievements(1).unwrap();
    for _ in 0..5 {
        assert_eq!(reg.verify(1, 1), Ok(true));
        assert_eq!(reg.verify(2, 1), Ok(false));
        assert_eq!(reg.get_user_achievements(1).unwrap(), first);
    }
    assert_eq!(reg.records(), &before);
}

#[test]
fn scenario_three_issuances() {
    let mut reg = CourseAchievementsContract::new();
    reg.issue(101, 1, uri("ipfs://QmW1"), 0).unwrap();
    reg.issue(102, 1, uri("ipfs://QmW2"), 0).unwrap();
    reg.issue(201, 2, uri("ipfs://QmW3"), 0).unwrap();
    let one: Vec<u32> = reg.get_user_achievements(1).unwrap().iter().map(|a| a.id).collect();
    assert_eq!(one, vec![1, 2]);
    let two: Vec<u32> = reg.get_user_achievements(2).unwrap().iter().map(|a| a.id).collect();
    assert_eq!(two, vec![3]);
    assert!(reg.get_user_achievements(3).unwrap().is_empty());
    assert_eq!(reg.verify(1, 1), Ok(true));
    assert_eq!(reg.verify(1, 2), Ok(false));
    assert_eq!(reg.verify(999, 1), Ok(false));
}

#[test]
fn from_records_accepts_ids_in_order() {
    let mut reg = CourseAchievementsContract::new();
    reg.issue(1, 1, uri("a"), 0).unwrap();
    reg.issue(2, 2, uri("b"), 0).unwrap();
    let mut back = CourseAchievementsContract::from_records(reg.records().clone()).unwrap();
    assert_eq!(back.records(), reg.records());
    assert_eq!(back.issue(3, 3, uri("c"), 0).unwrap().id, 3);
    assert!(CourseAchievementsContract::from_records(Vec::new()).is_some());
}

#[test]
fn from_records_refuses_gaps() {
    let rec = |id: u32| Achievement { id, course_id: 1, user_id: 1, issued_at: 0, metadata_uri: uri("m") };
    assert!(CourseAchievementsContract::from_records(vec![rec(2)]).is_none());
    assert!(CourseAchievementsContract::from_records(vec![rec(1), rec(1)]).is_none());
    assert!(CourseAchievementsContract::from_records(vec![rec(1), rec(3)]).is_none());
}

#[test]
fn error_kinds_are_distinct() {
    assert_ne!(Error::NotFound, Error::Unauthorized);
    let e = Error::NotFound;
    let f = e;
    assert_eq!(e, f);
}
