use gurka::models::{Feature, Project};

fn project(id: i32) -> Project {
    Project { id, slug: format!("p{}", id), name: "P".to_string(), owner_id: 1 }
}

fn feature(id: i32, project_id: i32, slug: &str) -> Feature {
    Feature { id, project_id, creator_id: 1, slug: slug.to_string(), name: "F".to_string() }
}

#[test]
fn find_one_matches_project_and_slug() {
    let rows = vec![feature(1, 2, "login"), feature(2, 1, "signup"), feature(3, 1, "login")];
    assert_eq!(Feature::find_one(Some(&project(1)), &rows, "login"), Some(feature(3, 1, "login")));
    assert_eq!(Feature::find_one(Some(&project(2)), &rows, "login"), Some(feature(1, 2, "login")));
}

#[test]
fn find_one_without_match_or_project_is_none() {
    let rows = vec![feature(1, 2, "login")];
    assert_eq!(Feature::find_one(Some(&project(1)), &rows, "login"), None);
    assert_eq!(Feature::find_one(None, &rows, "login"), None);
}

#[test]
fn find_one_takes_the_first_match() {
    let rows = vec![feature(4, 1, "dup"), feature(5, 1, "dup")];
    assert_eq!(Feature::find_one(Some(&project(1)), &rows, "dup").map(|f| f.id), Some(4));
}

#[test]
fn all_by_project_keeps_order() {
    let rows = vec![feature(1, 2, "a"), feature(2, 1, "b"), feature(3, 1, "c")];
    let owned = Feature::all_by_project(&project(1), &rows);
    assert_eq!(owned.iter().map(|f| f.id).collect::<Vec<i32>>(), vec![2, 3]);
    assert!(Feature::all_by_project(&project(9), &rows).is_empty());
}
