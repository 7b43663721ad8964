use gurka::models::{Feature, NewStep, PositionUpdate, Step, StepError, User};

fn feature(id: i32) -> Feature {
    Feature { id, project_id: 1, creator_id: 1, slug: "login".to_string(), name: "Login".to_string() }
}

fn user() -> User {
    User { id: 7, username: "john".to_string(), iterations: 1, salt: vec![1, 2], credential: vec![3, 4] }
}

fn step(id: i32, feature_id: i32, position: i32) -> Step {
    Step {
        id,
        slug: format!("step-{}", id),
        feature_id,
        creator_id: 7,
        step_type: "Given".to_string(),
        value: format!("step {}", id),
        position,
    }
}

fn five_steps() -> Vec<Step> {
    (1..=5).map(|i| step(i, 1, i)).collect()
}

fn ids(steps: &[Step]) -> Vec<i32> {
    steps.iter().map(|s| s.id).collect()
}

fn positions(steps: &[Step]) -> Vec<i32> {
    steps.iter().map(|s| s.position).collect()
}

#[test]
fn next_position_of_empty_feature_is_one() {
    assert_eq!(Step::next_position(&feature(1), &vec![]), 1);
    assert_eq!(Step::next_position(&feature(1), &vec![step(1, 2, 9)]), 1);
}

#[test]
fn next_position_follows_highest_of_feature() {
    let rows = vec![step(1, 1, 3), step(2, 2, 7), step(3, 1, 5), step(4, 1, -2)];
    assert_eq!(Step::next_position(&feature(1), &rows), 6);
    assert_eq!(Step::next_position(&feature(2), &rows), 8);
}

#[test]
fn new_step_without_position_goes_last() {
    let f = feature(1);
    let u = user();
    let rows = vec![step(1, 1, 1), step(2, 1, 2)];
    let new_step = NewStep { feature: &f, creator: &u, step_type: "Given".to_string(), value: "a user".to_string(), position: None };
    let inner = Step::new(new_step, &rows).unwrap();
    assert_eq!(inner.position, 3);
    assert_eq!(inner.feature_id, 1);
    assert_eq!(inner.creator_id, 7);
    assert_eq!(inner.step_type, "Given");
    assert_eq!(inner.value, "a user");
    assert_eq!(inner.slug, "given-a-user");
}

#[test]
fn new_step_slug_is_kebab_case_of_type_and_value() {
    let f = feature(1);
    let u = user();
    let new_step = NewStep { feature: &f, creator: &u, step_type: "When".to_string(), value: "John Logs In".to_string(), position: Some(4) };
    let inner = Step::new(new_step, &vec![]).unwrap();
    assert_eq!(inner.position, 4);
    assert_eq!(inner.slug, "when-john-logs-in");
}

#[test]
fn new_step_at_zero_is_refused() {
    let f = feature(1);
    let u = user();
    let new_step = NewStep { feature: &f, creator: &u, step_type: "Then".to_string(), value: "x".to_string(), position: Some(0) };
    assert_eq!(Step::new(new_step, &vec![]), Err(StepError::InvalidPosition(0)));
    let new_step = NewStep { feature: &f, creator: &u, step_type: "Then".to_string(), value: "x".to_string(), position: Some(-3) };
    assert_eq!(Step::new(new_step, &vec![]), Err(StepError::InvalidPosition(-3)));
}

#[test]
fn new_step_after_nonpositive_positions_is_refused() {
    let f = feature(1);
    let u = user();
    let rows = vec![step(1, 1, -4)];
    let new_step = NewStep { feature: &f, creator: &u, step_type: "Then".to_string(), value: "x".to_string(), position: None };
    assert_eq!(Step::new(new_step, &rows), Err(StepError::InvalidPosition(-3)));
}

#[test]
fn all_by_feature_orders_by_position() {
    let rows = vec![step(1, 1, 3), step(2, 2, 1), step(3, 1, 1), step(4, 1, 2)];
    let ordered = Step::all_by_feature(&feature(1), &rows);
    assert_eq!(ids(&ordered), vec![3, 4, 1]);
    assert_eq!(positions(&ordered), vec![1, 2, 3]);
}

#[test]
fn all_by_feature_keeps_steps_of_equal_position() {
    let rows = vec![step(1, 1, 2), step(2, 1, 1), step(3, 1, 2)];
    let ordered = Step::all_by_feature(&feature(1), &rows);
    assert_eq!(positions(&ordered), vec![1, 2, 2]);
    let mut got = ids(&ordered);
    got.sort();
    assert_eq!(got, vec![1, 2, 3]);
}

#[test]
fn move_down_closes_up_steps_passed_over() {
    let rows = five_steps();
    let moved = Step::move_to(&rows[0], 4, Some(&feature(1)), &rows).unwrap();
    assert_eq!(
        moved.updates,
        vec![
            PositionUpdate { id: 2, position: 1 },
            PositionUpdate { id: 3, position: 2 },
            PositionUpdate { id: 4, position: 3 },
            PositionUpdate { id: 1, position: 4 },
        ]
    );
    assert_eq!(ids(&moved.steps), vec![2, 3, 4, 1, 5]);
    assert_eq!(positions(&moved.steps), vec![1, 2, 3, 4, 5]);
}

#[test]
fn move_up_opens_a_place() {
    let rows = five_steps();
    let moved = Step::move_to(&rows[4], 2, Some(&feature(1)), &rows).unwrap();
    assert_eq!(
        moved.updates,
        vec![
            PositionUpdate { id: 2, position: 3 },
            PositionUpdate { id: 3, position: 4 },
            PositionUpdate { id: 4, position: 5 },
            PositionUpdate { id: 5, position: 2 },
        ]
    );
    assert_eq!(ids(&moved.steps), vec![1, 5, 2, 3, 4]);
    assert_eq!(positions(&moved.steps), vec![1, 2, 3, 4, 5]);
}

#[test]
fn move_to_same_place_changes_nothing() {
    let rows = five_steps();
    let moved = Step::move_to(&rows[2], 3, Some(&feature(1)), &rows).unwrap();
    assert!(moved.updates.is_empty());
    assert_eq!(ids(&moved.steps), vec![1, 2, 3, 4, 5]);
}

#[test]
fn move_to_zero_is_refused() {
    let rows = five_steps();
    assert_eq!(Step::move_to(&rows[2], 0, Some(&feature(1)), &rows).err(), Some(StepError::InvalidPosition(0)));
    assert_eq!(Step::move_to(&rows[2], -1, None, &rows).err(), Some(StepError::InvalidPosition(-1)));
}

#[test]
fn move_in_missing_feature_does_nothing() {
    let rows = five_steps();
    let moved = Step::move_to(&rows[0], 3, None, &rows).unwrap();
    assert!(moved.updates.is_empty());
    assert!(moved.steps.is_empty());
}

#[test]
fn move_leaves_other_features_alone() {
    let mut rows = five_steps();
    rows.push(step(10, 2, 2));
    rows.push(step(11, 2, 3));
    let moved = Step::move_to(&rows[0], 3, Some(&feature(1)), &rows).unwrap();
    assert_eq!(
        moved.updates,
        vec![
            PositionUpdate { id: 2, position: 1 },
            PositionUpdate { id: 3, position: 2 },
            PositionUpdate { id: 1, position: 3 },
        ]
    );
    assert_eq!(ids(&moved.steps), vec![2, 3, 1, 4, 5]);
}

#[test]
fn each_move_keeps_steps_numbered_one_to_n() {
    let mut rows = five_steps();
    let moves = [(0usize, 3usize), (4, 0), (2, 2), (1, 4), (3, 1)];
    for (from, to) in moves {
        let ordered = Step::all_by_feature(&feature(1), &rows);
        let target = ordered[to].position;
        let moved = Step::move_to(&ordered[from], target, Some(&feature(1)), &rows).unwrap();
        assert_eq!(positions(&moved.steps), vec![1, 2, 3, 4, 5]);
        assert_eq!(moved.steps[to].id, ordered[from].id);
        let mut others_before: Vec<i32> = ids(&ordered);
        others_before.retain(|&i| i != ordered[from].id);
        let mut others_after: Vec<i32> = ids(&moved.steps);
        others_after.retain(|&i| i != ordered[from].id);
        assert_eq!(others_before, others_after);
        rows = moved.steps;
    }
}

#[test]
fn invalid_position_message() {
    assert_eq!(StepError::InvalidPosition(0).message(), "Invalid position for step: 0, must be > 0.");
    assert_eq!(StepError::InvalidPosition(-3).message(), "Invalid position for step: -3, must be > 0.");
    assert_eq!(StepError::InvalidPosition(1207).message(), "Invalid position for step: 1207, must be > 0.");
    assert_eq!(
        StepError::InvalidPosition(i32::MIN).message(),
        format!("Invalid position for step: {}, must be > 0.", i32::MIN)
    );
}

#[test]
fn stored_updates_give_the_listed_rows() {
    let rows = five_steps();
    let moved = Step::move_to(&rows[3], 1, Some(&feature(1)), &rows).unwrap();
    let mut stored = rows.clone();
    for change in moved.updates.iter() {
        for row in stored.iter_mut() {
            if row.id == change.id {
                row.position = change.position;
            }
        }
    }
    let listed = Step::all_by_feature(&feature(1), &stored);
    assert_eq!(listed, moved.steps);
}

#[test]
fn moving_back_restores_positions() {
    let rows = five_steps();
    let there = Step::move_to(&rows[1], 5, Some(&feature(1)), &rows).unwrap();
    let moved_step = there.steps.iter().find(|s| s.id == 2).unwrap().clone();
    let back = Step::move_to(&moved_step, 2, Some(&feature(1)), &there.steps).unwrap();
    assert_eq!(back.steps, rows);
}
