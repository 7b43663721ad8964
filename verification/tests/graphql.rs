use gurka::context::Context;
use gurka::graphql::{self, log_in, GraphqlError, MutatorHolder, QueryHolder, UserLookup};
use gurka::models::{self, NewUser, UserSession};

fn user(id: i32, name: &str) -> models::User {
    User_from(id, NewUser::with_salt(name.to_string(), "abc123".to_string(), 10, vec![7; 16]))
}

#[allow(non_snake_case)]
fn User_from(id: i32, new_user: NewUser) -> models::User {
    models::User {
        id,
        username: new_user.username,
        iterations: new_user.iterations,
        salt: new_user.salt,
        credential: new_user.credential,
    }
}

fn failure(message: &str, error: &str) -> GraphqlError {
    GraphqlError { message: message.to_string(), error: error.to_string() }
}

#[test]
fn log_in_with_right_password() {
    let john = user(3, "john");
    assert_eq!(log_in(Some(user(3, "john")), "abc123"), Ok(john));
}

#[test]
fn log_in_with_wrong_password_fails() {
    let result = log_in(Some(user(3, "john")), "wrong password");
    assert_eq!(result, Err(failure("No user found or invalid password", "no user found")));
}

#[test]
fn log_in_of_missing_user_fails_the_same_way() {
    assert_eq!(log_in(None, "abc123"), Err(failure("No user found or invalid password", "no user found")));
}

#[test]
fn token_is_hyphenated_uuid() {
    let session = UserSession { id: 0x0123_4567_89ab_cdef_0123_4567_89ab_cdef, user_id: 1 };
    let api_session = graphql::UserSession::new(graphql::User::new(user(1, "a")), session);
    assert_eq!(api_session.token(), "01234567-89ab-cdef-0123-456789abcdef");
}

#[test]
fn token_matches_uuid_text_form() {
    let session = UserSession::create(9).unwrap();
    let expected = uuid::Uuid::from_u128(session.id).hyphenated().to_string();
    let api_session = graphql::UserSession::new(graphql::User::new(user(9, "b")), session);
    let token = api_session.token();
    assert_eq!(token, expected);
    assert_eq!(token.len(), 36);
}

#[test]
fn context_builders() {
    let context = Context::new();
    assert!(context.token.is_none());
    assert!(context.current_user().is_none());
    let context = Context::new().with_auth("t".to_string()).with_user(Some(user(2, "c")));
    assert_eq!(context.token, Some("t".to_string()));
    assert_eq!(context.current_user().map(|u| u.id), Some(2));
    let context = context.with_user(None);
    assert!(context.current_user().is_none());
    assert_eq!(context.token, Some("t".to_string()));
}

#[test]
fn user_query_prefers_id() {
    assert_eq!(QueryHolder::user(Some("john".to_string()), Some(4)), Ok(UserLookup::ById(4)));
    assert_eq!(QueryHolder::user(Some("john".to_string()), None), Ok(UserLookup::ByUsername("john".to_string())));
}

#[test]
fn user_query_needs_a_key() {
    assert_eq!(
        QueryHolder::user(None, None),
        Err(failure("Either `username` or `id` is required", "invalid parameters"))
    );
}

#[test]
fn create_project_needs_a_user() {
    let context = Context::new();
    assert_eq!(
        MutatorHolder::create_project(&context, "p".to_string(), "P".to_string()),
        Err(failure("No user associated with this session", "forbidden"))
    );
    let context = Context::new().with_user(Some(user(5, "d")));
    let project = MutatorHolder::create_project(&context, "p".to_string(), "P".to_string()).unwrap();
    assert_eq!(project, models::NewProject { slug: "p".to_string(), name: "P".to_string(), owner_id: 5 });
}

#[test]
fn resolvers_report_missing_rows() {
    let project = graphql::Project::new(models::Project { id: 1, slug: "s".to_string(), name: "n".to_string(), owner_id: 2 });
    assert_eq!(project.owner(None).err(), Some(failure("No user found for owner_id of project", "internal error")));
    let owner = graphql::User::new(user(2, "e"));
    assert_eq!(project.owner(Some(graphql::User::new(user(2, "e")))), Ok(owner));

    let step = graphql::Step::new(models::Step {
        id: 1,
        slug: "s".to_string(),
        feature_id: 3,
        creator_id: 2,
        step_type: "Given".to_string(),
        value: "v".to_string(),
        position: 1,
    });
    assert_eq!(step.feature(None).err(), Some(failure("No feature found for feature_id of step", "internal error")));
    assert_eq!(step.creator(None).err(), Some(failure("No user found for creator_id of step", "internal error")));

    let feature = graphql::Feature::new(models::Feature {
        id: 3,
        project_id: 1,
        creator_id: 2,
        slug: "f".to_string(),
        name: "F".to_string(),
    });
    assert_eq!(feature.project(None).err(), Some(failure("No project found for project_id of feature", "internal error")));
    assert_eq!(feature.creator(None).err(), Some(failure("No user found for creator_id of step", "internal error")));
}

#[test]
fn features_and_steps_of_missing_parents_are_empty() {
    let features = vec![models::Feature { id: 1, project_id: 1, creator_id: 1, slug: "f".to_string(), name: "F".to_string() }];
    assert!(graphql::project_features(None, &features).is_empty());
    let project = models::Project { id: 1, slug: "p".to_string(), name: "P".to_string(), owner_id: 1 };
    assert_eq!(graphql::project_features(Some(&project), &features).len(), 1);
    let step = |id: i32, position: i32| models::Step {
        id,
        slug: "s".to_string(),
        feature_id: 1,
        creator_id: 1,
        step_type: "Given".to_string(),
        value: "v".to_string(),
        position,
    };
    let steps = vec![step(1, 2), step(2, 1)];
    assert!(graphql::feature_steps(None, &steps).is_empty());
    let listed = graphql::feature_steps(Some(&features[0]), &steps);
    assert_eq!(listed.iter().map(|s| s.id).collect::<Vec<i32>>(), vec![2, 1]);
}

#[test]
fn context_clone_keeps_token_and_user() {
    let context = Context::new().with_auth("t".to_string()).with_user(Some(user(4, "g")));
    let copy = context.clone();
    assert_eq!(copy.token, Some("t".to_string()));
    assert_eq!(copy.current_user, context.current_user);
}
