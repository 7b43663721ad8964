//! Features: a project's Gherkin features, each holding ordered steps.

use super::projects::Project;
use vstd::prelude::*;
use vstd::string::StringExecFns;

verus! {

/// A stored feature.
#[derive(Debug, PartialEq, Eq)]
pub struct Feature {
    pub id: i32,
    pub project_id: i32,
    pub creator_id: i32,
    pub slug: String,
    pub name: String,
}

/// A feature as it is stored, before the store has given it an id.
#[derive(Debug, PartialEq, Eq)]
pub struct NewFeature {
    pub project_id: i32,
    pub creator_id: i32,
    pub slug: String,
    pub name: String,
}

impl Clone for Feature {
    fn clone(&self) -> (copy: Self)
        ensures
            copy == *self,
    {
        Feature {
            id: self.id,
            project_id: self.project_id,
            creator_id: self.creator_id,
            slug: self.slug.clone(),
            name: self.name.clone(),
        }
    }
}

/// The rows of `rows` that belong to the project `project_id`, in their order.
pub open spec fn features_of_project(rows: Seq<Feature>, project_id: i32) -> Seq<Feature>
    decreases rows.len(),
{
    if rows.len() == 0 {
        Seq::empty()
    } else {
        let rest = features_of_project(rows.drop_last(), project_id);
        if rows.last().project_id == project_id {
            rest.push(rows.last())
        } else {
            rest
        }
    }
}

/// `feature` belongs to project `project_id` and has the slug `slug`.
pub open spec fn is_feature_of(feature: Feature, project_id: i32, slug: Seq<char>) -> bool {
    feature.project_id == project_id && feature.slug@ == slug
}

impl Feature {
    /// The features of `project` among `features`, in their order.
    pub fn all_by_project(project: &Project, features: &Vec<Feature>) -> (owned: Vec<Feature>)
        ensures
            owned@ == features_of_project(features@, project.id),
            owned@ == features@.filter(|r: Feature| r.project_id == project.id),
    {
        let mut owned: Vec<Feature> = Vec::new();
        let mut i: usize = 0;
        while i < features.len()
            invariant
                i <= features@.len(),
                owned@ == features_of_project(features@.take(i as int), project.id),
            decreases features@.len() - i,
        {
            let ghost prefix = features@.take(i + 1);
            assert(prefix.drop_last() =~= features@.take(i as int));
            assert(prefix.last() == features@[i as int]);
            if features[i].project_id == project.id {
                owned.push(features[i].clone());
            }
            i = i + 1;
        }
        assert(features@.take(features@.len() as int) =~= features@);
        proof {
            lemma_features_of_project_is_filter(features@, project.id);
        }
        owned
    }

    /// The feature of `project` with the slug `feature_slug`: the first such
    /// among `features`. `None` when there is no such feature, or no project.
    pub fn find_one(project: Option<&Project>, features: &Vec<Feature>, feature_slug: &str) -> (found: Option<
        Feature,
    >)
        ensures
            project is None ==> found is None,
            project matches Some(p) ==> (found matches Some(f) ==> exists|i: int|
                0 <= i < features@.len() && #[trigger] features@[i] == f && is_feature_of(f, p.id, feature_slug@) && forall|
                    j: int,
                | 0 <= j < i ==> !is_feature_of(#[trigger] features@[j], p.id, feature_slug@)),
            project matches Some(p) ==> (found is None ==> forall|i: int|
                0 <= i < features@.len() ==> !is_feature_of(#[trigger] features@[i], p.id, feature_slug@)),
            project matches Some(p) ==> (found matches Some(f) ==> f.project_id == p.id && f.slug@ == feature_slug@),
            project matches Some(p) ==> (found matches Some(f) ==> exists|i: int|
                0 <= i < features@.len() && #[trigger] features@[i] == f && forall|j: int|
                    0 <= j < i ==> !(#[trigger] features@[j].project_id == p.id && features@[j].slug@ == feature_slug@)),
            project matches Some(p) ==> (found is None <==> forall|i: int|
                0 <= i < features@.len() ==> !(#[trigger] features@[i].project_id == p.id && features@[i].slug@
                    == feature_slug@)),
    {
        let owner = match project {
            Some(v) => v,
            None => return None,
        };
        let slug = String::from_str(feature_slug);
        let mut i: usize = 0;
        while i < features.len()
            invariant
                i <= features@.len(),
                slug@ == feature_slug@,
                forall|j: int| 0 <= j < i ==> !is_feature_of(#[trigger] features@[j], owner.id, feature_slug@),
                project == Some(owner),
            decreases features@.len() - i,
        {
            if features[i].project_id == owner.id && features[i].slug == slug {
                let found = features[i].clone();
                assert(features@[i as int] == found);
                return Some(found);
            }
            i = i + 1;
        }
        None
    }
}

/// The features of a project are exactly the rows whose `project_id` is the
/// project's, in their order: the plain filter.
pub proof fn lemma_features_of_project_is_filter(rows: Seq<Feature>, project_id: i32)
    ensures
        features_of_project(rows, project_id) == rows.filter(|r: Feature| r.project_id == project_id),
    decreases rows.len(),
{
    reveal(Seq::filter);
    if rows.len() > 0 {
        lemma_features_of_project_is_filter(rows.drop_last(), project_id);
    }
}

/// A feature is the one asked for exactly when it belongs to the project and
/// its slug is the slug asked for, character for character.
pub proof fn lemma_is_feature_of_is_exact(feature: Feature, project_id: i32, slug: Seq<char>)
    ensures
        is_feature_of(feature, project_id, slug) <==> (feature.project_id == project_id && feature.slug@ == slug),
        is_feature_of(feature, project_id, slug) ==> feature.slug@.len() == slug.len(),
{
}

/// Listing a project's features leaves none out and adds none: each feature of
/// the project is listed, each listed feature is one of the project's, and
/// there are as many as the project has rows.
pub proof fn lemma_project_listing_complete(rows: Seq<Feature>, project_id: i32)
    ensures
        ({
            let listed = rows.filter(|r: Feature| r.project_id == project_id);
            &&& forall|i: int| 0 <= i < rows.len() && rows[i].project_id == project_id ==> listed.contains(#[trigger] rows[i])
            &&& forall|i: int| 0 <= i < listed.len() ==> (#[trigger] listed[i]).project_id == project_id && rows.contains(listed[i])
            &&& listed.len() <= rows.len()
        }),
{
    broadcast use vstd::seq_lib::group_filter_ensures;

    let pred = |r: Feature| r.project_id == project_id;
    let listed = rows.filter(pred);
    assert forall|i: int| 0 <= i < listed.len() implies (#[trigger] listed[i]).project_id == project_id
        && rows.contains(listed[i]) by {
        assert(listed.contains(listed[i]));
        rows.lemma_filter_contains_rev(pred, listed[i]);
        assert(pred(listed[i]));
    }
    assert forall|i: int| 0 <= i < rows.len() && rows[i].project_id == project_id implies listed.contains(
        #[trigger] rows[i],
    ) by {
        assert(pred(rows[i]));
    }
}

} // verus!
