//! The steps of a feature: where a new step goes, how a step is moved, and the
//! order in which a feature's steps are listed.

use super::features::Feature;
use super::users::User;
use crate::text::{kebab_case, to_kebab_case};
use vstd::string::StringExecFns;
use vstd::prelude::*;
use vstd::seq_lib::group_to_multiset_ensures;

verus! {

/// A stored step of a feature; `position` orders the steps of a feature.
#[derive(Debug, PartialEq, Eq)]
pub struct Step {
    pub id: i32,
    pub slug: String,
    pub feature_id: i32,
    pub creator_id: i32,
    pub step_type: String,
    pub value: String,
    pub position: i32,
}

impl Clone for Step {
    fn clone(&self) -> (copy: Self)
        ensures
            copy == *self,
    {
        Step {
            id: self.id,
            slug: self.slug.clone(),
            feature_id: self.feature_id,
            creator_id: self.creator_id,
            step_type: self.step_type.clone(),
            value: self.value.clone(),
            position: self.position,
        }
    }
}

/// Why a step cannot be placed.
#[derive(Debug, PartialEq, Eq)]
pub enum StepError {
    /// Positions start at 1; the position given was not above 0.
    InvalidPosition(i32),
}

/// The character of the decimal digit `d < 10`.
pub open spec fn digit_char(d: nat) -> char {
    (d + 48) as char
}

/// The decimal digits of `n`, most significant first, without leading zeros.
pub open spec fn decimal_digits(n: nat) -> Seq<char>
    decreases n,
{
    if n < 10 {
        seq![digit_char(n)]
    } else {
        decimal_digits(n / 10).push(digit_char(n % 10))
    }
}

/// The decimal form of `n`, with a leading '-' when it is negative.
pub open spec fn decimal(n: int) -> Seq<char> {
    if n < 0 {
        seq!['-'] + decimal_digits((-n) as nat)
    } else {
        decimal_digits(n as nat)
    }
}

fn digit_str(d: u32) -> (s: &'static str)
    requires
        d < 10,
    ensures
        s@ == seq![digit_char(d as nat)],
{
    proof {
        reveal_strlit("0");
        reveal_strlit("1");
        reveal_strlit("2");
        reveal_strlit("3");
        reveal_strlit("4");
        reveal_strlit("5");
        reveal_strlit("6");
        reveal_strlit("7");
        reveal_strlit("8");
        reveal_strlit("9");
    }
    match d {
        0 => "0",
        1 => "1",
        2 => "2",
        3 => "3",
        4 => "4",
        5 => "5",
        6 => "6",
        7 => "7",
        8 => "8",
        _ => "9",
    }
}

fn append_digits(text: &mut String, n: u32)
    ensures
        final(text)@ == old(text)@ + decimal_digits(n as nat),
    decreases n,
{
    if n >= 10 {
        append_digits(text, n / 10);
    }
    text.append(digit_str(n % 10));
    proof {
        if n >= 10 {
            assert(old(text)@ + decimal_digits((n / 10) as nat) + seq![digit_char((n % 10) as nat)] =~= old(text)@
                + decimal_digits(n as nat));
        } else {
            assert(old(text)@ + seq![digit_char((n % 10) as nat)] =~= old(text)@ + decimal_digits(n as nat));
        }
    }
}

impl StepError {
    /// The message of the error: "Invalid position for step: p, must be > 0."
    /// with `p` in decimal.
    pub fn message(&self) -> (message: String)
        ensures
            match *self {
                StepError::InvalidPosition(p) => message@ == "Invalid position for step: "@ + decimal(p as int)
                    + ", must be > 0."@,
            },
    {
        let p = match self {
            StepError::InvalidPosition(p) => *p,
        };
        let mut message = String::new();
        message.append("Invalid position for step: ");
        let ghost head = message@;
        if p < 0 {
            message.append("-");
        }
        let magnitude: u32 = if p < 0 {
            (0i64 - (p as i64)) as u32
        } else {
            p as u32
        };
        let ghost before_digits = message@;
        append_digits(&mut message, magnitude);
        let ghost after_digits = message@;
        message.append(", must be > 0.");
        proof {
            reveal_strlit("-");
            if p < 0 {
                assert(before_digits =~= head + seq!['-']);
                assert(after_digits =~= head + decimal(p as int));
            } else {
                assert(after_digits =~= head + decimal(p as int));
            }
        }
        message
    }
}

/// A step to add to `feature`, made by `creator`. Without a position it goes
/// after the feature's last step.
#[derive(Debug, PartialEq, Eq)]
pub struct NewStep<'a> {
    pub feature: &'a Feature,
    pub creator: &'a User,
    pub step_type: String,
    pub value: String,
    pub position: Option<i32>,
}

/// A step as it is stored, before the store has given it an id.
#[derive(Debug, PartialEq, Eq)]
pub struct NewStepInner {
    pub slug: String,
    pub feature_id: i32,
    pub creator_id: i32,
    pub step_type: String,
    pub value: String,
    pub position: i32,
}

/// A change of one stored step's position.
#[derive(Debug, PartialEq, Eq)]
pub struct PositionUpdate {
    pub id: i32,
    pub position: i32,
}

/// What moving a step comes to: the position changes to store, in order, and
/// the steps of the feature afterwards, in ascending order of position.
#[derive(Debug, PartialEq, Eq)]
pub struct StepMove {
    pub updates: Vec<PositionUpdate>,
    pub steps: Vec<Step>,
}

/// Where a step at position `p` goes when the step at `from` moves to `to`:
/// the steps it passes over close up behind it.
pub open spec fn shifted_position(p: int, from: int, to: int) -> int {
    if from < to && from < p && p <= to {
        p - 1
    } else if to < from && to <= p && p < from {
        p + 1
    } else {
        p
    }
}

/// `row` after `step` has been moved to position `to`: the moved step is at
/// `to`, the others shifted; nothing changes when `to` is where `step` is.
pub open spec fn moved_row(row: Step, step: Step, to: i32) -> Step {
    if step.position == to {
        row
    } else if row.id == step.id {
        Step { position: to, ..row }
    } else {
        Step { position: shifted_position(row.position as int, step.position as int, to as int) as i32, ..row }
    }
}

/// The position changes of the steps of `feature_id` in `rows` that `step`
/// passes over on its way to `to`, in the order of `rows`.
pub open spec fn shift_updates(rows: Seq<Step>, step: Step, to: i32, feature_id: i32) -> Seq<PositionUpdate>
    decreases rows.len(),
{
    if rows.len() == 0 {
        Seq::empty()
    } else {
        let rest = shift_updates(rows.drop_last(), step, to, feature_id);
        let row = rows.last();
        let p = shifted_position(row.position as int, step.position as int, to as int);
        if row.feature_id == feature_id && row.id != step.id && p != row.position {
            rest.push(PositionUpdate { id: row.id, position: p as i32 })
        } else {
            rest
        }
    }
}

/// All position changes of moving `step` to `to` within feature `feature_id`:
/// none when it is already there, else the shifts followed by the moved step.
pub open spec fn move_updates(rows: Seq<Step>, step: Step, to: i32, feature_id: i32) -> Seq<PositionUpdate> {
    if step.position == to {
        Seq::empty()
    } else {
        shift_updates(rows, step, to, feature_id).push(PositionUpdate { id: step.id, position: to })
    }
}

/// The highest position among the steps of feature `feature_id` in `rows`, if
/// it has any.
pub open spec fn highest_position(rows: Seq<Step>, feature_id: i32) -> Option<int>
    decreases rows.len(),
{
    if rows.len() == 0 {
        None
    } else {
        let rest = highest_position(rows.drop_last(), feature_id);
        let row = rows.last();
        if row.feature_id != feature_id {
            rest
        } else {
            match rest {
                None => Some(row.position as int),
                Some(h) => Some(
                    if row.position > h {
                        row.position as int
                    } else {
                        h
                    },
                ),
            }
        }
    }
}

/// The position after the last step of feature `feature_id`: one more than
/// the highest position, or 1 when the feature has no step.
pub open spec fn next_position_of(rows: Seq<Step>, feature_id: i32) -> int {
    match highest_position(rows, feature_id) {
        None => 1,
        Some(h) => h + 1,
    }
}

/// No step of feature `feature_id` sits at the highest position an `i32` holds,
/// so the next position can be computed.
pub open spec fn below_top(rows: Seq<Step>, feature_id: i32) -> bool {
    forall|i: int|
        0 <= i < rows.len() && rows[i].feature_id == feature_id ==> rows[i].position < i32::MAX
}

/// The position a new step takes: the one it asks for, or the next one.
pub open spec fn chosen_position(new_step: NewStep, rows: Seq<Step>) -> int {
    match new_step.position {
        Some(p) => p as int,
        None => next_position_of(rows, new_step.feature.id),
    }
}

/// The slug of a step: the kebab case of its type and value, joined by a space.
pub open spec fn step_slug(step_type: Seq<char>, value: Seq<char>) -> Seq<char> {
    kebab_case(step_type + seq![' '] + value)
}

/// The rows of `rows` that belong to the feature `feature_id`, in their order.
pub open spec fn rows_of_feature(rows: Seq<Step>, feature_id: i32) -> Seq<Step>
    decreases rows.len(),
{
    if rows.len() == 0 {
        Seq::empty()
    } else {
        let rest = rows_of_feature(rows.drop_last(), feature_id);
        if rows.last().feature_id == feature_id {
            rest.push(rows.last())
        } else {
            rest
        }
    }
}

/// The steps of `s` are in ascending order of position.
pub open spec fn sorted_by_position(s: Seq<Step>) -> bool {
    forall|i: int, j: int| 0 <= i <= j < s.len() ==> s[i].position <= s[j].position
}

proof fn lemma_insert_to_multiset(s: Seq<Step>, k: int, x: Step)
    requires
        0 <= k <= s.len(),
    ensures
        s.insert(k, x).to_multiset() =~= s.to_multiset().insert(x),
{
    broadcast use group_to_multiset_ensures;

    let t = s.insert(k, x);
    assert(t.remove(k) =~= s);
    assert(t[k] == x);
    assert(t.to_multiset().count(x) > 0);
}

/// Puts `row` into the sorted `sorted`, after the rows of equal position.
fn insert_by_position(sorted: &mut Vec<Step>, row: Step)
    requires
        sorted_by_position(old(sorted)@),
    ensures
        sorted_by_position(final(sorted)@),
        final(sorted)@.to_multiset() =~= old(sorted)@.to_multiset().insert(row),
{
    let mut k: usize = 0;
    while k < sorted.len() && sorted[k].position <= row.position
        invariant
            k <= sorted@.len(),
            forall|j: int| 0 <= j < k ==> sorted@[j].position <= row.position,
        decreases sorted@.len() - k,
    {
        k = k + 1;
    }
    let ghost before = sorted@;
    let ghost pos = row.position;
    sorted.insert(k, row);
    proof {
        lemma_insert_to_multiset(before, k as int, row);
        let s = sorted@;
        assert forall|i: int, j: int| 0 <= i <= j < s.len() implies s[i].position <= s[j].position by {
            if i < k && j < k {
            } else if i < k && j == k {
            } else if i < k {
                assert(s[j] == before[j - 1]);
            } else if i == k && j == k {
            } else if i == k {
                assert(s[j] == before[j - 1]);
                assert(k < before.len());
                assert(before[k as int].position > pos);
            } else {
                assert(s[i] == before[i - 1]);
                assert(s[j] == before[j - 1]);
            }
        }
    }
}

impl Step {
    /// The position after the last step of `feature` among `steps`: one more
    /// than the highest, or 1 when the feature has none.
    pub fn next_position(feature: &Feature, steps: &Vec<Step>) -> (position: i32)
        requires
            below_top(steps@, feature.id),
        ensures
            position == next_position_of(steps@, feature.id),
    {
        let mut highest: Option<i32> = None;
        let mut i: usize = 0;
        while i < steps.len()
            invariant
                i <= steps@.len(),
                below_top(steps@, feature.id),
                highest matches Some(h) ==> h < i32::MAX,
                highest == (match highest_position(steps@.take(i as int), feature.id) {
                    None => None::<i32>,
                    Some(h) => Some(h as i32),
                }),
                highest_position(steps@.take(i as int), feature.id) matches Some(h) ==> i32::MIN <= h
                    <= i32::MAX,
            decreases steps@.len() - i,
        {
            let ghost prefix = steps@.take(i + 1);
            assert(prefix.drop_last() =~= steps@.take(i as int));
            assert(prefix.last() == steps@[i as int]);
            if steps[i].feature_id == feature.id {
                let p = steps[i].position;
                highest = match highest {
                    None => Some(p),
                    Some(h) => Some(if p > h { p } else { h }),
                };
            }
            i = i + 1;
        }
        assert(steps@.take(steps@.len() as int) =~= steps@);
        match highest {
            None => 1,
            Some(h) => h + 1,
        }
    }

    /// Moves `step` to `position` within `feature`, whose stored steps are
    /// among `steps`: the steps between the old and the new place close up,
    /// and the step takes the new place. Refused when `position` is not above
    /// 0; nothing happens when the feature does not exist (`None`).
    pub fn move_to(step: &Step, position: i32, feature: Option<&Feature>, steps: &Vec<Step>) -> (moved: Result<
        StepMove,
        StepError,
    >)
        ensures
            moved matches Err(StepError::InvalidPosition(p)) ==> position <= 0 && p == position,
            moved is Ok ==> position > 0,
            moved matches Ok(m) ==> feature is None ==> m.updates@.len() == 0 && m.steps@.len() == 0,
            moved matches Ok(m) ==> feature matches Some(f) ==> m.updates@ == move_updates(steps@, *step, position, f.id),
            moved matches Ok(m) ==> sorted_by_position(m.steps@),
            moved matches Ok(m) ==> feature matches Some(f) ==> m.steps@.to_multiset() =~= rows_of_feature(
                steps@.map_values(|r: Step| moved_row(r, *step, position)),
                f.id,
            ).to_multiset(),
            moved matches Ok(m) ==> forall|i: int, j: int|
                0 <= i <= j < m.steps@.len() ==> m.steps@[i].position <= m.steps@[j].position,
            moved matches Ok(m) ==> feature matches Some(f) ==> m.steps@.to_multiset() =~= steps@.map_values(
                |r: Step| moved_row(r, *step, position),
            ).filter(|r: Step| r.feature_id == f.id).to_multiset(),
    {
        if position <= 0 {
            return Err(StepError::InvalidPosition(position));
        }
        let target = match feature {
            None => {
                return Ok(StepMove { updates: Vec::new(), steps: Vec::new() });
            },
            Some(f) => f,
        };
        let from = step.position;
        let mut updates: Vec<PositionUpdate> = Vec::new();
        let mut moved: Vec<Step> = Vec::new();
        let mut i: usize = 0;
        while i < steps.len()
            invariant
                i <= steps@.len(),
                from == step.position,
                moved@ =~= steps@.take(i as int).map_values(|r: Step| moved_row(r, *step, position)),
                updates@ == shift_updates(steps@.take(i as int), *step, position, target.id),
                from == position ==> updates@.len() == 0,
            decreases steps@.len() - i,
        {
            let ghost prefix = steps@.take(i + 1);
            assert(prefix.drop_last() =~= steps@.take(i as int));
            assert(prefix.last() == steps@[i as int]);
            let mut row = steps[i].clone();
            let p = row.position;
            let q = if from < position && from < p && p <= position {
                p - 1
            } else if position < from && position <= p && p < from {
                p + 1
            } else {
                p
            };
            if from != position {
                if row.id == step.id {
                    row.position = position;
                } else {
                    row.position = q;
                }
            }
            if row.feature_id == target.id && row.id != step.id && q != p {
                updates.push(PositionUpdate { id: row.id, position: q });
            }
            moved.push(row);
            i = i + 1;
        }
        assert(steps@.take(steps@.len() as int) =~= steps@);
        if from != position {
            updates.push(PositionUpdate { id: step.id, position });
        }
        let ordered = Step::all_by_feature(target, &moved);
        proof {
            lemma_rows_of_feature_is_filter(
                steps@.map_values(|r: Step| moved_row(r, *step, position)),
                target.id,
            );
        }
        Ok(StepMove { updates, steps: ordered })
    }

    /// The row to store for `new_step`: at the position it asks for, or after
    /// the feature's last step among `steps`; refused when that position is
    /// not above 0. The slug is the kebab case of the step's type and value.
    pub fn new(new_step: NewStep, steps: &Vec<Step>) -> (row: Result<NewStepInner, StepError>)
        requires
            new_step.position is None ==> below_top(steps@, new_step.feature.id),
        ensures
            match row {
                Ok(inner) => {
                    &&& chosen_position(new_step, steps@) > 0
                    &&& inner.position == chosen_position(new_step, steps@)
                    &&& inner.slug@ == step_slug(new_step.step_type@, new_step.value@)
                    &&& inner.slug@ == kebab_case(new_step.step_type@ + seq![' '] + new_step.value@)
                    &&& inner.feature_id == new_step.feature.id
                    &&& inner.creator_id == new_step.creator.id
                    &&& inner.step_type@ == new_step.step_type@
                    &&& inner.value@ == new_step.value@
                },
                Err(StepError::InvalidPosition(p)) => {
                    &&& chosen_position(new_step, steps@) <= 0
                    &&& p == chosen_position(new_step, steps@)
                },
            },
            new_step.position matches Some(asked) ==> (row matches Ok(inner) ==> inner.position == asked),
            new_step.position matches Some(asked) ==> (row is Err <==> asked <= 0),
            new_step.position is None ==> (row matches Ok(inner) ==> inner.position == next_position_of(
                steps@,
                new_step.feature.id,
            )),
            new_step.position is None ==> (row is Err <==> next_position_of(steps@, new_step.feature.id) <= 0),
    {
        let position = match new_step.position {
            Some(v) => v,
            None => Step::next_position(new_step.feature, steps),
        };
        if position <= 0 {
            return Err(StepError::InvalidPosition(position));
        }
        let mut text = String::new();
        text.append(new_step.step_type.as_str());
        text.append(" ");
        text.append(new_step.value.as_str());
        proof {
            reveal_strlit(" ");
            assert(" "@ =~= seq![' ']);
            assert(text@ =~= new_step.step_type@ + seq![' '] + new_step.value@);
        }
        let slug = to_kebab_case(text.as_str());
        Ok(NewStepInner {
            slug,
            feature_id: new_step.feature.id,
            creator_id: new_step.creator.id,
            step_type: new_step.step_type,
            value: new_step.value,
            position,
        })
    }

    /// The steps of `feature` among `steps`, in ascending order of position.
    /// Steps of equal position may come in any order.
    pub fn all_by_feature(feature: &Feature, steps: &Vec<Step>) -> (ordered: Vec<Step>)
        ensures
            sorted_by_position(ordered@),
            ordered@.to_multiset() =~= rows_of_feature(steps@, feature.id).to_multiset(),
            forall|i: int, j: int| 0 <= i <= j < ordered@.len() ==> ordered@[i].position <= ordered@[j].position,
            ordered@.to_multiset() =~= steps@.filter(|r: Step| r.feature_id == feature.id).to_multiset(),
    {
        broadcast use group_to_multiset_ensures;

        let mut ordered: Vec<Step> = Vec::new();
        let mut i: usize = 0;
        while i < steps.len()
            invariant
                i <= steps@.len(),
                sorted_by_position(ordered@),
                ordered@.to_multiset() =~= rows_of_feature(steps@.take(i as int), feature.id).to_multiset(),
            decreases steps@.len() - i,
        {
            let ghost prefix = steps@.take(i + 1);
            assert(prefix.drop_last() =~= steps@.take(i as int));
            assert(prefix.last() == steps@[i as int]);
            if steps[i].feature_id == feature.id {
                assert(rows_of_feature(prefix, feature.id) == rows_of_feature(
                    steps@.take(i as int),
                    feature.id,
                ).push(steps@[i as int]));
                proof {
                    vstd::seq_lib::to_multiset_build(rows_of_feature(steps@.take(i as int), feature.id), steps@[i as int]);
                }
                insert_by_position(&mut ordered, steps[i].clone());
            } else {
                assert(rows_of_feature(prefix, feature.id) == rows_of_feature(
                    steps@.take(i as int),
                    feature.id,
                ));
            }
            i = i + 1;
        }
        assert(steps@.take(steps@.len() as int) =~= steps@);
        proof {
            lemma_rows_of_feature_is_filter(steps@, feature.id);
        }
        ordered
    }
}

/// Moving preserves which rows belong to a feature: filtering the moved rows
/// is moving the filtered rows.
pub proof fn lemma_moved_rows_of_feature(rows: Seq<Step>, step: Step, to: i32, feature_id: i32)
    ensures
        rows_of_feature(rows.map_values(|r: Step| moved_row(r, step, to)), feature_id) =~= rows_of_feature(
            rows,
            feature_id,
        ).map_values(|r: Step| moved_row(r, step, to)),
    decreases rows.len(),
{
    if rows.len() > 0 {
        let g = |r: Step| moved_row(r, step, to);
        assert(rows.map_values(g).drop_last() =~= rows.drop_last().map_values(g));
        lemma_moved_rows_of_feature(rows.drop_last(), step, to, feature_id);
    }
}

/// The positions of a feature's `n` steps are exactly 1 to `n`, and its steps
/// have distinct ids.
pub open spec fn numbered_in_order(steps: Seq<Step>) -> bool {
    &&& forall|i: int| 0 <= i < steps.len() ==> 1 <= #[trigger] steps[i].position <= steps.len()
    &&& forall|i: int, j: int|
        0 <= i < steps.len() && 0 <= j < steps.len() && i != j ==> steps[i].position != steps[j].position
    &&& forall|i: int, j: int|
        0 <= i < steps.len() && 0 <= j < steps.len() && i != j ==> steps[i].id != steps[j].id
}

/// Reordering keeps a feature numbered 1 to n: when the steps of a feature are
/// numbered 1 to `n` and `step` is one of them, moving it to a position `to`
/// between 1 and `n` leaves the steps numbered 1 to `n`, puts `step` at `to`
/// and keeps the order of every other two steps.
pub proof fn lemma_move_keeps_numbering(rows: Seq<Step>, step: Step, to: i32, feature_id: i32)
    requires
        numbered_in_order(rows_of_feature(rows, feature_id)),
        exists|k: int|
            0 <= k < rows_of_feature(rows, feature_id).len() && #[trigger] rows_of_feature(
                rows,
                feature_id,
            )[k].id == step.id && rows_of_feature(rows, feature_id)[k].position == step.position,
        1 <= to <= rows_of_feature(rows, feature_id).len(),
    ensures
        ({
            let before = rows_of_feature(rows, feature_id);
            let after = rows_of_feature(rows.map_values(|r: Step| moved_row(r, step, to)), feature_id);
            &&& after.len() == before.len()
            &&& numbered_in_order(after)
            &&& forall|i: int| 0 <= i < before.len() ==> #[trigger] after[i].id == before[i].id
            &&& forall|i: int| 0 <= i < before.len() && before[i].id == step.id ==> #[trigger] after[i].position == to
            &&& forall|i: int, j: int|
                0 <= i < before.len() && 0 <= j < before.len() && before[i].id != step.id && before[j].id
                    != step.id && before[i].position < before[j].position ==> #[trigger] after[i].position
                    < #[trigger] after[j].position
        }),
{
    let before = rows_of_feature(rows, feature_id);
    lemma_moved_rows_of_feature(rows, step, to, feature_id);
    let after = rows_of_feature(rows.map_values(|r: Step| moved_row(r, step, to)), feature_id);
    let n = before.len();
    let k = choose|k: int| 0 <= k < n && #[trigger] before[k].id == step.id && before[k].position == step.position;
    assert forall|i: int| 0 <= i < n implies #[trigger] after[i] == moved_row(before[i], step, to) by {}
    assert forall|i: int| 0 <= i < n && i != k implies before[i].id != step.id && before[i].position
        != step.position by {}
    assert forall|i: int| 0 <= i < n implies 1 <= #[trigger] after[i].position <= after.len() by {
        assert(after[i] == moved_row(before[i], step, to));
    }
    assert forall|i: int, j: int| 0 <= i < n && 0 <= j < n && i != j implies after[i].position
        != after[j].position && after[i].id != after[j].id by {
        assert(after[i] == moved_row(before[i], step, to));
        assert(after[j] == moved_row(before[j], step, to));
    }
    assert forall|i: int, j: int|
        0 <= i < n && 0 <= j < n && before[i].id != step.id && before[j].id != step.id && before[i].position
            < before[j].position implies #[trigger] after[i].position < #[trigger] after[j].position by {
        assert(after[i] == moved_row(before[i], step, to));
        assert(after[j] == moved_row(before[j], step, to));
    }
}

proof fn lemma_highest_position_bounds(rows: Seq<Step>, feature_id: i32)
    ensures
        highest_position(rows, feature_id) is None <==> forall|i: int|
            0 <= i < rows.len() ==> #[trigger] rows[i].feature_id != feature_id,
        highest_position(rows, feature_id) matches Some(h) ==> forall|i: int|
            0 <= i < rows.len() && rows[i].feature_id == feature_id ==> #[trigger] rows[i].position <= h,
        highest_position(rows, feature_id) matches Some(h) ==> exists|i: int|
            0 <= i < rows.len() && #[trigger] rows[i].feature_id == feature_id && rows[i].position == h,
    decreases rows.len(),
{
    if rows.len() > 0 {
        let rest = rows.drop_last();
        lemma_highest_position_bounds(rest, feature_id);
        assert forall|i: int| 0 <= i < rows.len() - 1 implies #[trigger] rows[i] == rest[i] by {}
        if let Some(h) = highest_position(rest, feature_id) {
            let k = choose|k: int| 0 <= k < rest.len() && #[trigger] rest[k].feature_id == feature_id && rest[k].position == h;
            assert(rows[k] == rest[k]);
        }
        assert(rows[rows.len() - 1] == rows.last());
    }
}

/// A step added without a position goes after every step of its feature: the
/// next position is above the position of each of the feature's steps, and it
/// is 1 for a feature without steps, and one more than the position of some
/// step of the feature otherwise. (`Step::new` refuses the step when that
/// position is not above 0, which happens only when every step of the feature
/// sits below 0.)
pub proof fn lemma_next_position_after_all(rows: Seq<Step>, feature_id: i32)
    ensures
        forall|i: int|
            0 <= i < rows.len() && rows[i].feature_id == feature_id ==> #[trigger] rows[i].position
                < next_position_of(rows, feature_id),
        (forall|i: int| 0 <= i < rows.len() ==> #[trigger] rows[i].feature_id != feature_id) ==> next_position_of(
            rows,
            feature_id,
        ) == 1,
        (exists|i: int| 0 <= i < rows.len() && #[trigger] rows[i].feature_id == feature_id) ==> exists|i: int|
            0 <= i < rows.len() && #[trigger] rows[i].feature_id == feature_id && rows[i].position + 1
                == next_position_of(rows, feature_id),
{
    lemma_highest_position_bounds(rows, feature_id);
}

proof fn lemma_count_at_most_one(g: Seq<Step>, a: int)
    requires
        0 <= a < g.len(),
        forall|i: int, j: int| 0 <= i < g.len() && 0 <= j < g.len() && i != j ==> g[i].position != g[j].position,
    ensures
        g.to_multiset().count(g[a]) == 1,
{
    broadcast use group_to_multiset_ensures;

    let x = g[a];
    let h = g.remove(a);
    assert forall|i: int| 0 <= i < h.len() implies #[trigger] h[i] != x by {
        if i < a {
            assert(h[i] == g[i]);
        } else {
            assert(h[i] == g[i + 1]);
        }
    }
    assert(!h.contains(x));
    assert(h.to_multiset().count(x) == 0);
}

proof fn lemma_distinct_positions_of_permutation(r: Seq<Step>, g: Seq<Step>)
    requires
        r.to_multiset() =~= g.to_multiset(),
        forall|i: int, j: int| 0 <= i < g.len() && 0 <= j < g.len() && i != j ==> g[i].position != g[j].position,
    ensures
        r.len() == g.len(),
        forall|i: int| 0 <= i < r.len() ==> g.contains(#[trigger] r[i]),
        forall|i: int, j: int| 0 <= i < r.len() && 0 <= j < r.len() && i != j ==> r[i].position != r[j].position,
{
    broadcast use group_to_multiset_ensures;

    assert(r.to_multiset().len() == g.to_multiset().len());
    assert forall|i: int| 0 <= i < r.len() implies g.contains(#[trigger] r[i]) by {
        assert(r.contains(r[i]));
        assert(g.to_multiset().count(r[i]) > 0);
    }
    assert forall|i: int, j: int| 0 <= i < r.len() && 0 <= j < r.len() && i != j implies r[i].position
        != r[j].position by {
        assert(g.contains(r[i]));
        assert(g.contains(r[j]));
        let a = choose|a: int| 0 <= a < g.len() && g[a] == r[i];
        let b = choose|b: int| 0 <= b < g.len() && g[b] == r[j];
        if r[i] == r[j] {
            lemma_count_at_most_one(g, a);
            let t = r.remove(i);
            if j < i {
                assert(t[j] == r[j]);
            } else {
                assert(t[j - 1] == r[j]);
            }
            assert(t.contains(r[i]));
            assert(t.to_multiset().count(r[i]) > 0);
            assert(r.to_multiset().count(r[i]) >= 2);
        } else {
            assert(a != b);
        }
    }
}

proof fn lemma_increasing_from(r: Seq<Step>, k: int)
    requires
        0 <= k < r.len(),
        forall|i: int| 0 <= i < r.len() ==> 1 <= #[trigger] r[i].position <= r.len(),
        forall|i: int, j: int| 0 <= i < j < r.len() ==> r[i].position < r[j].position,
    ensures
        r[k].position >= k + 1,
        r[k].position <= k + 1,
    decreases r.len() - k,
{
    if k > 0 {
        lemma_increasing_from_below(r, k);
    }
    if k < r.len() - 1 {
        lemma_increasing_from(r, k + 1);
        assert(r[k].position < r[k + 1].position);
    }
}

proof fn lemma_increasing_from_below(r: Seq<Step>, k: int)
    requires
        0 <= k < r.len(),
        forall|i: int| 0 <= i < r.len() ==> 1 <= #[trigger] r[i].position <= r.len(),
        forall|i: int, j: int| 0 <= i < j < r.len() ==> r[i].position < r[j].position,
    ensures
        r[k].position >= k + 1,
    decreases k,
{
    if k > 0 {
        lemma_increasing_from_below(r, k - 1);
        assert(r[k - 1].position < r[k].position);
    }
}

/// Listing a feature after a move shows it numbered in order: when the steps
/// of a feature are numbered 1 to `n`, `step` is one of them and it is moved to
/// `to` between 1 and `n`, any listing of the moved steps in ascending order of
/// position (what `move_to` answers) has the step at index `k` at position
/// `k + 1`, and `step` at index `to - 1`.
pub proof fn lemma_move_listing_numbered(rows: Seq<Step>, step: Step, to: i32, feature_id: i32, listing: Seq<Step>)
    requires
        numbered_in_order(rows_of_feature(rows, feature_id)),
        exists|k: int|
            0 <= k < rows_of_feature(rows, feature_id).len() && #[trigger] rows_of_feature(
                rows,
                feature_id,
            )[k].id == step.id && rows_of_feature(rows, feature_id)[k].position == step.position,
        1 <= to <= rows_of_feature(rows, feature_id).len(),
        sorted_by_position(listing),
        listing.to_multiset() =~= rows_of_feature(
            rows.map_values(|r: Step| moved_row(r, step, to)),
            feature_id,
        ).to_multiset(),
    ensures
        listing.len() == rows_of_feature(rows, feature_id).len(),
        forall|k: int| 0 <= k < listing.len() ==> #[trigger] listing[k].position == k + 1,
        listing[to - 1].id == step.id,
{
    lemma_move_keeps_numbering(rows, step, to, feature_id);
    let before = rows_of_feature(rows, feature_id);
    let after = rows_of_feature(rows.map_values(|r: Step| moved_row(r, step, to)), feature_id);
    lemma_distinct_positions_of_permutation(listing, after);
    let n = listing.len();
    assert forall|i: int| 0 <= i < n implies 1 <= #[trigger] listing[i].position <= n by {
        assert(after.contains(listing[i]));
        let a = choose|a: int| 0 <= a < after.len() && after[a] == listing[i];
        assert(1 <= after[a].position <= after.len());
    }
    assert forall|i: int, j: int| 0 <= i < j < n implies listing[i].position < listing[j].position by {
        assert(listing[i].position <= listing[j].position);
    }
    assert forall|k: int| 0 <= k < n implies #[trigger] listing[k].position == k + 1 by {
        lemma_increasing_from(listing, k);
    }
    let m = to - 1;
    assert(listing[m].position == to);
    assert(after.contains(listing[m]));
    let a = choose|a: int| 0 <= a < after.len() && after[a] == listing[m];
    let km = choose|k: int| 0 <= k < before.len() && #[trigger] before[k].id == step.id && before[k].position
        == step.position;
    assert(after[km].position == to);
    assert(a == km);
    assert(after[a].id == before[a].id);
}

/// Moving a step to the position it holds changes nothing: no position is
/// written and every row stays as it is.
pub proof fn lemma_move_in_place_changes_nothing(rows: Seq<Step>, step: Step, feature_id: i32)
    ensures
        move_updates(rows, step, step.position, feature_id).len() == 0,
        rows.map_values(|r: Step| moved_row(r, step, step.position)) =~= rows,
{
}

/// `row` after the position changes `updates` have been stored in order: each
/// change whose id is the row's sets its position, the last one winning.
pub open spec fn updated_row(row: Step, updates: Seq<PositionUpdate>) -> Step
    decreases updates.len(),
{
    if updates.len() == 0 {
        row
    } else {
        let earlier = updated_row(row, updates.drop_last());
        if updates.last().id == row.id {
            Step { position: updates.last().position, ..earlier }
        } else {
            earlier
        }
    }
}

/// The stored rows after the position changes `updates` have been stored.
pub open spec fn apply_updates(rows: Seq<Step>, updates: Seq<PositionUpdate>) -> Seq<Step> {
    rows.map_values(|r: Step| updated_row(r, updates))
}

/// No two rows share an id, as the store's primary key ensures.
pub open spec fn ids_unique(rows: Seq<Step>) -> bool {
    forall|i: int, j: int| 0 <= i < rows.len() && 0 <= j < rows.len() && i != j ==> rows[i].id != rows[j].id
}

proof fn lemma_updated_row_keeps(row: Step, updates: Seq<PositionUpdate>)
    ensures
        updated_row(row, updates) == (Step { position: updated_row(row, updates).position, ..row }),
    decreases updates.len(),
{
    if updates.len() > 0 {
        lemma_updated_row_keeps(row, updates.drop_last());
    }
}

proof fn lemma_updated_row_push(row: Step, updates: Seq<PositionUpdate>, u: PositionUpdate)
    ensures
        updated_row(row, updates.push(u)) == (if u.id == row.id {
            Step { position: u.position, ..updated_row(row, updates) }
        } else {
            updated_row(row, updates)
        }),
{
    assert(updates.push(u).drop_last() =~= updates);
}

proof fn lemma_shift_updates_touch(rows: Seq<Step>, step: Step, to: i32, feature_id: i32, row: Step)
    requires
        ids_unique(rows),
        forall|i: int| 0 <= i < rows.len() ==> #[trigger] rows[i].id != row.id || rows[i] == row,
    ensures
        updated_row(row, shift_updates(rows, step, to, feature_id)) == (if rows.contains(row) && row.feature_id
            == feature_id && row.id != step.id {
            Step {
                position: shifted_position(row.position as int, step.position as int, to as int) as i32,
                ..row
            }
        } else {
            row
        }),
    decreases rows.len(),
{
    if rows.len() > 0 {
        let rest = rows.drop_last();
        let last = rows.last();
        assert forall|i: int| 0 <= i < rest.len() implies #[trigger] rest[i].id != row.id || rest[i] == row by {
            assert(rest[i] == rows[i]);
        }
        assert forall|i: int, j: int| 0 <= i < rest.len() && 0 <= j < rest.len() && i != j implies rest[i].id
            != rest[j].id by {
            assert(rest[i] == rows[i]);
            assert(rest[j] == rows[j]);
        }
        lemma_shift_updates_touch(rest, step, to, feature_id, row);
        let p = shifted_position(last.position as int, step.position as int, to as int);
        if last.feature_id == feature_id && last.id != step.id && p != last.position {
            lemma_updated_row_push(
                row,
                shift_updates(rest, step, to, feature_id),
                PositionUpdate { id: last.id, position: p as i32 },
            );
        }
        if last == row {
            if rest.contains(row) {
                let k = choose|k: int| 0 <= k < rest.len() && rest[k] == row;
                assert(rows[k] == row && rows[rows.len() - 1] == row);
            }
        } else {
            assert(last.id != row.id);
            if rows.contains(row) {
                let k = choose|k: int| 0 <= k < rows.len() && rows[k] == row;
                assert(k != rows.len() - 1);
                assert(rest[k] == row);
            }
        }
    }
}

/// Storing the position changes of a move stores the moved rows: when no two
/// rows share an id, applying `move_updates` to the rows changes each step of
/// the feature exactly as `moved_row` does, so the feature's rows afterwards
/// are the ones `move_to` lists; rows of other features are left as they are,
/// but for the moved step's own row.
pub proof fn lemma_stored_move_is_listed_move(rows: Seq<Step>, step: Step, to: i32, feature_id: i32)
    requires
        ids_unique(rows),
    ensures
        forall|i: int|
            0 <= i < rows.len() && rows[i].feature_id == feature_id ==> #[trigger] apply_updates(
                rows,
                move_updates(rows, step, to, feature_id),
            )[i] == moved_row(rows[i], step, to),
        rows_of_feature(apply_updates(rows, move_updates(rows, step, to, feature_id)), feature_id)
            == rows_of_feature(rows.map_values(|r: Step| moved_row(r, step, to)), feature_id),
        forall|i: int|
            0 <= i < rows.len() && rows[i].feature_id != feature_id && rows[i].id != step.id ==> #[trigger] apply_updates(
                rows,
                move_updates(rows, step, to, feature_id),
            )[i] == rows[i],
{
    let updates = move_updates(rows, step, to, feature_id);
    let stored = apply_updates(rows, updates);
    let moved = rows.map_values(|r: Step| moved_row(r, step, to));
    assert forall|i: int| 0 <= i < rows.len() && rows[i].feature_id == feature_id implies #[trigger] stored[i]
        == moved[i] by {
        let row = rows[i];
        assert forall|j: int| 0 <= j < rows.len() implies #[trigger] rows[j].id != row.id || rows[j] == row by {
            if j != i {
                assert(rows[j].id != rows[i].id);
            }
        }
        lemma_shift_updates_touch(rows, step, to, feature_id, row);
        assert(rows.contains(row));
        if step.position == to {
            assert(updates =~= Seq::<PositionUpdate>::empty());
        } else {
            lemma_updated_row_push(
                row,
                shift_updates(rows, step, to, feature_id),
                PositionUpdate { id: step.id, position: to },
            );
        }
    }
    assert forall|i: int| 0 <= i < rows.len() && rows[i].feature_id != feature_id && rows[i].id != step.id implies #[trigger] stored[i]
        == rows[i] by {
        let row = rows[i];
        assert forall|j: int| 0 <= j < rows.len() implies #[trigger] rows[j].id != row.id || rows[j] == row by {
            if j != i {
                assert(rows[j].id != rows[i].id);
            }
        }
        lemma_shift_updates_touch(rows, step, to, feature_id, row);
        if step.position == to {
            assert(updates =~= Seq::<PositionUpdate>::empty());
        } else {
            lemma_updated_row_push(
                row,
                shift_updates(rows, step, to, feature_id),
                PositionUpdate { id: step.id, position: to },
            );
        }
    }
    assert forall|i: int| 0 <= i < rows.len() implies #[trigger] stored[i].feature_id == moved[i].feature_id by {
        lemma_updated_row_keeps(rows[i], updates);
    }
    lemma_rows_of_feature_agree(stored, moved, feature_id);
}

proof fn lemma_rows_of_feature_agree(a: Seq<Step>, b: Seq<Step>, feature_id: i32)
    requires
        a.len() == b.len(),
        forall|i: int| 0 <= i < a.len() ==> #[trigger] a[i].feature_id == b[i].feature_id,
        forall|i: int| 0 <= i < a.len() && a[i].feature_id == feature_id ==> #[trigger] a[i] == b[i],
    ensures
        rows_of_feature(a, feature_id) == rows_of_feature(b, feature_id),
    decreases a.len(),
{
    if a.len() > 0 {
        let ra = a.drop_last();
        let rb = b.drop_last();
        assert forall|i: int| 0 <= i < ra.len() implies #[trigger] ra[i].feature_id == rb[i].feature_id by {
            assert(ra[i] == a[i] && rb[i] == b[i]);
        }
        assert forall|i: int| 0 <= i < ra.len() && ra[i].feature_id == feature_id implies #[trigger] ra[i]
            == rb[i] by {
            assert(ra[i] == a[i] && rb[i] == b[i]);
        }
        lemma_rows_of_feature_agree(ra, rb, feature_id);
        assert(a.last().feature_id == b.last().feature_id);
    }
}

/// Moving a step and moving it back restores the feature: when the steps of a
/// feature have distinct ids and distinct positions and `step` is one of them,
/// moving it to `to` and then moving it (now at `to`) back to its old position
/// gives every step of the feature its old row. (`Step::move_to` refuses either
/// move when its target is not above 0.)
pub proof fn lemma_move_back_restores(rows: Seq<Step>, step: Step, to: i32, feature_id: i32)
    requires
        ids_unique(rows_of_feature(rows, feature_id)),
        forall|i: int, j: int|
            0 <= i < rows_of_feature(rows, feature_id).len() && 0 <= j < rows_of_feature(rows, feature_id).len()
                && i != j ==> rows_of_feature(rows, feature_id)[i].position != rows_of_feature(
                rows,
                feature_id,
            )[j].position,
        exists|k: int|
            0 <= k < rows_of_feature(rows, feature_id).len() && #[trigger] rows_of_feature(
                rows,
                feature_id,
            )[k].id == step.id && rows_of_feature(rows, feature_id)[k].position == step.position,
    ensures
        ({
            let before = rows_of_feature(rows, feature_id);
            let back = Step { position: to, ..step };
            forall|i: int|
                0 <= i < before.len() ==> moved_row(moved_row(#[trigger] before[i], step, to), back, step.position)
                    == before[i]
        }),
{
    let before = rows_of_feature(rows, feature_id);
    let back = Step { position: to, ..step };
    let k = choose|k: int| 0 <= k < before.len() && #[trigger] before[k].id == step.id && before[k].position
        == step.position;
    assert forall|i: int| 0 <= i < before.len() implies moved_row(moved_row(#[trigger] before[i], step, to), back, step.position)
        == before[i] by {
        let r = before[i];
        if i != k {
            assert(r.id != step.id);
            assert(r.position != step.position);
        }
        let once = moved_row(r, step, to);
        assert(once.id == r.id);
        let twice = moved_row(once, back, step.position);
        assert(twice =~= r);
    }
}

/// The slug of a step is the kebab case of its whole text, type and value
/// joined by one space, with nothing left out.
pub proof fn lemma_step_slug_is_kebab_of_whole_text(step_type: Seq<char>, value: Seq<char>)
    ensures
        step_slug(step_type, value) == kebab_case(step_type + seq![' '] + value),
        (step_type + seq![' '] + value).len() == step_type.len() + 1 + value.len(),
{
}

/// The rows of a feature are exactly the rows whose `feature_id` is the
/// feature's, in their order: the plain filter.
pub proof fn lemma_rows_of_feature_is_filter(rows: Seq<Step>, feature_id: i32)
    ensures
        rows_of_feature(rows, feature_id) == rows.filter(|r: Step| r.feature_id == feature_id),
    decreases rows.len(),
{
    reveal(Seq::filter);
    if rows.len() > 0 {
        lemma_rows_of_feature_is_filter(rows.drop_last(), feature_id);
    }
}

/// A listing of a feature's steps, as `all_by_feature` and `move_to` answer,
/// holds every step of the feature and nothing else: each row of the feature
/// is in it, each of its steps is a row of the feature, and it has as many
/// steps as the feature has rows.
pub proof fn lemma_listing_holds_every_step(listing: Seq<Step>, rows: Seq<Step>, feature_id: i32)
    requires
        listing.to_multiset() =~= rows.filter(|r: Step| r.feature_id == feature_id).to_multiset(),
    ensures
        listing.len() == rows.filter(|r: Step| r.feature_id == feature_id).len(),
        forall|i: int| 0 <= i < rows.len() && rows[i].feature_id == feature_id ==> listing.contains(#[trigger] rows[i]),
        forall|i: int| 0 <= i < listing.len() ==> (#[trigger] listing[i]).feature_id == feature_id && rows.contains(listing[i]),
{
    broadcast use group_to_multiset_ensures;
    broadcast use vstd::seq_lib::group_filter_ensures;

    let pred = |r: Step| r.feature_id == feature_id;
    let kept = rows.filter(pred);
    assert(listing.to_multiset().len() == kept.to_multiset().len());
    assert forall|i: int| 0 <= i < rows.len() && rows[i].feature_id == feature_id implies listing.contains(
        #[trigger] rows[i],
    ) by {
        assert(pred(rows[i]));
        assert(kept.contains(rows[i]));
        assert(kept.to_multiset().count(rows[i]) > 0);
    }
    assert forall|i: int| 0 <= i < listing.len() implies (#[trigger] listing[i]).feature_id == feature_id
        && rows.contains(listing[i]) by {
        assert(listing.contains(listing[i]));
        assert(kept.to_multiset().count(listing[i]) > 0);
        assert(kept.contains(listing[i]));
        rows.lemma_filter_contains_rev(pred, listing[i]);
        let k = choose|k: int| 0 <= k < kept.len() && kept[k] == listing[i];
        assert(pred(kept[k]));
    }
}

/// Where a move puts each row, in plain arithmetic: with `from` the moved
/// step's position, nothing changes when `to == from`; else the moved step
/// (by id) goes to `to`, the rows in `(from, to]` go down by one, the rows in
/// `[to, from)` go up by one, and every other row stays; no other field changes.
pub proof fn lemma_moved_row_positions(row: Step, step: Step, to: i32)
    ensures
        moved_row(row, step, to).id == row.id,
        moved_row(row, step, to).slug == row.slug,
        moved_row(row, step, to).feature_id == row.feature_id,
        moved_row(row, step, to).creator_id == row.creator_id,
        moved_row(row, step, to).step_type == row.step_type,
        moved_row(row, step, to).value == row.value,
        step.position == to ==> moved_row(row, step, to).position == row.position,
        step.position != to && row.id == step.id ==> moved_row(row, step, to).position == to,
        step.position < to && row.id != step.id && step.position < row.position <= to ==> moved_row(
            row,
            step,
            to,
        ).position == row.position - 1,
        to < step.position && row.id != step.id && to <= row.position < step.position ==> moved_row(
            row,
            step,
            to,
        ).position == row.position + 1,
        row.id != step.id && !(step.position < row.position <= to) && !(to <= row.position < step.position)
            ==> moved_row(row, step, to).position == row.position,
{
}

} // verus!
