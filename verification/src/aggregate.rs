//! All-or-nothing aggregation of the areas of a sequence of shapes.

use vstd::prelude::*;
use crate::shape::{Area, AreaError, Shape};

verus! {

/// Every shape of the sequence has an area.
pub open spec fn all_valid(shapes: Seq<Shape>) -> bool {
    forall|i: int| 0 <= i < shapes.len() ==> (#[trigger] shapes[i]).area_spec() is Ok
}

/// The shape at `i` has no area, and every shape before it has one.
pub open spec fn is_first_invalid(shapes: Seq<Shape>, i: int) -> bool {
    &&& 0 <= i < shapes.len()
    &&& shapes[i].area_spec() is Err
    &&& forall|j: int| 0 <= j < i ==> (#[trigger] shapes[j]).area_spec() is Ok
}

/// The area of each shape, in the order of the shapes.
pub open spec fn areas_of(shapes: Seq<Shape>) -> Seq<Area> {
    Seq::new(shapes.len(), |i: int| shapes[i].area_spec()->Ok_0)
}

/// What aggregation owes for `shapes`: the areas of all of them where all are
/// valid, else the error of the first shape that is not.
pub open spec fn aggregates_to(shapes: Seq<Shape>, outcome: Result<Seq<Area>, AreaError>) -> bool {
    match outcome {
        Ok(areas) => all_valid(shapes) && areas == areas_of(shapes),
        Err(e) => exists|i: int| #[trigger]
            is_first_invalid(shapes, i) && shapes[i].area_spec() == Err::<Area, AreaError>(e),
    }
}

/// The outcome of `total_area`, with the areas taken by their view.
pub open spec fn outcome_view(r: Result<Vec<Area>, AreaError>) -> Result<Seq<Area>, AreaError> {
    match r {
        Ok(areas) => Ok(areas@),
        Err(e) => Err(e),
    }
}

/// The terms of the total area of `shapes`, one for each shape in order, or
/// the error of the first shape without an area. The total is the sum of the
/// terms; the empty sequence of terms stands for a total of zero.
pub fn total_area(shapes: &Vec<Shape>) -> (r: Result<Vec<Area>, AreaError>)
    ensures
        aggregates_to(shapes@, outcome_view(r)),
{
    let mut areas: Vec<Area> = Vec::new();
    let mut i: usize = 0;
    while i < shapes.len()
        invariant
            0 <= i <= shapes.len(),
            areas.len() == i,
            forall|j: int| 0 <= j < i ==> (#[trigger] shapes@[j]).area_spec() is Ok,
            forall|j: int| 0 <= j < i ==> #[trigger] areas@[j] == shapes@[j].area_spec()->Ok_0,
        decreases shapes.len() - i,
    {
        match shapes[i].area() {
            Ok(area) => {
                areas.push(area);
            },
            Err(e) => {
                assert(is_first_invalid(shapes@, i as int));
                return Err(e);
            },
        }
        i += 1;
    }
    assert(areas@ =~= areas_of(shapes@));
    Ok(areas)
}

/// At most one index is that of the first shape without an area.
pub proof fn lemma_first_invalid_unique(shapes: Seq<Shape>, i: int, j: int)
    requires
        is_first_invalid(shapes, i),
        is_first_invalid(shapes, j),
    ensures
        i == j,
{
    if i < j {
        assert(shapes[i].area_spec() is Ok);
    } else if j < i {
        assert(shapes[j].area_spec() is Ok);
    }
}

/// Aggregation has exactly one outcome for a sequence of shapes: two runs on
/// the same sequence give the same result.
pub proof fn lemma_total_area_deterministic(
    shapes: Seq<Shape>,
    first: Result<Seq<Area>, AreaError>,
    second: Result<Seq<Area>, AreaError>,
)
    requires
        aggregates_to(shapes, first),
        aggregates_to(shapes, second),
    ensures
        first == second,
{
    match (first, second) {
        (Ok(_), Ok(_)) => {},
        (Err(e1), Err(e2)) => {
            let i = choose|i: int| #[trigger]
                is_first_invalid(shapes, i) && shapes[i].area_spec() == Err::<Area, AreaError>(e1);
            let j = choose|j: int| #[trigger]
                is_first_invalid(shapes, j) && shapes[j].area_spec() == Err::<Area, AreaError>(e2);
            lemma_first_invalid_unique(shapes, i, j);
        },
        (Ok(_), Err(e)) => {
            let i = choose|i: int| #[trigger]
                is_first_invalid(shapes, i) && shapes[i].area_spec() == Err::<Area, AreaError>(e);
            assert(shapes[i].area_spec() is Ok);
        },
        (Err(e), Ok(_)) => {
            let i = choose|i: int| #[trigger]
                is_first_invalid(shapes, i) && shapes[i].area_spec() == Err::<Area, AreaError>(e);
            assert(shapes[i].area_spec() is Ok);
        },
    }
}

/// Some outcome is owed for every sequence of shapes.
pub proof fn lemma_total_area_exists(shapes: Seq<Shape>) -> (outcome: Result<Seq<Area>, AreaError>)
    ensures
        aggregates_to(shapes, outcome),
        outcome is Ok <==> all_valid(shapes),
{
    if all_valid(shapes) {
        Ok(areas_of(shapes))
    } else {
        let k = choose|k: int| 0 <= k < shapes.len() && !((#[trigger] shapes[k]).area_spec() is Ok);
        let i = lemma_least_invalid(shapes, k);
        Err(shapes[i].area_spec()->Err_0)
    }
}

/// Below any shape without an area stands a first one.
pub proof fn lemma_least_invalid(shapes: Seq<Shape>, k: int) -> (i: int)
    requires
        0 <= k < shapes.len(),
        shapes[k].area_spec() is Err,
    ensures
        is_first_invalid(shapes, i),
        i <= k,
    decreases k,
{
    if exists|j: int| 0 <= j < k && (#[trigger] shapes[j]).area_spec() is Err {
        let j = choose|j: int| 0 <= j < k && (#[trigger] shapes[j]).area_spec() is Err;
        lemma_least_invalid(shapes, j)
    } else {
        assert forall|j: int| 0 <= j < k implies (#[trigger] shapes[j]).area_spec() is Ok by {
            if shapes[j].area_spec() is Err {
                assert(false);
            }
        }
        k
    }
}

/// One shape without an area makes the whole aggregation fail, with the
/// error of the first such shape, whatever shapes stand behind it.
pub proof fn lemma_failure_ignores_rest(
    valid: Seq<Shape>,
    failing: Shape,
    rest: Seq<Shape>,
    outcome: Result<Seq<Area>, AreaError>,
)
    requires
        all_valid(valid),
        failing.area_spec() is Err,
        aggregates_to(valid.push(failing) + rest, outcome),
    ensures
        outcome == Err::<Seq<Area>, AreaError>(failing.area_spec()->Err_0),
{
    let shapes = valid.push(failing) + rest;
    let at = valid.len() as int;
    assert(shapes[at] == failing);
    assert forall|j: int| 0 <= j < at implies (#[trigger] shapes[j]).area_spec() is Ok by {
        assert(shapes[j] == valid[j]);
    }
    assert(is_first_invalid(shapes, at));
    let expected = Err::<Seq<Area>, AreaError>(failing.area_spec()->Err_0);
    assert(aggregates_to(shapes, expected));
    lemma_total_area_deterministic(shapes, outcome, expected);
}

/// A sequence that holds a shape without an area has no total area.
pub proof fn lemma_any_invalid_fails(
    shapes: Seq<Shape>,
    k: int,
    outcome: Result<Seq<Area>, AreaError>,
)
    requires
        0 <= k < shapes.len(),
        shapes[k].area_spec() is Err,
        aggregates_to(shapes, outcome),
    ensures
        outcome is Err,
{
}

/// Of no shapes the total is the empty sum.
pub proof fn lemma_empty_total(outcome: Result<Seq<Area>, AreaError>)
    requires
        aggregates_to(Seq::<Shape>::empty(), outcome),
    ensures
        outcome == Ok::<Seq<Area>, AreaError>(Seq::<Area>::empty()),
{
    if let Ok(areas) = outcome {
        assert(areas =~= Seq::<Area>::empty());
    }
}

} // verus!
