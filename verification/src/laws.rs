//! What holds of every request that is served from a table, whatever the
//! table holds.

use crate::errors::{WebdevError, WebdevErrorKind};
use crate::models::{
    Department, DepartmentRequestView, DepartmentResponseView, DepartmentView, NewDepartmentView,
    PartialDepartmentView, SearchDepartmentsView,
};
use crate::query::{admits, department_row, id_filter, Column, Record};
use crate::requests::{
    department_filters, department_matches, first_department_step, lemma_department_filters,
    DepartmentCommandView,
};
use crate::search::Search;
use crate::sequences::{
    lemma_filter_all, lemma_filter_member, lemma_filter_none, lemma_filter_one, lemma_filter_same,
    lemma_filter_within,
};
use crate::store::{lemma_after_well_formed, served, settled, DepartmentsState};
use vstd::prelude::*;

verus! {

/// The departments of a table that meet every criterion of a search, oldest first.
pub open spec fn matching(state: DepartmentsState, search: SearchDepartmentsView) -> Seq<
    DepartmentView,
> {
    state.rows.filter(|row: DepartmentView| department_matches(search, row))
}

/// A search leaves the table as it is and finds exactly the rows that meet
/// every one of its criteria.
pub proof fn lemma_search(state: DepartmentsState, search: SearchDepartmentsView)
    ensures
        served(state, DepartmentRequestView::SearchDepartments(search)) == (
            state,
            Ok::<DepartmentResponseView, WebdevError>(
                DepartmentResponseView::ManyDepartments(matching(state, search)),
            ),
        ),
{
    reveal_with_fuel(settled, 3);
    let filters = department_filters(search);
    assert forall|i: int| 0 <= i < state.rows.len() implies admits(
        filters,
        Department::row_of(#[trigger] state.rows[i]),
    ) == department_matches(search, state.rows[i]) by {
        lemma_department_filters(search, state.rows[i]);
    }
    lemma_filter_same(
        state.rows,
        |row: DepartmentView| admits(filters, Department::row_of(row)),
        |row: DepartmentView| department_matches(search, row),
    );
}

/// A lookup by id leaves the table as it is. It gives the row that has the
/// id, and `NotFound` where no row has it.
pub proof fn lemma_get(state: DepartmentsState, id: u64)
    requires
        state.well_formed(),
    ensures
        served(state, DepartmentRequestView::GetDepartment(id)).0 == state,
        forall|i: int|
            0 <= i < state.rows.len() && (#[trigger] state.rows[i]).id == id ==> served(
                state,
                DepartmentRequestView::GetDepartment(id),
            ).1 == Ok::<DepartmentResponseView, WebdevError>(
                DepartmentResponseView::OneDepartment(state.rows[i]),
            ),
        (forall|i: int| 0 <= i < state.rows.len() ==> (#[trigger] state.rows[i]).id != id)
            ==> served(state, DepartmentRequestView::GetDepartment(id)).1 == Err::<
            DepartmentResponseView,
            WebdevError,
        >(WebdevError { kind: WebdevErrorKind::NotFound }),
{
    reveal_with_fuel(settled, 3);
    let filters = id_filter(Column::DepartmentId, id);
    let keep = |row: DepartmentView| admits(filters, Department::row_of(row));
    assert forall|row: DepartmentView| #[trigger] keep(row) == (row.id == id) by {
        assert(filters[0].condition.holds(department_row(row)(filters[0].column)) == (row.id
            == id));
    }
    if forall|i: int| 0 <= i < state.rows.len() ==> (#[trigger] state.rows[i]).id != id {
        assert forall|i: int| 0 <= i < state.rows.len() implies !keep(#[trigger] state.rows[i]) by {
            assert(keep(state.rows[i]) == (state.rows[i].id == id));
        }
        lemma_filter_none(state.rows, keep);
    } else {
        let at = choose|i: int| 0 <= i < state.rows.len() && (#[trigger] state.rows[i]).id == id;
        assert forall|i: int| 0 <= i < state.rows.len() implies keep(#[trigger] state.rows[i]) == (i
            == at) by {
            assert(keep(state.rows[i]) == (state.rows[i].id == id));
        }
        lemma_filter_one(state.rows, keep, at);
    }
}

/// The row that a creation adds to a table.
pub open spec fn created(state: DepartmentsState, department: NewDepartmentView) -> DepartmentView {
    DepartmentView {
        id: state.next_id,
        name: department.name,
        abbreviation: department.abbreviation,
    }
}

/// A creation succeeds while ids are left: it adds the new row under the
/// next id and gives that row back. Once the ids have run out it fails with
/// `Database` and adds nothing.
pub proof fn lemma_create(state: DepartmentsState, department: NewDepartmentView)
    requires
        state.well_formed(),
    ensures
        served(state, DepartmentRequestView::CreateDepartment(department)) == if state.next_id
            < u64::MAX {
            (
                state.inserted(department),
                Ok::<DepartmentResponseView, WebdevError>(
                    DepartmentResponseView::OneDepartment(created(state, department)),
                ),
            )
        } else {
            (
                state,
                Err::<DepartmentResponseView, WebdevError>(
                    WebdevError { kind: WebdevErrorKind::Database },
                ),
            )
        },
        state.inserted(department).well_formed() || state.next_id == u64::MAX,
{
    reveal_with_fuel(settled, 3);
    if state.next_id < u64::MAX {
        let after = state.inserted(department);
        let row = created(state, department);
        let filters = id_filter(Column::DepartmentId, after.last_inserted);
        let keep = |row: DepartmentView| admits(filters, Department::row_of(row));
        let at = state.rows.len() as int;
        assert(after.rows[at] == row);
        assert forall|i: int| 0 <= i < after.rows.len() implies keep(#[trigger] after.rows[i]) == (i
            == at) by {
            assert(filters[0].condition.holds(department_row(after.rows[i])(filters[0].column))
                == (after.rows[i].id == state.next_id));
            if i < at {
                assert(after.rows[i] == state.rows[i]);
            }
        }
        lemma_filter_one(after.rows, keep, at);
        lemma_after_well_formed(
            state,
            DepartmentCommandView::Insert(department),
        );
    }
}

/// After a creation that gave back a row, a lookup by the id of that row
/// gives an equal row.
pub proof fn lemma_create_then_get(
    state: DepartmentsState,
    department: NewDepartmentView,
    returned: DepartmentView,
)
    requires
        state.well_formed(),
        served(state, DepartmentRequestView::CreateDepartment(department)).1 == Ok::<
            DepartmentResponseView,
            WebdevError,
        >(DepartmentResponseView::OneDepartment(returned)),
    ensures
        served(
            served(state, DepartmentRequestView::CreateDepartment(department)).0,
            DepartmentRequestView::GetDepartment(returned.id),
        ).1 == Ok::<DepartmentResponseView, WebdevError>(
            DepartmentResponseView::OneDepartment(returned),
        ),
{
    lemma_create(state, department);
    let after = state.inserted(department);
    lemma_get(after, returned.id);
    assert(after.rows[state.rows.len() as int] == returned);
}

/// A removal always succeeds, also where no row has the id, and leaves no
/// row with the id; a second removal changes nothing more, and a lookup
/// after either finds nothing.
pub proof fn lemma_delete_twice(state: DepartmentsState, id: u64)
    requires
        state.well_formed(),
    ensures
        served(state, DepartmentRequestView::DeleteDepartment(id)) == (
            state.deleted(id),
            Ok::<DepartmentResponseView, WebdevError>(DepartmentResponseView::NoResponse),
        ),
        served(state.deleted(id), DepartmentRequestView::DeleteDepartment(id)) == (
            state.deleted(id),
            Ok::<DepartmentResponseView, WebdevError>(DepartmentResponseView::NoResponse),
        ),
        forall|i: int|
            0 <= i < state.deleted(id).rows.len() ==> (#[trigger] state.deleted(id).rows[i]).id
                != id,
        served(state.deleted(id), DepartmentRequestView::GetDepartment(id)).1 == Err::<
            DepartmentResponseView,
            WebdevError,
        >(WebdevError { kind: WebdevErrorKind::NotFound }),
{
    reveal_with_fuel(settled, 3);
    let keep = |row: DepartmentView| row.id != id;
    let once = state.deleted(id);
    assert forall|i: int| 0 <= i < once.rows.len() implies (#[trigger] once.rows[i]).id != id by {
        lemma_filter_within(state.rows, keep, i);
    }
    lemma_filter_all(once.rows, keep);
    lemma_after_well_formed(
        state,
        DepartmentCommandView::Delete(id),
    );
    lemma_get(once, id);
}

/// An update that names no field succeeds and leaves the table as it is, so
/// that a lookup gives what it gave before.
pub proof fn lemma_update_nothing(state: DepartmentsState, id: u64)
    ensures
        served(
            state,
            DepartmentRequestView::UpdateDepartment(
                id,
                PartialDepartmentView { name: None, abbreviation: None },
            ),
        ) == (state, Ok::<DepartmentResponseView, WebdevError>(DepartmentResponseView::NoResponse)),
{
    reveal_with_fuel(settled, 3);
}

/// Whether a criterion is `relaxed` from `strict`: the same, or none at all.
pub open spec fn relaxed_from<V>(relaxed: Search<V>, strict: Search<V>) -> bool {
    relaxed is NoSearch || relaxed == strict
}

/// A search that looks at fewer fields finds every department that the
/// stricter search finds.
pub proof fn lemma_fewer_criteria_find_more(
    state: DepartmentsState,
    strict: SearchDepartmentsView,
    relaxed: SearchDepartmentsView,
    row: DepartmentView,
)
    requires
        relaxed_from(relaxed.name, strict.name),
        relaxed_from(relaxed.abbreviation, strict.abbreviation),
        matching(state, strict).contains(row),
    ensures
        matching(state, relaxed).contains(row),
{
    lemma_filter_member(state.rows, |row: DepartmentView| department_matches(strict, row), row);
    lemma_filter_member(state.rows, |row: DepartmentView| department_matches(relaxed, row), row);
}

/// A field that a search does not look at has no part in what it finds: of
/// two departments that differ in such fields only, both meet the search or
/// neither does. A search that looks at no field finds every row.
pub proof fn lemma_unsearched_fields(
    state: DepartmentsState,
    search: SearchDepartmentsView,
    first: DepartmentView,
    second: DepartmentView,
)
    requires
        search.name is NoSearch || first.name == second.name,
        search.abbreviation is NoSearch || first.abbreviation == second.abbreviation,
    ensures
        department_matches(search, first) == department_matches(search, second),
        search.name is NoSearch && search.abbreviation is NoSearch ==> matching(state, search)
            == state.rows,
{
    if search.name is NoSearch && search.abbreviation is NoSearch {
        lemma_filter_all(
            state.rows,
            |row: DepartmentView| department_matches(search, row),
        );
    }
}

/// A search by exact name alone finds exactly the departments of that name;
/// a search by the beginning of the name alone, exactly those whose name
/// begins with it. The same holds of the abbreviation.
pub proof fn lemma_one_criterion(state: DepartmentsState, value: Seq<char>)
    ensures
        matching(
            state,
            SearchDepartmentsView { name: Search::Exact(value), abbreviation: Search::NoSearch },
        ) == state.rows.filter(|row: DepartmentView| row.name == value),
        matching(
            state,
            SearchDepartmentsView { name: Search::Partial(value), abbreviation: Search::NoSearch },
        ) == state.rows.filter(|row: DepartmentView| value.is_prefix_of(row.name)),
        matching(
            state,
            SearchDepartmentsView { name: Search::NoSearch, abbreviation: Search::Exact(value) },
        ) == state.rows.filter(|row: DepartmentView| row.abbreviation == value),
        matching(
            state,
            SearchDepartmentsView { name: Search::NoSearch, abbreviation: Search::Partial(value) },
        ) == state.rows.filter(|row: DepartmentView| value.is_prefix_of(row.abbreviation)),
{
    lemma_filter_same(
        state.rows,
        |row: DepartmentView|
            department_matches(
                SearchDepartmentsView { name: Search::Exact(value), abbreviation: Search::NoSearch },
                row,
            ),
        |row: DepartmentView| row.name == value,
    );
    lemma_filter_same(
        state.rows,
        |row: DepartmentView|
            department_matches(
                SearchDepartmentsView {
                    name: Search::Partial(value),
                    abbreviation: Search::NoSearch,
                },
                row,
            ),
        |row: DepartmentView| value.is_prefix_of(row.name),
    );
    lemma_filter_same(
        state.rows,
        |row: DepartmentView|
            department_matches(
                SearchDepartmentsView { name: Search::NoSearch, abbreviation: Search::Exact(value) },
                row,
            ),
        |row: DepartmentView| row.abbreviation == value,
    );
    lemma_filter_same(
        state.rows,
        |row: DepartmentView|
            department_matches(
                SearchDepartmentsView {
                    name: Search::NoSearch,
                    abbreviation: Search::Partial(value),
                },
                row,
            ),
        |row: DepartmentView| value.is_prefix_of(row.abbreviation),
    );
}

/// No request takes more than two round trips to the store, and only a
/// creation takes more than one: with any larger allowance a request ends
/// as it does with two, and but for a creation it ends so with one.
pub proof fn lemma_round_trips(state: DepartmentsState, request: DepartmentRequestView, trips: nat)
    ensures
        trips >= 2 ==> settled(state, first_department_step(request), trips) == served(
            state,
            request,
        ),
        !(request is CreateDepartment) ==> settled(state, first_department_step(request), 1)
            == served(state, request),
{
    reveal_with_fuel(settled, 4);
}

} // verus!
