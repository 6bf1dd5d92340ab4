//! What holds of every request about memberships that is served from a
//! table, whatever the table holds.

use crate::errors::{WebdevError, WebdevErrorKind};
use crate::laws::relaxed_from;
use crate::memberships::{
    department_with, join_of, joined_with, lemma_after_well_formed, served, settled, user_with,
    MembershipsState,
};
use crate::models::{
    NewUserDepartment, PartialUserDepartment, SearchUserDepartmentsView, UserDepartment,
    UserDepartmentJoin, UserDepartmentJoinView, UserDepartmentRequestView,
    UserDepartmentResponseView,
};
use crate::query::{
    admits, id_filter, nullable_text_meets, number_meets, text_meets, user_department_row, Column,
    Record,
};
use crate::requests::{
    first_user_department_step, joined_matches, lemma_user_department_filters,
    user_department_filters, UserDepartmentCommandView,
};
use crate::routing::any_user_department;
use crate::search::{NullableSearch, Search};
use crate::sequences::{
    lemma_filter_all, lemma_filter_member, lemma_filter_none, lemma_filter_one, lemma_filter_same,
    lemma_filter_within,
};
use vstd::prelude::*;

verus! {

/// The joined memberships of a table that meet every criterion of a search,
/// in the order of the memberships.
pub open spec fn matching(state: MembershipsState, search: SearchUserDepartmentsView) -> Seq<
    UserDepartmentJoinView,
> {
    state.joined().filter(|row: UserDepartmentJoinView| joined_matches(search, row))
}

/// A search leaves the table as it is and finds exactly the joined rows
/// that meet every one of its criteria.
pub proof fn lemma_search(state: MembershipsState, search: SearchUserDepartmentsView)
    ensures
        served(state, UserDepartmentRequestView::SearchUserDepartments(search)) == (
            state,
            Ok::<UserDepartmentResponseView, WebdevError>(
                UserDepartmentResponseView::ManyUserDepartments(matching(state, search)),
            ),
        ),
{
    reveal_with_fuel(settled, 3);
    let filters = user_department_filters(search);
    let joined = state.joined();
    assert forall|i: int| 0 <= i < joined.len() implies admits(
        filters,
        UserDepartmentJoin::row_of(#[trigger] joined[i]),
    ) == joined_matches(search, joined[i]) by {
        lemma_user_department_filters(search, joined[i]);
    }
    lemma_filter_same(
        joined,
        |row: UserDepartmentJoinView| admits(filters, UserDepartmentJoin::row_of(row)),
        |row: UserDepartmentJoinView| joined_matches(search, row),
    );
}

/// Every joined row belongs to a membership whose user and department are
/// both there: no search gives a membership that lacks either.
pub proof fn lemma_joined_rows_are_whole(
    state: MembershipsState,
    search: SearchUserDepartmentsView,
    row: UserDepartmentJoinView,
)
    requires
        matching(state, search).contains(row),
    ensures
        exists|membership: UserDepartment|
            #![trigger state.rows.contains(membership)]
            state.rows.contains(membership) && user_with(state.users, membership.user_id)
                is Some && department_with(state.departments, membership.department_id) is Some
                && row == joined_with(
                membership,
                user_with(state.users, membership.user_id)->0,
                department_with(state.departments, membership.department_id)->0,
            ),
{
    lemma_filter_member(
        state.joined(),
        |row: UserDepartmentJoinView| joined_matches(search, row),
        row,
    );
    let join = |membership: UserDepartment| join_of(state.users, state.departments, membership);
    state.rows.lemma_filter_map_contains(join, row);
    let membership = choose|membership: UserDepartment| #[trigger]
        state.rows.contains(membership) && join(membership) == Some(row);
    assert(state.rows.contains(membership));
}

/// A lookup by id leaves the table as it is. It gives the membership that
/// has the id, and `NotFound` where none has it.
pub proof fn lemma_get(state: MembershipsState, id: u64)
    requires
        state.well_formed(),
    ensures
        served(state, UserDepartmentRequestView::GetUserDepartment(id)).0 == state,
        forall|i: int|
            0 <= i < state.rows.len() && (#[trigger] state.rows[i]).id == id ==> served(
                state,
                UserDepartmentRequestView::GetUserDepartment(id),
            ).1 == Ok::<UserDepartmentResponseView, WebdevError>(
                UserDepartmentResponseView::OneUserDepartment(state.rows[i]),
            ),
        (forall|i: int| 0 <= i < state.rows.len() ==> (#[trigger] state.rows[i]).id != id)
            ==> served(state, UserDepartmentRequestView::GetUserDepartment(id)).1 == Err::<
            UserDepartmentResponseView,
            WebdevError,
        >(WebdevError { kind: WebdevErrorKind::NotFound }),
{
    reveal_with_fuel(settled, 3);
    let filters = id_filter(Column::UserDepartmentId, id);
    let keep = |row: UserDepartment| admits(filters, UserDepartment::row_of(row));
    assert forall|row: UserDepartment| #[trigger] keep(row) == (row.id == id) by {
        assert(filters[0].condition.holds(user_department_row(row)(filters[0].column)) == (row.id
            == id));
    }
    if forall|i: int| 0 <= i < state.rows.len() ==> (#[trigger] state.rows[i]).id != id {
        assert forall|i: int| 0 <= i < state.rows.len() implies !keep(#[trigger] state.rows[i]) by {
            assert(keep(state.rows[i]) == (state.rows[i].id == id));
        }
        lemma_filter_none(state.rows, keep);
    } else {
        let at = choose|i: int| 0 <= i < state.rows.len() && (#[trigger] state.rows[i]).id == id;
        assert forall|i: int| 0 <= i < state.rows.len() implies keep(#[trigger] state.rows[i]) == (i
            == at) by {
            assert(keep(state.rows[i]) == (state.rows[i].id == id));
        }
        lemma_filter_one(state.rows, keep, at);
    }
}

/// The membership that a creation adds to a table.
pub open spec fn created(state: MembershipsState, membership: NewUserDepartment) -> UserDepartment {
    UserDepartment {
        id: state.next_id,
        user_id: membership.user_id,
        department_id: membership.department_id,
    }
}

/// A creation succeeds while ids are left: it adds the new membership under
/// the next id and gives it back. Once the ids have run out it fails with
/// `Database` and adds nothing.
pub proof fn lemma_create(state: MembershipsState, membership: NewUserDepartment)
    requires
        state.well_formed(),
    ensures
        served(state, UserDepartmentRequestView::CreateUserDepartment(membership))
            == if state.next_id < u64::MAX {
            (
                state.inserted(membership),
                Ok::<UserDepartmentResponseView, WebdevError>(
                    UserDepartmentResponseView::OneUserDepartment(created(state, membership)),
                ),
            )
        } else {
            (
                state,
                Err::<UserDepartmentResponseView, WebdevError>(
                    WebdevError { kind: WebdevErrorKind::Database },
                ),
            )
        },
        state.inserted(membership).well_formed() || state.next_id == u64::MAX,
{
    reveal_with_fuel(settled, 3);
    if state.next_id < u64::MAX {
        let after = state.inserted(membership);
        let row = created(state, membership);
        let filters = id_filter(Column::UserDepartmentId, after.last_inserted);
        let keep = |row: UserDepartment| admits(filters, UserDepartment::row_of(row));
        let at = state.rows.len() as int;
        assert(after.rows[at] == row);
        assert forall|i: int| 0 <= i < after.rows.len() implies keep(#[trigger] after.rows[i]) == (i
            == at) by {
            assert(filters[0].condition.holds(
                user_department_row(after.rows[i])(filters[0].column),
            ) == (after.rows[i].id == state.next_id));
            if i < at {
                assert(after.rows[i] == state.rows[i]);
            }
        }
        lemma_filter_one(after.rows, keep, at);
        lemma_after_well_formed(state, UserDepartmentCommandView::Insert(membership));
    }
}

/// After a creation that gave back a membership, a lookup by the id of that
/// membership gives an equal one.
pub proof fn lemma_create_then_get(
    state: MembershipsState,
    membership: NewUserDepartment,
    returned: UserDepartment,
)
    requires
        state.well_formed(),
        served(state, UserDepartmentRequestView::CreateUserDepartment(membership)).1 == Ok::<
            UserDepartmentResponseView,
            WebdevError,
        >(UserDepartmentResponseView::OneUserDepartment(returned)),
    ensures
        served(
            served(state, UserDepartmentRequestView::CreateUserDepartment(membership)).0,
            UserDepartmentRequestView::GetUserDepartment(returned.id),
        ).1 == Ok::<UserDepartmentResponseView, WebdevError>(
            UserDepartmentResponseView::OneUserDepartment(returned),
        ),
{
    lemma_create(state, membership);
    let after = state.inserted(membership);
    lemma_get(after, returned.id);
    assert(after.rows[state.rows.len() as int] == returned);
}

/// A removal always succeeds, also where no membership has the id, and
/// leaves none with the id; a second removal changes nothing more, and a
/// lookup after either finds nothing.
pub proof fn lemma_delete_twice(state: MembershipsState, id: u64)
    requires
        state.well_formed(),
    ensures
        served(state, UserDepartmentRequestView::DeleteUserDepartment(id)) == (
            state.deleted(id),
            Ok::<UserDepartmentResponseView, WebdevError>(UserDepartmentResponseView::NoResponse),
        ),
        served(state.deleted(id), UserDepartmentRequestView::DeleteUserDepartment(id)) == (
            state.deleted(id),
            Ok::<UserDepartmentResponseView, WebdevError>(UserDepartmentResponseView::NoResponse),
        ),
        forall|i: int|
            0 <= i < state.deleted(id).rows.len() ==> (#[trigger] state.deleted(id).rows[i]).id
                != id,
        served(state.deleted(id), UserDepartmentRequestView::GetUserDepartment(id)).1 == Err::<
            UserDepartmentResponseView,
            WebdevError,
        >(WebdevError { kind: WebdevErrorKind::NotFound }),
{
    reveal_with_fuel(settled, 3);
    let keep = |row: UserDepartment| row.id != id;
    let once = state.deleted(id);
    assert forall|i: int| 0 <= i < once.rows.len() implies (#[trigger] once.rows[i]).id != id by {
        lemma_filter_within(state.rows, keep, i);
    }
    lemma_filter_all(once.rows, keep);
    lemma_after_well_formed(state, UserDepartmentCommandView::Delete(id));
    lemma_get(once, id);
}

/// An update that names no field succeeds and leaves the table as it is, so
/// that a lookup gives what it gave before.
pub proof fn lemma_update_nothing(state: MembershipsState, id: u64)
    ensures
        served(
            state,
            UserDepartmentRequestView::UpdateUserDepartment(
                id,
                PartialUserDepartment { user_id: None, department_id: None },
            ),
        ) == (
            state,
            Ok::<UserDepartmentResponseView, WebdevError>(UserDepartmentResponseView::NoResponse),
        ),
{
    reveal_with_fuel(settled, 3);
}

/// Whether a criterion on a field that may be absent is `relaxed` from
/// `strict`: the same, or none at all.
pub open spec fn nullable_relaxed_from<V>(
    relaxed: NullableSearch<V>,
    strict: NullableSearch<V>,
) -> bool {
    relaxed is NoSearch || relaxed == strict
}

/// Whether a search is `relaxed` from `strict`: field for field it has the
/// same criterion or none.
pub open spec fn search_relaxed_from(
    relaxed: SearchUserDepartmentsView,
    strict: SearchUserDepartmentsView,
) -> bool {
    &&& relaxed_from(relaxed.user_id, strict.user_id)
    &&& relaxed_from(relaxed.department_id, strict.department_id)
    &&& relaxed_from(relaxed.user_first_name, strict.user_first_name)
    &&& relaxed_from(relaxed.user_last_name, strict.user_last_name)
    &&& nullable_relaxed_from(relaxed.user_email, strict.user_email)
    &&& relaxed_from(relaxed.user_banner, strict.user_banner)
    &&& relaxed_from(relaxed.department_name, strict.department_name)
    &&& relaxed_from(relaxed.department_abbreviation, strict.department_abbreviation)
}

/// A search that looks at fewer fields finds every joined membership that
/// the stricter search finds.
pub proof fn lemma_fewer_criteria_find_more(
    state: MembershipsState,
    strict: SearchUserDepartmentsView,
    relaxed: SearchUserDepartmentsView,
    row: UserDepartmentJoinView,
)
    requires
        search_relaxed_from(relaxed, strict),
        matching(state, strict).contains(row),
    ensures
        matching(state, relaxed).contains(row),
{
    lemma_filter_member(
        state.joined(),
        |row: UserDepartmentJoinView| joined_matches(strict, row),
        row,
    );
    lemma_filter_member(
        state.joined(),
        |row: UserDepartmentJoinView| joined_matches(relaxed, row),
        row,
    );
}

/// A field that a search does not look at has no part in what it finds: of
/// two joined memberships that differ in such fields only, both meet the
/// search or neither does.
pub proof fn lemma_unsearched_fields(
    search: SearchUserDepartmentsView,
    first: UserDepartmentJoinView,
    second: UserDepartmentJoinView,
)
    requires
        search.user_id is NoSearch || first.user_id == second.user_id,
        search.department_id is NoSearch || first.department_id == second.department_id,
        search.user_first_name is NoSearch || first.user_first_name == second.user_first_name,
        search.user_last_name is NoSearch || first.user_last_name == second.user_last_name,
        search.user_email is NoSearch || first.user_email == second.user_email,
        search.user_banner is NoSearch || first.user_banner_id == second.user_banner_id,
        search.department_name is NoSearch || first.department_name == second.department_name,
        search.department_abbreviation is NoSearch || first.department_abbreviation
            == second.department_abbreviation,
    ensures
        joined_matches(search, first) == joined_matches(search, second),
{
}

/// A search finds the joined memberships that pass a test whenever the test
/// says of every joined membership what the criteria of the search say.
pub proof fn lemma_matching_by(
    state: MembershipsState,
    search: SearchUserDepartmentsView,
    test: spec_fn(UserDepartmentJoinView) -> bool,
)
    requires
        forall|row: UserDepartmentJoinView| #[trigger] test(row) == joined_matches(search, row),
    ensures
        matching(state, search) == state.joined().filter(test),
{
    lemma_filter_same(
        state.joined(),
        |row: UserDepartmentJoinView| joined_matches(search, row),
        test,
    );
}

/// A search that looks at no field finds every joined membership.
pub proof fn lemma_no_criteria_find_all(state: MembershipsState)
    ensures
        matching(state, any_user_department()) == state.joined(),
{
    lemma_filter_all(
        state.joined(),
        |row: UserDepartmentJoinView| joined_matches(any_user_department(), row),
    );
}

/// A search that looks at one field alone asks of a joined membership what
/// the criterion asks of that field, and nothing else. On a number, a
/// criterion for the beginning asks for equality.
pub proof fn lemma_one_criterion(
    row: UserDepartmentJoinView,
    number: Search<u64>,
    banner: Search<u32>,
    text: Search<Seq<char>>,
    email: NullableSearch<Seq<char>>,
    value: u64,
)
    ensures
        joined_matches(
            SearchUserDepartmentsView { user_id: number, ..any_user_department() },
            row,
        ) == number_meets(number, row.user_id),
        joined_matches(
            SearchUserDepartmentsView { department_id: number, ..any_user_department() },
            row,
        ) == number_meets(number, row.department_id),
        joined_matches(
            SearchUserDepartmentsView { user_first_name: text, ..any_user_department() },
            row,
        ) == text_meets(text, row.user_first_name),
        joined_matches(
            SearchUserDepartmentsView { user_last_name: text, ..any_user_department() },
            row,
        ) == text_meets(text, row.user_last_name),
        joined_matches(
            SearchUserDepartmentsView { user_email: email, ..any_user_department() },
            row,
        ) == nullable_text_meets(email, row.user_email),
        joined_matches(
            SearchUserDepartmentsView { user_banner: banner, ..any_user_department() },
            row,
        ) == number_meets(banner, row.user_banner_id),
        joined_matches(
            SearchUserDepartmentsView { department_name: text, ..any_user_department() },
            row,
        ) == text_meets(text, row.department_name),
        joined_matches(
            SearchUserDepartmentsView { department_abbreviation: text, ..any_user_department() },
            row,
        ) == text_meets(text, row.department_abbreviation),
        number_meets(Search::Partial(value), row.user_id) == (row.user_id == value),
        number_meets(Search::Exact(value), row.user_id) == (row.user_id == value),
{
}

/// The search for memberships with an e-mail address.
pub open spec fn with_email() -> SearchUserDepartmentsView {
    SearchUserDepartmentsView { user_email: NullableSearch::NotNull, ..any_user_department() }
}

/// The search for memberships without an e-mail address.
pub open spec fn without_email() -> SearchUserDepartmentsView {
    SearchUserDepartmentsView { user_email: NullableSearch::Null, ..any_user_department() }
}

/// The search for a present e-mail address finds exactly the joined
/// memberships that have one, the search for an absent one exactly those
/// that have none, and every joined membership is found by one of the two
/// and not by the other.
pub proof fn lemma_email_partition(state: MembershipsState, row: UserDepartmentJoinView)
    ensures
        matching(state, with_email()) == state.joined().filter(
            |row: UserDepartmentJoinView| row.user_email is Some,
        ),
        matching(state, without_email()) == state.joined().filter(
            |row: UserDepartmentJoinView| row.user_email is None,
        ),
        state.joined().contains(row) ==> matching(state, with_email()).contains(row)
            != matching(state, without_email()).contains(row),
        matching(state, with_email()).contains(row) || matching(state, without_email()).contains(
            row,
        ) ==> state.joined().contains(row),
{
    let joined = state.joined();
    lemma_filter_same(
        joined,
        |row: UserDepartmentJoinView| joined_matches(with_email(), row),
        |row: UserDepartmentJoinView| row.user_email is Some,
    );
    lemma_filter_same(
        joined,
        |row: UserDepartmentJoinView| joined_matches(without_email(), row),
        |row: UserDepartmentJoinView| row.user_email is None,
    );
    lemma_filter_member(joined, |row: UserDepartmentJoinView| row.user_email is Some, row);
    lemma_filter_member(joined, |row: UserDepartmentJoinView| row.user_email is None, row);
}

/// No request takes more than two round trips to the store, and only a
/// creation takes more than one: with any larger allowance a request ends
/// as it does with two, and but for a creation it ends so with one.
pub proof fn lemma_round_trips(
    state: MembershipsState,
    request: UserDepartmentRequestView,
    trips: nat,
)
    ensures
        trips >= 2 ==> settled(state, first_user_department_step(request), trips) == served(
            state,
            request,
        ),
        !(request is CreateUserDepartment) ==> settled(
            state,
            first_user_department_step(request),
            1,
        ) == served(state, request),
{
    reveal_with_fuel(settled, 4);
}

} // verus!
