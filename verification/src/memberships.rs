//! Memberships held in memory, beside the users and the departments that
//! they link: what each command does, stated over sequences, and a table
//! that does it.

use crate::errors::{WebdevError, WebdevErrorKind};
use crate::models::{
    views, Department, DepartmentView, NewUserDepartment, PartialUserDepartment, User,
    UserDepartment, UserDepartmentJoin, UserDepartmentJoinView, UserDepartmentRequest,
    UserDepartmentRequestView, UserDepartmentResponse, UserDepartmentResponseView, UserView,
};
use crate::query::{
    admits, filter_by_id, id_filter, passes, select, selected, Column, Filter, Join, Record, Table,
};
use crate::requests::{
    first_user_department_step, handle_user_department, has_membership_joins, membership_joins,
    next_user_department_step, resume_user_department, UserDepartmentCommand,
    UserDepartmentCommandView, UserDepartmentReply, UserDepartmentReplyView, UserDepartmentStep,
    UserDepartmentStepView,
};
use crate::sequences::{lemma_filter_distinct, lemma_filter_within};
use vstd::prelude::*;

verus! {

/// The memberships of a store, the users and departments beside them, and
/// what the store remembers about ids.
pub struct MembershipsState {
    pub users: Seq<UserView>,
    pub departments: Seq<DepartmentView>,
    /// The memberships, oldest first.
    pub rows: Seq<UserDepartment>,
    /// The id that the next new membership is given.
    pub next_id: u64,
    /// The id that the last new membership was given; 0 where there was none.
    pub last_inserted: u64,
}

/// The first user with the given id.
pub open spec fn user_with(users: Seq<UserView>, id: u64) -> Option<UserView>
    decreases users.len(),
{
    if users.len() == 0 {
        None
    } else if users[0].id == id {
        Some(users[0])
    } else {
        user_with(users.skip(1), id)
    }
}

/// The first department with the given id.
pub open spec fn department_with(departments: Seq<DepartmentView>, id: u64) -> Option<
    DepartmentView,
>
    decreases departments.len(),
{
    if departments.len() == 0 {
        None
    } else if departments[0].id == id {
        Some(departments[0])
    } else {
        department_with(departments.skip(1), id)
    }
}

/// A membership put together with its user and its department.
pub open spec fn joined_with(
    membership: UserDepartment,
    user: UserView,
    department: DepartmentView,
) -> UserDepartmentJoinView {
    UserDepartmentJoinView {
        id: membership.id,
        user_id: user.id,
        department_id: department.id,
        department_name: department.name,
        department_abbreviation: department.abbreviation,
        user_first_name: user.first_name,
        user_last_name: user.last_name,
        user_email: user.email,
        user_banner_id: user.banner_id,
    }
}

/// A membership with the given fields overwritten.
pub open spec fn overwritten(
    membership: UserDepartment,
    fields: PartialUserDepartment,
) -> UserDepartment {
    UserDepartment {
        id: membership.id,
        user_id: match fields.user_id {
            Some(user_id) => user_id,
            None => membership.user_id,
        },
        department_id: match fields.department_id {
            Some(department_id) => department_id,
            None => membership.department_id,
        },
    }
}

/// The joined row of a membership: none where its user or its department
/// is missing.
pub open spec fn join_of(
    users: Seq<UserView>,
    departments: Seq<DepartmentView>,
    membership: UserDepartment,
) -> Option<UserDepartmentJoinView> {
    match (
        user_with(users, membership.user_id),
        department_with(departments, membership.department_id),
    ) {
        (Some(user), Some(department)) => Some(joined_with(membership, user, department)),
        _ => None,
    }
}

/// The inner join of memberships with users and departments: the joined
/// rows of the memberships that have both, in the order of the memberships.
pub open spec fn joined_rows(
    users: Seq<UserView>,
    departments: Seq<DepartmentView>,
    rows: Seq<UserDepartment>,
) -> Seq<UserDepartmentJoinView> {
    rows.filter_map(|membership: UserDepartment| join_of(users, departments, membership))
}

impl MembershipsState {
    /// Ids are positive, below the next one to give, and no two memberships
    /// share one.
    pub open spec fn well_formed(self) -> bool {
        &&& 1 <= self.next_id
        &&& self.last_inserted < self.next_id
        &&& forall|i: int| 0 <= i < self.rows.len() ==> 1 <= (#[trigger] self.rows[i]).id < self.next_id
        &&& forall|i: int, j: int|
            0 <= i < j < self.rows.len() ==> (#[trigger] self.rows[i]).id != (#[trigger] self.rows[j]).id
    }

    /// The inner join of the memberships with the users and the departments.
    pub open spec fn joined(self) -> Seq<UserDepartmentJoinView> {
        joined_rows(self.users, self.departments, self.rows)
    }

    pub open spec fn with_rows(self, rows: Seq<UserDepartment>) -> MembershipsState {
        MembershipsState {
            users: self.users,
            departments: self.departments,
            rows,
            next_id: self.next_id,
            last_inserted: self.last_inserted,
        }
    }

    /// The table after an insert.
    pub open spec fn inserted(self, membership: NewUserDepartment) -> MembershipsState {
        MembershipsState {
            users: self.users,
            departments: self.departments,
            rows: self.rows.push(
                UserDepartment {
                    id: self.next_id,
                    user_id: membership.user_id,
                    department_id: membership.department_id,
                },
            ),
            next_id: (self.next_id + 1) as u64,
            last_inserted: self.next_id,
        }
    }

    /// The table after an update of the membership with the given id.
    pub open spec fn updated(self, id: u64, fields: PartialUserDepartment) -> MembershipsState {
        self.with_rows(
            Seq::new(
                self.rows.len(),
                |i: int|
                    if self.rows[i].id == id {
                        overwritten(self.rows[i], fields)
                    } else {
                        self.rows[i]
                    },
            ),
        )
    }

    /// The table after the removal of the membership with the given id.
    pub open spec fn deleted(self, id: u64) -> MembershipsState {
        self.with_rows(self.rows.filter(|row: UserDepartment| row.id != id))
    }

    /// What a command leaves of the table.
    pub open spec fn after(self, command: UserDepartmentCommandView) -> MembershipsState {
        match command {
            UserDepartmentCommandView::Insert(membership) => if self.next_id < u64::MAX {
                self.inserted(membership)
            } else {
                self
            },
            UserDepartmentCommandView::Update(id, fields) => self.updated(id, fields),
            UserDepartmentCommandView::Delete(id) => self.deleted(id),
            _ => self,
        }
    }

    /// What the table answers to a command. It fails on a query for joined
    /// rows that does not join as every search does, on a query for
    /// memberships that is not about them alone, and on an insert once the
    /// ids have run out.
    pub open spec fn answer(self, command: UserDepartmentCommandView) -> UserDepartmentReplyView {
        match command {
            UserDepartmentCommandView::SelectJoined(query) => if query.from
                == Table::UserDepartments && query.joins == membership_joins() {
                UserDepartmentReplyView::Joined(
                    selected::<UserDepartmentJoin>(self.joined(), query.filters),
                )
            } else {
                UserDepartmentReplyView::Failed
            },
            UserDepartmentCommandView::Select(query) => if query.from == Table::UserDepartments
                && query.joins.len() == 0 {
                UserDepartmentReplyView::Rows(selected::<UserDepartment>(self.rows, query.filters))
            } else {
                UserDepartmentReplyView::Failed
            },
            UserDepartmentCommandView::SelectLastInserted => UserDepartmentReplyView::Rows(
                selected::<UserDepartment>(
                    self.rows,
                    id_filter(Column::UserDepartmentId, self.last_inserted),
                ),
            ),
            UserDepartmentCommandView::Insert(_) => if self.next_id < u64::MAX {
                UserDepartmentReplyView::Done
            } else {
                UserDepartmentReplyView::Failed
            },
            UserDepartmentCommandView::Update(_, _) => UserDepartmentReplyView::Done,
            UserDepartmentCommandView::Delete(_) => UserDepartmentReplyView::Done,
        }
    }
}

/// Memberships held in memory, with the users and departments they link.
pub struct MembershipTable {
    users: Vec<User>,
    departments: Vec<Department>,
    rows: Vec<UserDepartment>,
    next_id: u64,
    last_inserted: u64,
}

impl View for MembershipTable {
    type V = MembershipsState;

    closed spec fn view(&self) -> MembershipsState {
        MembershipsState {
            users: views(self.users@),
            departments: views(self.departments@),
            rows: self.rows@,
            next_id: self.next_id,
            last_inserted: self.last_inserted,
        }
    }
}

/// Finds the first user with the given id.
fn find_user(users: &Vec<User>, id: u64) -> (found: Option<&User>)
    ensures
        match found {
            Some(user) => user_with(views(users@), id) == Some(user@),
            None => user_with(views(users@), id) is None,
        },
{
    let ghost all = views(users@);
    let mut i: usize = 0;
    assert(all.skip(0) =~= all);
    while i < users.len()
        invariant
            i <= users.len(),
            all == views(users@),
            user_with(all, id) == user_with(all.skip(i as int), id),
        decreases users.len() - i,
    {
        proof {
            assert(all.skip(i as int)[0] == users@[i as int]@);
            assert(all.skip(i as int).skip(1) =~= all.skip(i + 1));
        }
        if users[i].id == id {
            return Some(&users[i]);
        }
        i += 1;
    }
    None
}

/// Finds the first department with the given id.
fn find_department(departments: &Vec<Department>, id: u64) -> (found: Option<&Department>)
    ensures
        match found {
            Some(department) => department_with(views(departments@), id) == Some(department@),
            None => department_with(views(departments@), id) is None,
        },
{
    let ghost all = views(departments@);
    let mut i: usize = 0;
    assert(all.skip(0) =~= all);
    while i < departments.len()
        invariant
            i <= departments.len(),
            all == views(departments@),
            department_with(all, id) == department_with(all.skip(i as int), id),
        decreases departments.len() - i,
    {
        proof {
            assert(all.skip(i as int)[0] == departments@[i as int]@);
            assert(all.skip(i as int).skip(1) =~= all.skip(i + 1));
        }
        if departments[i].id == id {
            return Some(&departments[i]);
        }
        i += 1;
    }
    None
}

/// Puts a membership together with its user and its department.
fn join_one(membership: &UserDepartment, user: &User, department: &Department) -> (joined:
    UserDepartmentJoin)
    ensures
        joined@ == joined_with(*membership, user@, department@),
{
    UserDepartmentJoin {
        id: membership.id,
        user_id: user.id,
        department_id: department.id,
        department_name: department.name.clone(),
        department_abbreviation: department.abbreviation.clone(),
        user_first_name: user.first_name.clone(),
        user_last_name: user.last_name.clone(),
        user_email: match &user.email {
            Some(email) => Some(email.clone()),
            None => None,
        },
        user_banner_id: user.banner_id,
    }
}

/// Joins the memberships with the users and the departments and keeps the
/// joined rows that pass every filter.
pub fn select_joined(
    users: &Vec<User>,
    departments: &Vec<Department>,
    rows: &Vec<UserDepartment>,
    filters: &Vec<Filter>,
) -> (found: Vec<UserDepartmentJoin>)
    ensures
        views(found@) == selected::<UserDepartmentJoin>(
            joined_rows(views(users@), views(departments@), rows@),
            views(filters@),
        ),
{
    let ghost join = |membership: UserDepartment|
        join_of(views(users@), views(departments@), membership);
    let ghost wanted = |row: UserDepartmentJoinView|
        admits(views(filters@), UserDepartmentJoin::row_of(row));
    let mut found: Vec<UserDepartmentJoin> = Vec::new();
    let mut i: usize = 0;
    proof {
        reveal(Seq::filter);
        assert(rows@.take(0) =~= Seq::<UserDepartment>::empty());
        assert(views(found@) =~= Seq::<UserDepartmentJoinView>::empty());
    }
    while i < rows.len()
        invariant
            i <= rows.len(),
            join == |membership: UserDepartment|
                join_of(views(users@), views(departments@), membership),
            wanted == |row: UserDepartmentJoinView|
                admits(views(filters@), UserDepartmentJoin::row_of(row)),
            views(found@) == rows@.take(i as int).filter_map(join).filter(wanted),
        decreases rows.len() - i,
    {
        let ghost before = rows@.take(i as int).filter_map(join);
        proof {
            assert(rows@.take(i + 1).drop_last() =~= rows@.take(i as int));
            assert(rows@.take(i + 1).last() == rows@[i as int]);
        }
        let membership = &rows[i];
        match find_user(users, membership.user_id) {
            Some(user) => match find_department(departments, membership.department_id) {
                Some(department) => {
                    let joined = join_one(membership, user, department);
                    proof {
                        assert(before + seq![joined@] =~= before.push(joined@));
                        before.lemma_filter_push(joined@, wanted);
                    }
                    if passes(&joined, filters) {
                        let ghost kept = views(found@);
                        found.push(joined);
                        assert(views(found@) =~= kept.push(joined@));
                    }
                },
                None => {},
            },
            None => {},
        }
        i += 1;
    }
    proof {
        assert(rows@.take(i as int) =~= rows@);
    }
    found
}

/// Copies out the memberships that pass every filter of a list.
fn select_memberships(rows: &Vec<UserDepartment>, filters: &Vec<Filter>) -> (found: Vec<
    UserDepartment,
>)
    ensures
        found@ == selected::<UserDepartment>(rows@, views(filters@)),
{
    let found = select(rows, filters);
    assert(views(found@) =~= found@);
    assert(views(rows@) =~= rows@);
    found
}

/// Copies the memberships, the one with the given id overwritten.
fn overwrite_memberships(rows: &Vec<UserDepartment>, id: u64, fields: PartialUserDepartment) -> (changed:
    Vec<UserDepartment>)
    ensures
        changed@.len() == rows@.len(),
        forall|i: int|
            0 <= i < rows@.len() ==> #[trigger] changed@[i] == if rows@[i].id == id {
                overwritten(rows@[i], fields)
            } else {
                rows@[i]
            },
{
    let mut changed: Vec<UserDepartment> = Vec::new();
    let mut i: usize = 0;
    while i < rows.len()
        invariant
            i <= rows.len(),
            changed@.len() == i,
            forall|k: int|
                0 <= k < i ==> #[trigger] changed@[k] == if rows@[k].id == id {
                    overwritten(rows@[k], fields)
                } else {
                    rows@[k]
                },
        decreases rows.len() - i,
    {
        let row = rows[i];
        if row.id == id {
            changed.push(
                UserDepartment {
                    id: row.id,
                    user_id: match fields.user_id {
                        Some(user_id) => user_id,
                        None => row.user_id,
                    },
                    department_id: match fields.department_id {
                        Some(department_id) => department_id,
                        None => row.department_id,
                    },
                },
            );
        } else {
            changed.push(row);
        }
        i += 1;
    }
    changed
}

/// Copies the memberships but the one with the given id.
fn remove_membership(rows: &Vec<UserDepartment>, id: u64) -> (kept: Vec<UserDepartment>)
    ensures
        kept@ == rows@.filter(|row: UserDepartment| row.id != id),
{
    let ghost keep = |row: UserDepartment| row.id != id;
    let mut kept: Vec<UserDepartment> = Vec::new();
    let mut i: usize = 0;
    proof {
        reveal(Seq::filter);
        assert(rows@.take(0) =~= Seq::<UserDepartment>::empty());
    }
    while i < rows.len()
        invariant
            i <= rows.len(),
            keep == |row: UserDepartment| row.id != id,
            kept@ == rows@.take(i as int).filter(keep),
        decreases rows.len() - i,
    {
        proof {
            reveal(Seq::filter);
            assert(rows@.take(i + 1).drop_last() =~= rows@.take(i as int));
        }
        if rows[i].id != id {
            kept.push(rows[i]);
        }
        i += 1;
    }
    proof {
        assert(rows@.take(i as int) =~= rows@);
    }
    kept
}

/// Every command keeps a table well formed.
pub proof fn lemma_after_well_formed(state: MembershipsState, command: UserDepartmentCommandView)
    requires
        state.well_formed(),
    ensures
        state.after(command).well_formed(),
{
    match command {
        UserDepartmentCommandView::Delete(id) => {
            let keep = |row: UserDepartment| row.id != id;
            let kept = state.rows.filter(keep);
            lemma_filter_distinct(state.rows, keep, |row: UserDepartment| row.id);
            assert forall|i: int| 0 <= i < kept.len() implies 1 <= (#[trigger] kept[i]).id
                < state.next_id by {
                lemma_filter_within(state.rows, keep, i);
            }
        },
        UserDepartmentCommandView::Insert(membership) => {
            if state.next_id < u64::MAX {
                let after = state.inserted(membership);
                let last = state.rows.len() as int;
                assert forall|i: int| 0 <= i < after.rows.len() implies 1 <= (
                #[trigger] after.rows[i]).id < after.next_id by {
                    if i < last {
                        assert(after.rows[i] == state.rows[i]);
                    }
                }
                assert forall|i: int, j: int| 0 <= i < j < after.rows.len() implies (
                #[trigger] after.rows[i]).id != (#[trigger] after.rows[j]).id by {
                    assert(after.rows[i] == state.rows[i]);
                    if j < last {
                        assert(after.rows[j] == state.rows[j]);
                    }
                }
            }
        },
        _ => {},
    }
}

impl MembershipTable {
    /// A table without memberships, beside the given users and departments.
    pub fn new(users: Vec<User>, departments: Vec<Department>) -> (table: MembershipTable)
        ensures
            table@ == (MembershipsState {
                users: views(users@),
                departments: views(departments@),
                rows: Seq::empty(),
                next_id: 1,
                last_inserted: 0,
            }),
    {
        MembershipTable { users, departments, rows: Vec::new(), next_id: 1, last_inserted: 0 }
    }

    /// A copy of the memberships, oldest first.
    pub fn rows(&self) -> (rows: Vec<UserDepartment>)
        ensures
            rows@ == self@.rows,
    {
        self.rows.clone()
    }

    /// Carries out one command and says what came of it.
    pub fn execute(&mut self, command: UserDepartmentCommand) -> (reply: UserDepartmentReply)
        requires
            old(self)@.well_formed(),
        ensures
            final(self)@ == old(self)@.after(command@),
            reply@ == old(self)@.answer(command@),
            final(self)@.well_formed(),
    {
        proof {
            lemma_after_well_formed(old(self)@, command@);
        }
        match command {
            UserDepartmentCommand::SelectJoined(query) => {
                match query.from {
                    Table::UserDepartments => {
                        if has_membership_joins(&query.joins) {
                            UserDepartmentReply::Joined(
                                select_joined(
                                    &self.users,
                                    &self.departments,
                                    &self.rows,
                                    &query.filters,
                                ),
                            )
                        } else {
                            UserDepartmentReply::Failed
                        }
                    },
                    _ => UserDepartmentReply::Failed,
                }
            },
            UserDepartmentCommand::Select(query) => {
                match query.from {
                    Table::UserDepartments => {
                        if query.joins.len() == 0 {
                            UserDepartmentReply::Rows(select_memberships(&self.rows, &query.filters))
                        } else {
                            UserDepartmentReply::Failed
                        }
                    },
                    _ => UserDepartmentReply::Failed,
                }
            },
            UserDepartmentCommand::SelectLastInserted => {
                let filters = filter_by_id(Column::UserDepartmentId, self.last_inserted);
                UserDepartmentReply::Rows(select_memberships(&self.rows, &filters))
            },
            UserDepartmentCommand::Insert(membership) => {
                if self.next_id < u64::MAX {
                    let id = self.next_id;
                    self.next_id = id + 1;
                    self.rows.push(
                        UserDepartment {
                            id,
                            user_id: membership.user_id,
                            department_id: membership.department_id,
                        },
                    );
                    self.last_inserted = id;
                    UserDepartmentReply::Done
                } else {
                    UserDepartmentReply::Failed
                }
            },
            UserDepartmentCommand::Update(id, fields) => {
                let changed = overwrite_memberships(&self.rows, id, fields);
                assert(changed@ =~= old(self)@.updated(id, fields).rows);
                self.rows = changed;
                UserDepartmentReply::Done
            },
            UserDepartmentCommand::Delete(id) => {
                self.rows = remove_membership(&self.rows, id);
                UserDepartmentReply::Done
            },
        }
    }
}

/// How a request about memberships ends.
pub type UserDepartmentOutcome = Result<UserDepartmentResponseView, WebdevError>;

/// The view of the outcome of a request about memberships.
pub open spec fn user_department_outcome(
    result: Result<UserDepartmentResponse, WebdevError>,
) -> UserDepartmentOutcome {
    match result {
        Ok(response) => Ok(response@),
        Err(error) => Err(error),
    }
}

/// Where a request ends when its steps are taken against a table: each
/// command goes to the table, and its answer decides the next step. After
/// `trips` round trips an unfinished request ends with `Database`.
pub open spec fn settled(
    state: MembershipsState,
    step: UserDepartmentStepView,
    trips: nat,
) -> (MembershipsState, UserDepartmentOutcome)
    decreases trips,
{
    match step {
        UserDepartmentStepView::Finish(outcome) => (state, outcome),
        UserDepartmentStepView::Ask(command, pending) => if trips == 0 {
            (state, Err(WebdevError { kind: WebdevErrorKind::Database }))
        } else {
            settled(
                state.after(command),
                next_user_department_step(pending, state.answer(command)),
                (trips - 1) as nat,
            )
        },
    }
}

/// What a request about memberships does to a table, and how it ends.
pub open spec fn served(
    state: MembershipsState,
    request: UserDepartmentRequestView,
) -> (MembershipsState, UserDepartmentOutcome) {
    settled(state, first_user_department_step(request), 2)
}

/// Serves a request about memberships from a table in memory.
pub fn serve_user_department(table: &mut MembershipTable, request: UserDepartmentRequest) -> (result:
    Result<UserDepartmentResponse, WebdevError>)
    requires
        old(table)@.well_formed(),
    ensures
        (final(table)@, user_department_outcome(result)) == served(old(table)@, request@),
        final(table)@.well_formed(),
{
    let mut step = handle_user_department(request);
    let mut trips: u8 = 2;
    loop
        invariant
            table@.well_formed(),
            settled(table@, step@, trips as nat) == served(old(table)@, request@),
        decreases trips,
    {
        match step {
            UserDepartmentStep::Finish(result) => {
                return result;
            },
            UserDepartmentStep::Ask(command, pending) => {
                if trips == 0 {
                    return Err(WebdevError::new(WebdevErrorKind::Database));
                }
                let reply = table.execute(command);
                step = resume_user_department(pending, reply);
                trips = trips - 1;
            },
        }
    }
}

} // verus!
