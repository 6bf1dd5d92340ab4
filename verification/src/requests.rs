//! What is asked of the store for each request, and what each of the store's
//! answers becomes. The store itself is not reached from here: one function
//! plans a round trip, another reads its outcome.

use crate::errors::{WebdevError, WebdevErrorKind};
use crate::models::{
    views, Department, DepartmentList, DepartmentRequest, DepartmentRequestView, DepartmentResponse,
    DepartmentResponseView, DepartmentView, NewDepartment, NewDepartmentView, NewUserDepartment,
    PartialDepartment, PartialDepartmentView, PartialUserDepartment, SearchDepartments,
    SearchDepartmentsView, SearchUserDepartments, SearchUserDepartmentsView, UserDepartment,
    UserDepartmentJoin, UserDepartmentJoinList, UserDepartmentJoinView, UserDepartmentRequest,
    UserDepartmentRequestView, UserDepartmentResponse, UserDepartmentResponseView,
};
use crate::query::{
    add_nullable_text_filter, add_number_filter, add_text_filter, admits, department_row,
    filter_by_id, id_filter, joined_row, lemma_admits_concat, lemma_nullable_text_filters,
    lemma_number_filters, lemma_text_filters, nullable_text_filters, nullable_text_meets,
    number_filters, number_meets, text_filters, text_meets, widen, widened, Column, Filter,
    FilterView, Join, Query, QueryView, Table,
};
use vstd::prelude::*;

verus! {

/// Whether a department meets every criterion of a search.
pub open spec fn department_matches(
    search: SearchDepartmentsView,
    department: DepartmentView,
) -> bool {
    &&& text_meets(search.name, department.name)
    &&& text_meets(search.abbreviation, department.abbreviation)
}

/// Whether a joined membership meets every criterion of a search.
pub open spec fn joined_matches(
    search: SearchUserDepartmentsView,
    joined: UserDepartmentJoinView,
) -> bool {
    &&& number_meets(search.user_id, joined.user_id)
    &&& number_meets(search.department_id, joined.department_id)
    &&& text_meets(search.user_first_name, joined.user_first_name)
    &&& text_meets(search.user_last_name, joined.user_last_name)
    &&& nullable_text_meets(search.user_email, joined.user_email)
    &&& number_meets(search.user_banner, joined.user_banner_id)
    &&& text_meets(search.department_name, joined.department_name)
    &&& text_meets(search.department_abbreviation, joined.department_abbreviation)
}

/// The filters of a search for departments: one for each field that is
/// looked at, the name first.
pub open spec fn department_filters(search: SearchDepartmentsView) -> Seq<FilterView> {
    text_filters(Column::DepartmentName, search.name) + text_filters(
        Column::DepartmentAbbreviation,
        search.abbreviation,
    )
}

/// The query of a search for departments.
pub open spec fn departments_query(search: SearchDepartmentsView) -> QueryView {
    QueryView { from: Table::Departments, joins: seq![], filters: department_filters(search) }
}

/// The filters of a search for memberships: one for each field that is
/// looked at, in the order of the fields.
pub open spec fn user_department_filters(search: SearchUserDepartmentsView) -> Seq<FilterView> {
    number_filters(Column::UserDepartmentUserId, search.user_id) + number_filters(
        Column::UserDepartmentDepartmentId,
        search.department_id,
    ) + text_filters(Column::UserFirstName, search.user_first_name) + text_filters(
        Column::UserLastName,
        search.user_last_name,
    ) + nullable_text_filters(Column::UserEmail, search.user_email) + number_filters(
        Column::UserBannerId,
        widened(search.user_banner),
    ) + text_filters(Column::DepartmentName, search.department_name) + text_filters(
        Column::DepartmentAbbreviation,
        search.department_abbreviation,
    )
}

/// The two joins of every search for memberships: each membership with its
/// user and with its department.
pub open spec fn membership_joins() -> Seq<Join> {
    seq![
        Join { table: Table::Users, left: Column::UserDepartmentUserId, right: Column::UserId },
        Join {
            table: Table::Departments,
            left: Column::UserDepartmentDepartmentId,
            right: Column::DepartmentId,
        },
    ]
}

/// Whether a list of joins is the one that every search for memberships has.
pub fn has_membership_joins(joins: &Vec<Join>) -> (same: bool)
    ensures
        same == (joins@ == membership_joins()),
{
    let same = joins.len() == 2 && joins[0] == Join {
        table: Table::Users,
        left: Column::UserDepartmentUserId,
        right: Column::UserId,
    } && joins[1] == Join {
        table: Table::Departments,
        left: Column::UserDepartmentDepartmentId,
        right: Column::DepartmentId,
    };
    proof {
        if same {
            assert(joins@ =~= membership_joins());
        }
    }
    same
}

/// The query of a search for memberships. The joins are there whatever
/// fields are looked at.
pub open spec fn user_departments_query(search: SearchUserDepartmentsView) -> QueryView {
    QueryView {
        from: Table::UserDepartments,
        joins: membership_joins(),
        filters: user_department_filters(search),
    }
}

/// A department passes the filters of a search exactly when it meets every
/// criterion of the search.
pub proof fn lemma_department_filters(search: SearchDepartmentsView, department: DepartmentView)
    ensures
        admits(department_filters(search), department_row(department)) <==> department_matches(
            search,
            department,
        ),
{
    let row = department_row(department);
    let name = text_filters(Column::DepartmentName, search.name);
    let abbreviation = text_filters(Column::DepartmentAbbreviation, search.abbreviation);
    lemma_text_filters(Column::DepartmentName, search.name, row, department.name);
    lemma_text_filters(
        Column::DepartmentAbbreviation,
        search.abbreviation,
        row,
        department.abbreviation,
    );
    lemma_admits_concat(name, abbreviation, row);
}

/// A joined membership passes the filters of a search exactly when it meets
/// every criterion of the search.
pub proof fn lemma_user_department_filters(
    search: SearchUserDepartmentsView,
    joined: UserDepartmentJoinView,
)
    ensures
        admits(user_department_filters(search), joined_row(joined)) <==> joined_matches(
            search,
            joined,
        ),
{
    let row = joined_row(joined);
    let f1 = number_filters(Column::UserDepartmentUserId, search.user_id);
    let f2 = number_filters(Column::UserDepartmentDepartmentId, search.department_id);
    let f3 = text_filters(Column::UserFirstName, search.user_first_name);
    let f4 = text_filters(Column::UserLastName, search.user_last_name);
    let f5 = nullable_text_filters(Column::UserEmail, search.user_email);
    let f6 = number_filters(Column::UserBannerId, widened(search.user_banner));
    let f7 = text_filters(Column::DepartmentName, search.department_name);
    let f8 = text_filters(Column::DepartmentAbbreviation, search.department_abbreviation);
    lemma_number_filters(Column::UserDepartmentUserId, search.user_id, row, joined.user_id);
    lemma_number_filters(
        Column::UserDepartmentDepartmentId,
        search.department_id,
        row,
        joined.department_id,
    );
    lemma_text_filters(Column::UserFirstName, search.user_first_name, row, joined.user_first_name);
    lemma_text_filters(Column::UserLastName, search.user_last_name, row, joined.user_last_name);
    lemma_nullable_text_filters(Column::UserEmail, search.user_email, row, joined.user_email);
    lemma_number_filters(
        Column::UserBannerId,
        widened(search.user_banner),
        row,
        joined.user_banner_id as u64,
    );
    lemma_text_filters(Column::DepartmentName, search.department_name, row, joined.department_name);
    lemma_text_filters(
        Column::DepartmentAbbreviation,
        search.department_abbreviation,
        row,
        joined.department_abbreviation,
    );
    lemma_admits_concat(f1, f2, row);
    lemma_admits_concat(f1 + f2, f3, row);
    lemma_admits_concat(f1 + f2 + f3, f4, row);
    lemma_admits_concat(f1 + f2 + f3 + f4, f5, row);
    lemma_admits_concat(f1 + f2 + f3 + f4 + f5, f6, row);
    lemma_admits_concat(f1 + f2 + f3 + f4 + f5 + f6, f7, row);
    lemma_admits_concat(f1 + f2 + f3 + f4 + f5 + f6 + f7, f8, row);
}

/// Builds the query of a search for departments.
pub fn search_departments(department: SearchDepartments) -> (query: Query)
    ensures
        query@ == departments_query(department@),
        forall|row: DepartmentView|
            admits(query@.filters, #[trigger] department_row(row)) <==> department_matches(
                department@,
                row,
            ),
{
    let mut filters: Vec<Filter> = Vec::new();
    assert(views(filters@) =~= Seq::<FilterView>::empty());
    add_text_filter(&mut filters, Column::DepartmentName, department.name);
    add_text_filter(&mut filters, Column::DepartmentAbbreviation, department.abbreviation);
    let query = Query { from: Table::Departments, joins: Vec::new(), filters };
    proof {
        assert(query@.filters =~= department_filters(department@));
        assert(query@.joins =~= Seq::<Join>::empty());
        assert forall|row: DepartmentView|
            admits(query@.filters, #[trigger] department_row(row)) <==> department_matches(
                department@,
                row,
            ) by {
            lemma_department_filters(department@, row);
        }
    }
    query
}

/// Builds the query of a search for memberships.
pub fn search_user_departments(user_department: SearchUserDepartments) -> (query: Query)
    ensures
        query@ == user_departments_query(user_department@),
        forall|row: UserDepartmentJoinView|
            admits(query@.filters, #[trigger] joined_row(row)) <==> joined_matches(
                user_department@,
                row,
            ),
{
    let mut joins: Vec<Join> = Vec::new();
    joins.push(
        Join { table: Table::Users, left: Column::UserDepartmentUserId, right: Column::UserId },
    );
    joins.push(
        Join {
            table: Table::Departments,
            left: Column::UserDepartmentDepartmentId,
            right: Column::DepartmentId,
        },
    );
    let mut filters: Vec<Filter> = Vec::new();
    assert(views(filters@) =~= Seq::<FilterView>::empty());
    add_number_filter(&mut filters, Column::UserDepartmentUserId, user_department.user_id);
    add_number_filter(
        &mut filters,
        Column::UserDepartmentDepartmentId,
        user_department.department_id,
    );
    add_text_filter(&mut filters, Column::UserFirstName, user_department.user_first_name);
    add_text_filter(&mut filters, Column::UserLastName, user_department.user_last_name);
    add_nullable_text_filter(&mut filters, Column::UserEmail, user_department.user_email);
    add_number_filter(&mut filters, Column::UserBannerId, widen(user_department.user_banner));
    add_text_filter(&mut filters, Column::DepartmentName, user_department.department_name);
    add_text_filter(
        &mut filters,
        Column::DepartmentAbbreviation,
        user_department.department_abbreviation,
    );
    let query = Query { from: Table::UserDepartments, joins, filters };
    proof {
        assert(query@.filters =~= user_department_filters(user_department@));
        assert(query@.joins =~= membership_joins());
        assert forall|row: UserDepartmentJoinView|
            admits(query@.filters, #[trigger] joined_row(row)) <==> joined_matches(
                user_department@,
                row,
            ) by {
            lemma_user_department_filters(user_department@, row);
        }
    }
    query
}

/// One round trip to the store about departments.
#[derive(Debug, PartialEq, Eq)]
pub enum DepartmentCommand {
    /// Load the rows that the query finds.
    Select(Query),
    /// Load the row that this session inserted last, if it is still there.
    SelectLastInserted,
    /// Add a row; the store gives it its id.
    Insert(NewDepartment),
    /// Overwrite the present fields in the row with this id, if there is one.
    Update(u64, PartialDepartment),
    /// Remove the row with this id, if there is one.
    Delete(u64),
}

pub enum DepartmentCommandView {
    Select(QueryView),
    SelectLastInserted,
    Insert(NewDepartmentView),
    Update(u64, PartialDepartmentView),
    Delete(u64),
}

impl View for DepartmentCommand {
    type V = DepartmentCommandView;

    open spec fn view(&self) -> DepartmentCommandView {
        match self {
            DepartmentCommand::Select(query) => DepartmentCommandView::Select(query@),
            DepartmentCommand::SelectLastInserted => DepartmentCommandView::SelectLastInserted,
            DepartmentCommand::Insert(department) => DepartmentCommandView::Insert(department@),
            DepartmentCommand::Update(id, department) => DepartmentCommandView::Update(
                *id,
                department@,
            ),
            DepartmentCommand::Delete(id) => DepartmentCommandView::Delete(*id),
        }
    }
}

/// What the store answered to one command about departments.
#[derive(Debug, PartialEq, Eq)]
pub enum DepartmentReply {
    /// The rows that were loaded.
    Rows(Vec<Department>),
    /// The statement ran; it gives no rows back.
    Done,
    /// The store reported a failure.
    Failed,
}

pub enum DepartmentReplyView {
    Rows(Seq<DepartmentView>),
    Done,
    Failed,
}

impl View for DepartmentReply {
    type V = DepartmentReplyView;

    open spec fn view(&self) -> DepartmentReplyView {
        match self {
            DepartmentReply::Rows(rows) => DepartmentReplyView::Rows(views(rows@)),
            DepartmentReply::Done => DepartmentReplyView::Done,
            DepartmentReply::Failed => DepartmentReplyView::Failed,
        }
    }
}

/// The round trip whose answer is awaited.
#[derive(Clone, Copy, Debug, PartialEq, Eq, Structural)]
pub enum Pending {
    Search,
    Get,
    Insert,
    Reread,
    Update,
    Delete,
}

/// What to do next for a request about departments.
#[derive(Debug, PartialEq, Eq)]
pub enum DepartmentStep {
    /// Send the command to the store and come back with its answer.
    Ask(DepartmentCommand, Pending),
    /// The request is done, with this outcome.
    Finish(Result<DepartmentResponse, WebdevError>),
}

pub enum DepartmentStepView {
    Ask(DepartmentCommandView, Pending),
    Finish(Result<DepartmentResponseView, WebdevError>),
}

impl View for DepartmentStep {
    type V = DepartmentStepView;

    open spec fn view(&self) -> DepartmentStepView {
        match self {
            DepartmentStep::Ask(command, pending) => DepartmentStepView::Ask(command@, *pending),
            DepartmentStep::Finish(Ok(response)) => DepartmentStepView::Finish(Ok(response@)),
            DepartmentStep::Finish(Err(error)) => DepartmentStepView::Finish(Err(*error)),
        }
    }
}

/// The query for the department with the given id.
pub open spec fn department_by_id(id: u64) -> QueryView {
    QueryView {
        from: Table::Departments,
        joins: seq![],
        filters: id_filter(Column::DepartmentId, id),
    }
}

/// What a lookup by id gives for the rows that were found: the row where
/// there is one, `NotFound` where there is none, and `Database` where there
/// are several, which a primary key rules out.
pub open spec fn lookup_outcome<R>(found: Seq<R>) -> Result<R, WebdevError> {
    if found.len() == 0 {
        Err(WebdevError { kind: WebdevErrorKind::NotFound })
    } else if found.len() == 1 {
        Ok(found[0])
    } else {
        Err(WebdevError { kind: WebdevErrorKind::Database })
    }
}

/// What a creation gives for the rows that were read back after the insert:
/// the last of them, or `Database` where there is none.
pub open spec fn reread_outcome<R>(inserted: Seq<R>) -> Result<R, WebdevError> {
    if inserted.len() == 0 {
        Err(WebdevError { kind: WebdevErrorKind::Database })
    } else {
        Ok(inserted.last())
    }
}

/// Whether an update of a department names no field.
pub open spec fn changes_nothing(department: PartialDepartmentView) -> bool {
    department.name is None && department.abbreviation is None
}

/// The first step for a request about departments.
pub open spec fn first_department_step(request: DepartmentRequestView) -> DepartmentStepView {
    match request {
        DepartmentRequestView::SearchDepartments(search) => DepartmentStepView::Ask(
            DepartmentCommandView::Select(departments_query(search)),
            Pending::Search,
        ),
        DepartmentRequestView::GetDepartment(id) => DepartmentStepView::Ask(
            DepartmentCommandView::Select(department_by_id(id)),
            Pending::Get,
        ),
        DepartmentRequestView::CreateDepartment(department) => DepartmentStepView::Ask(
            DepartmentCommandView::Insert(department),
            Pending::Insert,
        ),
        DepartmentRequestView::UpdateDepartment(id, department) => if changes_nothing(department) {
            DepartmentStepView::Finish(Ok(DepartmentResponseView::NoResponse))
        } else {
            DepartmentStepView::Ask(DepartmentCommandView::Update(id, department), Pending::Update)
        },
        DepartmentRequestView::DeleteDepartment(id) => DepartmentStepView::Ask(
            DepartmentCommandView::Delete(id),
            Pending::Delete,
        ),
    }
}

/// The step that follows the store's answer to the awaited round trip. A
/// failure of the store, and an answer of another shape than the round trip
/// gives, ends the request with `Database`.
pub open spec fn next_department_step(
    pending: Pending,
    reply: DepartmentReplyView,
) -> DepartmentStepView {
    match (pending, reply) {
        (Pending::Search, DepartmentReplyView::Rows(rows)) => DepartmentStepView::Finish(
            Ok(DepartmentResponseView::ManyDepartments(rows)),
        ),
        (Pending::Get, DepartmentReplyView::Rows(rows)) => DepartmentStepView::Finish(
            match lookup_outcome(rows) {
                Ok(row) => Ok(DepartmentResponseView::OneDepartment(row)),
                Err(error) => Err(error),
            },
        ),
        (Pending::Insert, DepartmentReplyView::Done) => DepartmentStepView::Ask(
            DepartmentCommandView::SelectLastInserted,
            Pending::Reread,
        ),
        (Pending::Reread, DepartmentReplyView::Rows(rows)) => DepartmentStepView::Finish(
            match reread_outcome(rows) {
                Ok(row) => Ok(DepartmentResponseView::OneDepartment(row)),
                Err(error) => Err(error),
            },
        ),
        (Pending::Update, DepartmentReplyView::Done) => DepartmentStepView::Finish(
            Ok(DepartmentResponseView::NoResponse),
        ),
        (Pending::Delete, DepartmentReplyView::Done) => DepartmentStepView::Finish(
            Ok(DepartmentResponseView::NoResponse),
        ),
        _ => DepartmentStepView::Finish(Err(WebdevError { kind: WebdevErrorKind::Database })),
    }
}

/// Builds a query for the row of `table` whose `column` holds `id`.
pub fn select_by_id(table: Table, column: Column, id: u64) -> (query: Query)
    ensures
        query@ == (QueryView { from: table, joins: seq![], filters: id_filter(column, id) }),
{
    let query = Query { from: table, joins: Vec::new(), filters: filter_by_id(column, id) };
    assert(query@.joins =~= Seq::<Join>::empty());
    query
}

/// Decides a lookup by id from the rows that were found.
pub fn get_department(found: Vec<Department>) -> (result: Result<Department, WebdevError>)
    ensures
        match result {
            Ok(department) => lookup_outcome(views(found@)) == Ok::<DepartmentView, WebdevError>(
                department@,
            ),
            Err(error) => lookup_outcome(views(found@)) == Err::<DepartmentView, WebdevError>(
                error,
            ),
        },
{
    let mut found = found;
    if found.len() > 1 {
        return Err(WebdevError::new(WebdevErrorKind::Database));
    }
    match found.pop() {
        Some(department) => Ok(department),
        None => Err(WebdevError::new(WebdevErrorKind::NotFound)),
    }
}

/// Decides a creation from the rows that were read back after the insert.
pub fn create_department(inserted: Vec<Department>) -> (result: Result<Department, WebdevError>)
    ensures
        match result {
            Ok(department) => reread_outcome(views(inserted@)) == Ok::<
                DepartmentView,
                WebdevError,
            >(department@),
            Err(error) => reread_outcome(views(inserted@)) == Err::<DepartmentView, WebdevError>(
                error,
            ),
        },
{
    let mut inserted = inserted;
    match inserted.pop() {
        Some(department) => Ok(department),
        None => Err(WebdevError::new(WebdevErrorKind::Database)),
    }
}

/// Plans an update: a round trip where a field is to be overwritten, and
/// nothing to do where none is.
pub fn update_department(id: u64, department: PartialDepartment) -> (step: DepartmentStep)
    ensures
        step@ == first_department_step(DepartmentRequestView::UpdateDepartment(id, department@)),
{
    if department.name.is_none() && department.abbreviation.is_none() {
        DepartmentStep::Finish(Ok(DepartmentResponse::NoResponse))
    } else {
        DepartmentStep::Ask(DepartmentCommand::Update(id, department), Pending::Update)
    }
}

/// Plans a removal.
pub fn delete_department(id: u64) -> (step: DepartmentStep)
    ensures
        step@ == first_department_step(DepartmentRequestView::DeleteDepartment(id)),
{
    DepartmentStep::Ask(DepartmentCommand::Delete(id), Pending::Delete)
}

/// Takes up a request about departments: says what to ask the store first,
/// or how the request ends where the store is not needed.
pub fn handle_department(request: DepartmentRequest) -> (step: DepartmentStep)
    ensures
        step@ == first_department_step(request@),
{
    match request {
        DepartmentRequest::SearchDepartments(department) => DepartmentStep::Ask(
            DepartmentCommand::Select(search_departments(department)),
            Pending::Search,
        ),
        DepartmentRequest::GetDepartment(id) => DepartmentStep::Ask(
            DepartmentCommand::Select(select_by_id(Table::Departments, Column::DepartmentId, id)),
            Pending::Get,
        ),
        DepartmentRequest::CreateDepartment(department) => DepartmentStep::Ask(
            DepartmentCommand::Insert(department),
            Pending::Insert,
        ),
        DepartmentRequest::UpdateDepartment(id, department) => update_department(id, department),
        DepartmentRequest::DeleteDepartment(id) => delete_department(id),
    }
}

/// Goes on with a request about departments once the store has answered the
/// awaited round trip.
pub fn resume_department(pending: Pending, reply: DepartmentReply) -> (step: DepartmentStep)
    ensures
        step@ == next_department_step(pending, reply@),
{
    match reply {
        DepartmentReply::Failed => DepartmentStep::Finish(
            Err(WebdevError::new(WebdevErrorKind::Database)),
        ),
        DepartmentReply::Rows(rows) => match pending {
            Pending::Search => DepartmentStep::Finish(
                Ok(DepartmentResponse::ManyDepartments(DepartmentList { departments: rows })),
            ),
            Pending::Get => match get_department(rows) {
                Ok(department) => DepartmentStep::Finish(
                    Ok(DepartmentResponse::OneDepartment(department)),
                ),
                Err(error) => DepartmentStep::Finish(Err(error)),
            },
            Pending::Reread => match create_department(rows) {
                Ok(department) => DepartmentStep::Finish(
                    Ok(DepartmentResponse::OneDepartment(department)),
                ),
                Err(error) => DepartmentStep::Finish(Err(error)),
            },
            _ => DepartmentStep::Finish(Err(WebdevError::new(WebdevErrorKind::Database))),
        },
        DepartmentReply::Done => match pending {
            Pending::Insert => DepartmentStep::Ask(
                DepartmentCommand::SelectLastInserted,
                Pending::Reread,
            ),
            Pending::Update | Pending::Delete => DepartmentStep::Finish(
                Ok(DepartmentResponse::NoResponse),
            ),
            _ => DepartmentStep::Finish(Err(WebdevError::new(WebdevErrorKind::Database))),
        },
    }
}

/// One round trip to the store about memberships.
#[derive(Debug, PartialEq, Eq)]
pub enum UserDepartmentCommand {
    /// Load the joined rows that the query finds.
    SelectJoined(Query),
    /// Load the memberships that the query finds.
    Select(Query),
    /// Load the membership that this session inserted last, if it is still there.
    SelectLastInserted,
    /// Add a membership; the store gives it its id.
    Insert(NewUserDepartment),
    /// Overwrite the present fields in the membership with this id, if there is one.
    Update(u64, PartialUserDepartment),
    /// Remove the membership with this id, if there is one.
    Delete(u64),
}

pub enum UserDepartmentCommandView {
    SelectJoined(QueryView),
    Select(QueryView),
    SelectLastInserted,
    Insert(NewUserDepartment),
    Update(u64, PartialUserDepartment),
    Delete(u64),
}

impl View for UserDepartmentCommand {
    type V = UserDepartmentCommandView;

    open spec fn view(&self) -> UserDepartmentCommandView {
        match self {
            UserDepartmentCommand::SelectJoined(query) => UserDepartmentCommandView::SelectJoined(
                query@,
            ),
            UserDepartmentCommand::Select(query) => UserDepartmentCommandView::Select(query@),
            UserDepartmentCommand::SelectLastInserted => {
                UserDepartmentCommandView::SelectLastInserted
            },
            UserDepartmentCommand::Insert(membership) => UserDepartmentCommandView::Insert(
                *membership,
            ),
            UserDepartmentCommand::Update(id, membership) => UserDepartmentCommandView::Update(
                *id,
                *membership,
            ),
            UserDepartmentCommand::Delete(id) => UserDepartmentCommandView::Delete(*id),
        }
    }
}

/// What the store answered to one command about memberships.
#[derive(Debug, PartialEq, Eq)]
pub enum UserDepartmentReply {
    /// The joined rows that were loaded.
    Joined(Vec<UserDepartmentJoin>),
    /// The memberships that were loaded.
    Rows(Vec<UserDepartment>),
    /// The statement ran; it gives no rows back.
    Done,
    /// The store reported a failure.
    Failed,
}

pub enum UserDepartmentReplyView {
    Joined(Seq<UserDepartmentJoinView>),
    Rows(Seq<UserDepartment>),
    Done,
    Failed,
}

impl View for UserDepartmentReply {
    type V = UserDepartmentReplyView;

    open spec fn view(&self) -> UserDepartmentReplyView {
        match self {
            UserDepartmentReply::Joined(rows) => UserDepartmentReplyView::Joined(views(rows@)),
            UserDepartmentReply::Rows(rows) => UserDepartmentReplyView::Rows(rows@),
            UserDepartmentReply::Done => UserDepartmentReplyView::Done,
            UserDepartmentReply::Failed => UserDepartmentReplyView::Failed,
        }
    }
}

/// What to do next for a request about memberships.
#[derive(Debug, PartialEq, Eq)]
pub enum UserDepartmentStep {
    /// Send the command to the store and come back with its answer.
    Ask(UserDepartmentCommand, Pending),
    /// The request is done, with this outcome.
    Finish(Result<UserDepartmentResponse, WebdevError>),
}

pub enum UserDepartmentStepView {
    Ask(UserDepartmentCommandView, Pending),
    Finish(Result<UserDepartmentResponseView, WebdevError>),
}

impl View for UserDepartmentStep {
    type V = UserDepartmentStepView;

    open spec fn view(&self) -> UserDepartmentStepView {
        match self {
            UserDepartmentStep::Ask(command, pending) => UserDepartmentStepView::Ask(
                command@,
                *pending,
            ),
            UserDepartmentStep::Finish(Ok(response)) => UserDepartmentStepView::Finish(
                Ok(response@),
            ),
            UserDepartmentStep::Finish(Err(error)) => UserDepartmentStepView::Finish(Err(*error)),
        }
    }
}

/// The query for the membership with the given id.
pub open spec fn user_department_by_id(id: u64) -> QueryView {
    QueryView {
        from: Table::UserDepartments,
        joins: seq![],
        filters: id_filter(Column::UserDepartmentId, id),
    }
}

/// Whether an update of a membership names no field.
pub open spec fn changes_no_reference(membership: PartialUserDepartment) -> bool {
    membership.user_id is None && membership.department_id is None
}

/// The first step for a request about memberships.
pub open spec fn first_user_department_step(
    request: UserDepartmentRequestView,
) -> UserDepartmentStepView {
    match request {
        UserDepartmentRequestView::SearchUserDepartments(search) => UserDepartmentStepView::Ask(
            UserDepartmentCommandView::SelectJoined(user_departments_query(search)),
            Pending::Search,
        ),
        UserDepartmentRequestView::GetUserDepartment(id) => UserDepartmentStepView::Ask(
            UserDepartmentCommandView::Select(user_department_by_id(id)),
            Pending::Get,
        ),
        UserDepartmentRequestView::CreateUserDepartment(membership) => UserDepartmentStepView::Ask(
            UserDepartmentCommandView::Insert(membership),
            Pending::Insert,
        ),
        UserDepartmentRequestView::UpdateUserDepartment(id, membership) => if changes_no_reference(
            membership,
        ) {
            UserDepartmentStepView::Finish(Ok(UserDepartmentResponseView::NoResponse))
        } else {
            UserDepartmentStepView::Ask(
                UserDepartmentCommandView::Update(id, membership),
                Pending::Update,
            )
        },
        UserDepartmentRequestView::DeleteUserDepartment(id) => UserDepartmentStepView::Ask(
            UserDepartmentCommandView::Delete(id),
            Pending::Delete,
        ),
    }
}

/// The step that follows the store's answer to the awaited round trip. A
/// failure of the store, and an answer of another shape than the round trip
/// gives, ends the request with `Database`.
pub open spec fn next_user_department_step(
    pending: Pending,
    reply: UserDepartmentReplyView,
) -> UserDepartmentStepView {
    match (pending, reply) {
        (Pending::Search, UserDepartmentReplyView::Joined(rows)) => UserDepartmentStepView::Finish(
            Ok(UserDepartmentResponseView::ManyUserDepartments(rows)),
        ),
        (Pending::Get, UserDepartmentReplyView::Rows(rows)) => UserDepartmentStepView::Finish(
            match lookup_outcome(rows) {
                Ok(row) => Ok(UserDepartmentResponseView::OneUserDepartment(row)),
                Err(error) => Err(error),
            },
        ),
        (Pending::Insert, UserDepartmentReplyView::Done) => UserDepartmentStepView::Ask(
            UserDepartmentCommandView::SelectLastInserted,
            Pending::Reread,
        ),
        (Pending::Reread, UserDepartmentReplyView::Rows(rows)) => UserDepartmentStepView::Finish(
            match reread_outcome(rows) {
                Ok(row) => Ok(UserDepartmentResponseView::OneUserDepartment(row)),
                Err(error) => Err(error),
            },
        ),
        (Pending::Update, UserDepartmentReplyView::Done) => UserDepartmentStepView::Finish(
            Ok(UserDepartmentResponseView::NoResponse),
        ),
        (Pending::Delete, UserDepartmentReplyView::Done) => UserDepartmentStepView::Finish(
            Ok(UserDepartmentResponseView::NoResponse),
        ),
        _ => UserDepartmentStepView::Finish(Err(WebdevError { kind: WebdevErrorKind::Database })),
    }
}

/// Decides a lookup by id from the memberships that were found.
pub fn get_user_department(found: Vec<UserDepartment>) -> (result: Result<
    UserDepartment,
    WebdevError,
>)
    ensures
        result == lookup_outcome(found@),
{
    let mut found = found;
    if found.len() > 1 {
        return Err(WebdevError::new(WebdevErrorKind::Database));
    }
    match found.pop() {
        Some(membership) => Ok(membership),
        None => Err(WebdevError::new(WebdevErrorKind::NotFound)),
    }
}

/// Decides a creation from the memberships that were read back after the insert.
pub fn create_user_department(inserted: Vec<UserDepartment>) -> (result: Result<
    UserDepartment,
    WebdevError,
>)
    ensures
        result == reread_outcome(inserted@),
{
    let mut inserted = inserted;
    match inserted.pop() {
        Some(membership) => Ok(membership),
        None => Err(WebdevError::new(WebdevErrorKind::Database)),
    }
}

/// Plans an update: a round trip where a field is to be overwritten, and
/// nothing to do where none is.
pub fn update_user_department(id: u64, user_department: PartialUserDepartment) -> (step:
    UserDepartmentStep)
    ensures
        step@ == first_user_department_step(
            UserDepartmentRequestView::UpdateUserDepartment(id, user_department),
        ),
{
    if user_department.user_id.is_none() && user_department.department_id.is_none() {
        UserDepartmentStep::Finish(Ok(UserDepartmentResponse::NoResponse))
    } else {
        UserDepartmentStep::Ask(UserDepartmentCommand::Update(id, user_department), Pending::Update)
    }
}

/// Plans a removal.
pub fn delete_user_department(id: u64) -> (step: UserDepartmentStep)
    ensures
        step@ == first_user_department_step(UserDepartmentRequestView::DeleteUserDepartment(id)),
{
    UserDepartmentStep::Ask(UserDepartmentCommand::Delete(id), Pending::Delete)
}

/// Takes up a request about memberships: says what to ask the store first,
/// or how the request ends where the store is not needed.
pub fn handle_user_department(request: UserDepartmentRequest) -> (step: UserDepartmentStep)
    ensures
        step@ == first_user_department_step(request@),
{
    match request {
        UserDepartmentRequest::SearchUserDepartments(user_department) => UserDepartmentStep::Ask(
            UserDepartmentCommand::SelectJoined(search_user_departments(user_department)),
            Pending::Search,
        ),
        UserDepartmentRequest::GetUserDepartment(id) => UserDepartmentStep::Ask(
            UserDepartmentCommand::Select(
                select_by_id(Table::UserDepartments, Column::UserDepartmentId, id),
            ),
            Pending::Get,
        ),
        UserDepartmentRequest::CreateUserDepartment(user_department) => UserDepartmentStep::Ask(
            UserDepartmentCommand::Insert(user_department),
            Pending::Insert,
        ),
        UserDepartmentRequest::UpdateUserDepartment(id, user_department) => update_user_department(
            id,
            user_department,
        ),
        UserDepartmentRequest::DeleteUserDepartment(id) => delete_user_department(id),
    }
}

/// Goes on with a request about memberships once the store has answered the
/// awaited round trip.
pub fn resume_user_department(pending: Pending, reply: UserDepartmentReply) -> (step:
    UserDepartmentStep)
    ensures
        step@ == next_user_department_step(pending, reply@),
{
    match reply {
        UserDepartmentReply::Failed => UserDepartmentStep::Finish(
            Err(WebdevError::new(WebdevErrorKind::Database)),
        ),
        UserDepartmentReply::Joined(rows) => match pending {
            Pending::Search => UserDepartmentStep::Finish(
                Ok(
                    UserDepartmentResponse::ManyUserDepartments(
                        UserDepartmentJoinList { user_departments: rows },
                    ),
                ),
            ),
            _ => UserDepartmentStep::Finish(Err(WebdevError::new(WebdevErrorKind::Database))),
        },
        UserDepartmentReply::Rows(rows) => match pending {
            Pending::Get => match get_user_department(rows) {
                Ok(membership) => UserDepartmentStep::Finish(
                    Ok(UserDepartmentResponse::OneUserDepartment(membership)),
                ),
                Err(error) => UserDepartmentStep::Finish(Err(error)),
            },
            Pending::Reread => match create_user_department(rows) {
                Ok(membership) => UserDepartmentStep::Finish(
                    Ok(UserDepartmentResponse::OneUserDepartment(membership)),
                ),
                Err(error) => UserDepartmentStep::Finish(Err(error)),
            },
            _ => UserDepartmentStep::Finish(Err(WebdevError::new(WebdevErrorKind::Database))),
        },
        UserDepartmentReply::Done => match pending {
            Pending::Insert => UserDepartmentStep::Ask(
                UserDepartmentCommand::SelectLastInserted,
                Pending::Reread,
            ),
            Pending::Update | Pending::Delete => UserDepartmentStep::Finish(
                Ok(UserDepartmentResponse::NoResponse),
            ),
            _ => UserDepartmentStep::Finish(Err(WebdevError::new(WebdevErrorKind::Database))),
        },
    }
}

} // verus!
