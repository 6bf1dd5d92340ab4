use departments::errors::{WebdevError, WebdevErrorKind};
use departments::models::{
    Department, DepartmentList, DepartmentRequest, DepartmentResponse, NewDepartment,
    NewUserDepartment, PartialDepartment, PartialUserDepartment, SearchDepartments,
    UserDepartment, UserDepartmentJoin, UserDepartmentJoinList, UserDepartmentRequest,
    UserDepartmentResponse,
};
use departments::query::{Column, Table};
use departments::requests::{
    create_department, create_user_department, delete_department, delete_user_department,
    get_department, get_user_department, handle_department, handle_user_department,
    resume_department, resume_user_department, search_departments, select_by_id,
    update_department, update_user_department, DepartmentCommand, DepartmentReply,
    DepartmentStep, Pending, UserDepartmentCommand, UserDepartmentReply, UserDepartmentStep,
};
use departments::search::Search;

fn cs(id: u64) -> Department {
    Department { id, name: "Computer Science".to_string(), abbreviation: "CS".to_string() }
}

fn database() -> WebdevError {
    WebdevError::new(WebdevErrorKind::Database)
}

#[test]
fn error_kinds_map_to_status_codes() {
    assert_eq!(WebdevError::new(WebdevErrorKind::Format).status_code(), 400);
    assert_eq!(WebdevError::new(WebdevErrorKind::FormatInvalidBody).status_code(), 400);
    assert_eq!(WebdevError::new(WebdevErrorKind::NotFound).status_code(), 404);
    assert_eq!(WebdevError::new(WebdevErrorKind::Database).status_code(), 500);
    assert_eq!(WebdevError::new(WebdevErrorKind::NotFound).kind(), WebdevErrorKind::NotFound);
}

#[test]
fn lookup_wants_exactly_one_row() {
    assert_eq!(get_department(vec![]).unwrap_err().kind, WebdevErrorKind::NotFound);
    assert_eq!(get_department(vec![cs(4)]).unwrap(), cs(4));
    assert_eq!(get_department(vec![cs(4), cs(4)]).unwrap_err().kind, WebdevErrorKind::Database);
    let m = UserDepartment { id: 1, user_id: 2, department_id: 3 };
    assert_eq!(get_user_department(vec![]).unwrap_err().kind, WebdevErrorKind::NotFound);
    assert_eq!(get_user_department(vec![m]).unwrap(), m);
    assert_eq!(get_user_department(vec![m, m]).unwrap_err().kind, WebdevErrorKind::Database);
}

#[test]
fn creation_wants_the_row_back() {
    assert_eq!(create_department(vec![]).unwrap_err().kind, WebdevErrorKind::Database);
    assert_eq!(create_department(vec![cs(4)]).unwrap(), cs(4));
    assert_eq!(create_department(vec![cs(4), cs(5)]).unwrap(), cs(5));
    let m = UserDepartment { id: 1, user_id: 2, department_id: 3 };
    let n = UserDepartment { id: 2, user_id: 2, department_id: 3 };
    assert_eq!(create_user_department(vec![]).unwrap_err().kind, WebdevErrorKind::Database);
    assert_eq!(create_user_department(vec![m, n]).unwrap(), n);
}

#[test]
fn first_steps_for_departments() {
    let search = || SearchDepartments { name: Search::Exact("x".to_string()), abbreviation: Search::NoSearch };
    assert_eq!(
        handle_department(DepartmentRequest::SearchDepartments(search())),
        DepartmentStep::Ask(DepartmentCommand::Select(search_departments(search())), Pending::Search)
    );
    assert_eq!(
        handle_department(DepartmentRequest::GetDepartment(7)),
        DepartmentStep::Ask(
            DepartmentCommand::Select(select_by_id(Table::Departments, Column::DepartmentId, 7)),
            Pending::Get
        )
    );
    let new = || NewDepartment { name: "N".to_string(), abbreviation: "A".to_string() };
    assert_eq!(
        handle_department(DepartmentRequest::CreateDepartment(new())),
        DepartmentStep::Ask(DepartmentCommand::Insert(new()), Pending::Insert)
    );
    let fields = || PartialDepartment { name: None, abbreviation: Some("B".to_string()) };
    assert_eq!(
        handle_department(DepartmentRequest::UpdateDepartment(7, fields())),
        DepartmentStep::Ask(DepartmentCommand::Update(7, fields()), Pending::Update)
    );
    assert_eq!(update_department(7, fields()), handle_department(DepartmentRequest::UpdateDepartment(7, fields())));
    assert_eq!(
        handle_department(DepartmentRequest::DeleteDepartment(7)),
        DepartmentStep::Ask(DepartmentCommand::Delete(7), Pending::Delete)
    );
    assert_eq!(delete_department(7), handle_department(DepartmentRequest::DeleteDepartment(7)));
}

#[test]
fn update_of_nothing_needs_no_store() {
    assert_eq!(
        handle_department(DepartmentRequest::UpdateDepartment(
            7,
            PartialDepartment { name: None, abbreviation: None }
        )),
        DepartmentStep::Finish(Ok(DepartmentResponse::NoResponse))
    );
    assert_eq!(
        handle_user_department(UserDepartmentRequest::UpdateUserDepartment(
            7,
            PartialUserDepartment { user_id: None, department_id: None }
        )),
        UserDepartmentStep::Finish(Ok(UserDepartmentResponse::NoResponse))
    );
    assert_eq!(
        update_user_department(7, PartialUserDepartment { user_id: Some(0), department_id: None }),
        UserDepartmentStep::Ask(
            UserDepartmentCommand::Update(
                7,
                PartialUserDepartment { user_id: Some(0), department_id: None }
            ),
            Pending::Update
        )
    );
}

#[test]
fn next_steps_for_departments() {
    assert_eq!(
        resume_department(Pending::Search, DepartmentReply::Rows(vec![cs(1), cs(2)])),
        DepartmentStep::Finish(Ok(DepartmentResponse::ManyDepartments(DepartmentList {
            departments: vec![cs(1), cs(2)]
        })))
    );
    assert_eq!(
        resume_department(Pending::Search, DepartmentReply::Rows(vec![])),
        DepartmentStep::Finish(Ok(DepartmentResponse::ManyDepartments(DepartmentList {
            departments: vec![]
        })))
    );
    assert_eq!(
        resume_department(Pending::Get, DepartmentReply::Rows(vec![cs(1)])),
        DepartmentStep::Finish(Ok(DepartmentResponse::OneDepartment(cs(1))))
    );
    assert_eq!(
        resume_department(Pending::Get, DepartmentReply::Rows(vec![])),
        DepartmentStep::Finish(Err(WebdevError::new(WebdevErrorKind::NotFound)))
    );
    assert_eq!(
        resume_department(Pending::Insert, DepartmentReply::Done),
        DepartmentStep::Ask(DepartmentCommand::SelectLastInserted, Pending::Reread)
    );
    assert_eq!(
        resume_department(Pending::Reread, DepartmentReply::Rows(vec![cs(9)])),
        DepartmentStep::Finish(Ok(DepartmentResponse::OneDepartment(cs(9))))
    );
    assert_eq!(
        resume_department(Pending::Reread, DepartmentReply::Rows(vec![])),
        DepartmentStep::Finish(Err(database()))
    );
    assert_eq!(
        resume_department(Pending::Update, DepartmentReply::Done),
        DepartmentStep::Finish(Ok(DepartmentResponse::NoResponse))
    );
    assert_eq!(
        resume_department(Pending::Delete, DepartmentReply::Done),
        DepartmentStep::Finish(Ok(DepartmentResponse::NoResponse))
    );
}

#[test]
fn store_failures_and_wrong_answers_end_in_database() {
    for pending in [
        Pending::Search,
        Pending::Get,
        Pending::Insert,
        Pending::Reread,
        Pending::Update,
        Pending::Delete,
    ] {
        assert_eq!(
            resume_department(pending, DepartmentReply::Failed),
            DepartmentStep::Finish(Err(database()))
        );
        assert_eq!(
            resume_user_department(pending, UserDepartmentReply::Failed),
            UserDepartmentStep::Finish(Err(database()))
        );
    }
    assert_eq!(
        resume_department(Pending::Search, DepartmentReply::Done),
        DepartmentStep::Finish(Err(database()))
    );
    assert_eq!(
        resume_department(Pending::Insert, DepartmentReply::Rows(vec![cs(1)])),
        DepartmentStep::Finish(Err(database()))
    );
    assert_eq!(
        resume_department(Pending::Delete, DepartmentReply::Rows(vec![])),
        DepartmentStep::Finish(Err(database()))
    );
    assert_eq!(
        resume_user_department(Pending::Search, UserDepartmentReply::Rows(vec![])),
        UserDepartmentStep::Finish(Err(database()))
    );
    assert_eq!(
        resume_user_department(Pending::Get, UserDepartmentReply::Joined(vec![])),
        UserDepartmentStep::Finish(Err(database()))
    );
}

#[test]
fn steps_for_memberships() {
    let m = UserDepartment { id: 1, user_id: 2, department_id: 3 };
    assert_eq!(
        handle_user_department(UserDepartmentRequest::GetUserDepartment(1)),
        UserDepartmentStep::Ask(
            UserDepartmentCommand::Select(select_by_id(
                Table::UserDepartments,
                Column::UserDepartmentId,
                1
            )),
            Pending::Get
        )
    );
    assert_eq!(
        handle_user_department(UserDepartmentRequest::CreateUserDepartment(NewUserDepartment {
            user_id: 2,
            department_id: 3
        })),
        UserDepartmentStep::Ask(
            UserDepartmentCommand::Insert(NewUserDepartment { user_id: 2, department_id: 3 }),
            Pending::Insert
        )
    );
    assert_eq!(
        delete_user_department(4),
        UserDepartmentStep::Ask(UserDepartmentCommand::Delete(4), Pending::Delete)
    );
    assert_eq!(
        resume_user_department(Pending::Insert, UserDepartmentReply::Done),
        UserDepartmentStep::Ask(UserDepartmentCommand::SelectLastInserted, Pending::Reread)
    );
    assert_eq!(
        resume_user_department(Pending::Reread, UserDepartmentReply::Rows(vec![m])),
        UserDepartmentStep::Finish(Ok(UserDepartmentResponse::OneUserDepartment(m)))
    );
    assert_eq!(
        resume_user_department(Pending::Get, UserDepartmentReply::Rows(vec![])),
        UserDepartmentStep::Finish(Err(WebdevError::new(WebdevErrorKind::NotFound)))
    );
    let row = UserDepartmentJoin {
        id: 1,
        user_id: 2,
        department_id: 3,
        department_name: "Mathematics".to_string(),
        department_abbreviation: "MATH".to_string(),
        user_first_name: "Emmy".to_string(),
        user_last_name: "Noether".to_string(),
        user_email: None,
        user_banner_id: 5,
    };
    assert_eq!(
        resume_user_department(Pending::Search, UserDepartmentReply::Joined(vec![row.clone()])),
        UserDepartmentStep::Finish(Ok(UserDepartmentResponse::ManyUserDepartments(
            UserDepartmentJoinList { user_departments: vec![row] }
        )))
    );
}
