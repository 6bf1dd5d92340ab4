//! The rows, the bodies and the search criteria of the two resources.

use crate::search::{NullableSearch, Search};
use vstd::prelude::*;

verus! {

/// The views of the items of a sequence, in order.
pub open spec fn views<T: View>(items: Seq<T>) -> Seq<T::V> {
    Seq::new(items.len(), |i: int| items[i]@)
}

/// A department, as the store holds it.
#[derive(Debug, PartialEq, Eq)]
pub struct Department {
    pub id: u64,
    pub name: String,
    pub abbreviation: String,
}

pub struct DepartmentView {
    pub id: u64,
    pub name: Seq<char>,
    pub abbreviation: Seq<char>,
}

impl View for Department {
    type V = DepartmentView;

    open spec fn view(&self) -> DepartmentView {
        DepartmentView { id: self.id, name: self.name@, abbreviation: self.abbreviation@ }
    }
}

impl Clone for Department {
    fn clone(&self) -> (copy: Department)
        ensures
            copy@ == self@,
    {
        Department {
            id: self.id,
            name: self.name.clone(),
            abbreviation: self.abbreviation.clone(),
        }
    }
}

/// The membership of one user in one department.
#[derive(Clone, Copy, Debug, PartialEq, Eq, Structural)]
pub struct UserDepartment {
    pub id: u64,
    pub user_id: u64,
    pub department_id: u64,
}

impl View for UserDepartment {
    type V = UserDepartment;

    open spec fn view(&self) -> UserDepartment {
        *self
    }
}

/// The columns of a user that a search for memberships reads. Users belong
/// to another part of the system; nothing here changes them.
#[derive(Debug, PartialEq, Eq)]
pub struct User {
    pub id: u64,
    pub first_name: String,
    pub last_name: String,
    pub email: Option<String>,
    pub banner_id: u32,
}

pub struct UserView {
    pub id: u64,
    pub first_name: Seq<char>,
    pub last_name: Seq<char>,
    pub email: Option<Seq<char>>,
    pub banner_id: u32,
}

impl View for User {
    type V = UserView;

    open spec fn view(&self) -> UserView {
        UserView {
            id: self.id,
            first_name: self.first_name@,
            last_name: self.last_name@,
            email: text_view(self.email),
            banner_id: self.banner_id,
        }
    }
}

/// A membership together with the user and the department it links.
#[derive(Debug, PartialEq, Eq)]
pub struct UserDepartmentJoin {
    pub id: u64,
    pub user_id: u64,
    pub department_id: u64,
    pub department_name: String,
    pub department_abbreviation: String,
    pub user_first_name: String,
    pub user_last_name: String,
    pub user_email: Option<String>,
    pub user_banner_id: u32,
}

pub struct UserDepartmentJoinView {
    pub id: u64,
    pub user_id: u64,
    pub department_id: u64,
    pub department_name: Seq<char>,
    pub department_abbreviation: Seq<char>,
    pub user_first_name: Seq<char>,
    pub user_last_name: Seq<char>,
    pub user_email: Option<Seq<char>>,
    pub user_banner_id: u32,
}

/// The view of a string that may be absent.
pub open spec fn text_view(text: Option<String>) -> Option<Seq<char>> {
    match text {
        Some(text) => Some(text@),
        None => None,
    }
}

impl Clone for UserDepartmentJoin {
    fn clone(&self) -> (copy: UserDepartmentJoin)
        ensures
            copy@ == self@,
    {
        UserDepartmentJoin {
            id: self.id,
            user_id: self.user_id,
            department_id: self.department_id,
            department_name: self.department_name.clone(),
            department_abbreviation: self.department_abbreviation.clone(),
            user_first_name: self.user_first_name.clone(),
            user_last_name: self.user_last_name.clone(),
            user_email: match &self.user_email {
                Some(email) => Some(email.clone()),
                None => None,
            },
            user_banner_id: self.user_banner_id,
        }
    }
}

impl View for UserDepartmentJoin {
    type V = UserDepartmentJoinView;

    open spec fn view(&self) -> UserDepartmentJoinView {
        UserDepartmentJoinView {
            id: self.id,
            user_id: self.user_id,
            department_id: self.department_id,
            department_name: self.department_name@,
            department_abbreviation: self.department_abbreviation@,
            user_first_name: self.user_first_name@,
            user_last_name: self.user_last_name@,
            user_email: text_view(self.user_email),
            user_banner_id: self.user_banner_id,
        }
    }
}

/// A department that the store has not yet given an id.
#[derive(Debug, PartialEq, Eq)]
pub struct NewDepartment {
    pub name: String,
    pub abbreviation: String,
}

pub struct NewDepartmentView {
    pub name: Seq<char>,
    pub abbreviation: Seq<char>,
}

impl View for NewDepartment {
    type V = NewDepartmentView;

    open spec fn view(&self) -> NewDepartmentView {
        NewDepartmentView { name: self.name@, abbreviation: self.abbreviation@ }
    }
}

/// A membership that the store has not yet given an id.
#[derive(Clone, Copy, Debug, PartialEq, Eq, Structural)]
pub struct NewUserDepartment {
    pub user_id: u64,
    pub department_id: u64,
}

impl View for NewUserDepartment {
    type V = NewUserDepartment;

    open spec fn view(&self) -> NewUserDepartment {
        *self
    }
}

/// The fields of a department to overwrite; an absent field is left as it is.
#[derive(Debug, PartialEq, Eq)]
pub struct PartialDepartment {
    pub name: Option<String>,
    pub abbreviation: Option<String>,
}

pub struct PartialDepartmentView {
    pub name: Option<Seq<char>>,
    pub abbreviation: Option<Seq<char>>,
}

impl View for PartialDepartment {
    type V = PartialDepartmentView;

    open spec fn view(&self) -> PartialDepartmentView {
        PartialDepartmentView {
            name: text_view(self.name),
            abbreviation: text_view(self.abbreviation),
        }
    }
}

/// The fields of a membership to overwrite; an absent field is left as it is.
#[derive(Clone, Copy, Debug, PartialEq, Eq, Structural)]
pub struct PartialUserDepartment {
    pub user_id: Option<u64>,
    pub department_id: Option<u64>,
}

impl View for PartialUserDepartment {
    type V = PartialUserDepartment;

    open spec fn view(&self) -> PartialUserDepartment {
        *self
    }
}

/// One criterion for each searchable field of a department.
#[derive(Debug, PartialEq, Eq)]
pub struct SearchDepartments {
    pub name: Search<String>,
    pub abbreviation: Search<String>,
}

pub struct SearchDepartmentsView {
    pub name: Search<Seq<char>>,
    pub abbreviation: Search<Seq<char>>,
}

impl View for SearchDepartments {
    type V = SearchDepartmentsView;

    open spec fn view(&self) -> SearchDepartmentsView {
        SearchDepartmentsView { name: self.name@, abbreviation: self.abbreviation@ }
    }
}

/// One criterion for each searchable field of a membership, its user and its
/// department.
#[derive(Debug, PartialEq, Eq)]
pub struct SearchUserDepartments {
    pub user_id: Search<u64>,
    pub department_id: Search<u64>,
    pub user_first_name: Search<String>,
    pub user_last_name: Search<String>,
    pub user_email: NullableSearch<String>,
    pub user_banner: Search<u32>,
    pub department_name: Search<String>,
    pub department_abbreviation: Search<String>,
}

pub struct SearchUserDepartmentsView {
    pub user_id: Search<u64>,
    pub department_id: Search<u64>,
    pub user_first_name: Search<Seq<char>>,
    pub user_last_name: Search<Seq<char>>,
    pub user_email: NullableSearch<Seq<char>>,
    pub user_banner: Search<u32>,
    pub department_name: Search<Seq<char>>,
    pub department_abbreviation: Search<Seq<char>>,
}

impl View for SearchUserDepartments {
    type V = SearchUserDepartmentsView;

    open spec fn view(&self) -> SearchUserDepartmentsView {
        SearchUserDepartmentsView {
            user_id: self.user_id@,
            department_id: self.department_id@,
            user_first_name: self.user_first_name@,
            user_last_name: self.user_last_name@,
            user_email: self.user_email@,
            user_banner: self.user_banner@,
            department_name: self.department_name@,
            department_abbreviation: self.department_abbreviation@,
        }
    }
}

/// The departments that a search found.
#[derive(Debug, PartialEq, Eq)]
pub struct DepartmentList {
    pub departments: Vec<Department>,
}

impl View for DepartmentList {
    type V = Seq<DepartmentView>;

    open spec fn view(&self) -> Seq<DepartmentView> {
        views(self.departments@)
    }
}

/// A list of memberships.
#[derive(Debug, PartialEq, Eq)]
pub struct UserDepartmentList {
    pub user_departments: Vec<UserDepartment>,
}

impl View for UserDepartmentList {
    type V = Seq<UserDepartment>;

    open spec fn view(&self) -> Seq<UserDepartment> {
        self.user_departments@
    }
}

/// The joined memberships that a search found.
#[derive(Debug, PartialEq, Eq)]
pub struct UserDepartmentJoinList {
    pub user_departments: Vec<UserDepartmentJoin>,
}

impl View for UserDepartmentJoinList {
    type V = Seq<UserDepartmentJoinView>;

    open spec fn view(&self) -> Seq<UserDepartmentJoinView> {
        views(self.user_departments@)
    }
}

/// What a client asks about departments.
#[derive(Debug, PartialEq, Eq)]
pub enum DepartmentRequest {
    SearchDepartments(SearchDepartments),
    GetDepartment(u64),
    CreateDepartment(NewDepartment),
    UpdateDepartment(u64, PartialDepartment),
    DeleteDepartment(u64),
}

pub enum DepartmentRequestView {
    SearchDepartments(SearchDepartmentsView),
    GetDepartment(u64),
    CreateDepartment(NewDepartmentView),
    UpdateDepartment(u64, PartialDepartmentView),
    DeleteDepartment(u64),
}

impl View for DepartmentRequest {
    type V = DepartmentRequestView;

    open spec fn view(&self) -> DepartmentRequestView {
        match self {
            DepartmentRequest::SearchDepartments(search) => {
                DepartmentRequestView::SearchDepartments(search@)
            },
            DepartmentRequest::GetDepartment(id) => DepartmentRequestView::GetDepartment(*id),
            DepartmentRequest::CreateDepartment(department) => {
                DepartmentRequestView::CreateDepartment(department@)
            },
            DepartmentRequest::UpdateDepartment(id, department) => {
                DepartmentRequestView::UpdateDepartment(*id, department@)
            },
            DepartmentRequest::DeleteDepartment(id) => DepartmentRequestView::DeleteDepartment(*id),
        }
    }
}

/// What a client asks about memberships.
#[derive(Debug, PartialEq, Eq)]
pub enum UserDepartmentRequest {
    SearchUserDepartments(SearchUserDepartments),
    GetUserDepartment(u64),
    CreateUserDepartment(NewUserDepartment),
    UpdateUserDepartment(u64, PartialUserDepartment),
    DeleteUserDepartment(u64),
}

pub enum UserDepartmentRequestView {
    SearchUserDepartments(SearchUserDepartmentsView),
    GetUserDepartment(u64),
    CreateUserDepartment(NewUserDepartment),
    UpdateUserDepartment(u64, PartialUserDepartment),
    DeleteUserDepartment(u64),
}

impl View for UserDepartmentRequest {
    type V = UserDepartmentRequestView;

    open spec fn view(&self) -> UserDepartmentRequestView {
        match self {
            UserDepartmentRequest::SearchUserDepartments(search) => {
                UserDepartmentRequestView::SearchUserDepartments(search@)
            },
            UserDepartmentRequest::GetUserDepartment(id) => {
                UserDepartmentRequestView::GetUserDepartment(*id)
            },
            UserDepartmentRequest::CreateUserDepartment(membership) => {
                UserDepartmentRequestView::CreateUserDepartment(*membership)
            },
            UserDepartmentRequest::UpdateUserDepartment(id, membership) => {
                UserDepartmentRequestView::UpdateUserDepartment(*id, *membership)
            },
            UserDepartmentRequest::DeleteUserDepartment(id) => {
                UserDepartmentRequestView::DeleteUserDepartment(*id)
            },
        }
    }
}

/// What a request about memberships is answered with.
#[derive(Debug, PartialEq, Eq)]
pub enum UserDepartmentResponse {
    OneUserDepartment(UserDepartment),
    ManyUserDepartments(UserDepartmentJoinList),
    NoResponse,
}

pub enum UserDepartmentResponseView {
    OneUserDepartment(UserDepartment),
    ManyUserDepartments(Seq<UserDepartmentJoinView>),
    NoResponse,
}

impl View for UserDepartmentResponse {
    type V = UserDepartmentResponseView;

    open spec fn view(&self) -> UserDepartmentResponseView {
        match self {
            UserDepartmentResponse::OneUserDepartment(membership) => {
                UserDepartmentResponseView::OneUserDepartment(*membership)
            },
            UserDepartmentResponse::ManyUserDepartments(list) => {
                UserDepartmentResponseView::ManyUserDepartments(list@)
            },
            UserDepartmentResponse::NoResponse => UserDepartmentResponseView::NoResponse,
        }
    }
}

/// What a request about departments is answered with.
#[derive(Debug, PartialEq, Eq)]
pub enum DepartmentResponse {
    OneDepartment(Department),
    ManyDepartments(DepartmentList),
    NoResponse,
}

pub enum DepartmentResponseView {
    OneDepartment(DepartmentView),
    ManyDepartments(Seq<DepartmentView>),
    NoResponse,
}

impl View for DepartmentResponse {
    type V = DepartmentResponseView;

    open spec fn view(&self) -> DepartmentResponseView {
        match self {
            DepartmentResponse::OneDepartment(department) => {
                DepartmentResponseView::OneDepartment(department@)
            },
            DepartmentResponse::ManyDepartments(list) => {
                DepartmentResponseView::ManyDepartments(list@)
            },
            DepartmentResponse::NoResponse => DepartmentResponseView::NoResponse,
        }
    }
}

} // verus!
