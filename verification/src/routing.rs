//! From a request line, the pairs of its query and its decoded body to a
//! typed request.

use crate::errors::{WebdevError, WebdevErrorKind};
use crate::http::{
    form_pairs, pair_views, path_of, path_shape, query_of, Body, Content, PathShape, Request,
    Response,
};
use crate::models::{
    Department, DepartmentList, DepartmentRequest, DepartmentRequestView, DepartmentResponse,
    DepartmentResponseView, DepartmentView, NewDepartment, NewDepartmentView, NewUserDepartment,
    PartialDepartment, PartialDepartmentView, PartialUserDepartment, SearchDepartments,
    SearchDepartmentsView, SearchUserDepartments, SearchUserDepartmentsView, UserDepartment,
    UserDepartmentJoinList, UserDepartmentJoinView, UserDepartmentRequest,
    UserDepartmentRequestView, UserDepartmentResponse, UserDepartmentResponseView,
};
use crate::search::{NullableSearch, Search};
use crate::text::same_text;
use vstd::prelude::*;

verus! {

/// A search for departments that looks at no field.
pub open spec fn any_department() -> SearchDepartmentsView {
    SearchDepartmentsView { name: Search::NoSearch, abbreviation: Search::NoSearch }
}

/// A search for departments after one more pair of the query: the pair sets
/// the criterion of the field it names. `None` where it names no field, or
/// where its value writes no criterion.
pub open spec fn with_department_pair(
    search: SearchDepartmentsView,
    field: Seq<char>,
    value: Seq<char>,
) -> Option<SearchDepartmentsView> {
    if field == "name"@ {
        match Search::<String>::parsed(value) {
            Some(name) => Some(SearchDepartmentsView { name, abbreviation: search.abbreviation }),
            None => None,
        }
    } else if field == "abbreviation"@ {
        match Search::<String>::parsed(value) {
            Some(abbreviation) => Some(SearchDepartmentsView { name: search.name, abbreviation }),
            None => None,
        }
    } else {
        None
    }
}

/// The search for departments that the pairs of a query write: each pair in
/// turn sets a criterion, a later pair for a field replacing an earlier one.
/// `None` where any pair is refused.
pub open spec fn department_search_of(
    pairs: Seq<(Seq<char>, Seq<char>)>,
) -> Option<SearchDepartmentsView>
    decreases pairs.len(),
{
    if pairs.len() == 0 {
        Some(any_department())
    } else {
        match department_search_of(pairs.drop_last()) {
            Some(search) => with_department_pair(search, pairs.last().0, pairs.last().1),
            None => None,
        }
    }
}

/// Once a prefix of the pairs is refused, the whole list is.
proof fn lemma_department_search_refused(pairs: Seq<(Seq<char>, Seq<char>)>, k: int)
    requires
        0 <= k <= pairs.len(),
        department_search_of(pairs.take(k)) is None,
    ensures
        department_search_of(pairs) is None,
    decreases pairs.len() - k,
{
    if k == pairs.len() {
        assert(pairs.take(k) =~= pairs);
    } else {
        assert(pairs.take(k + 1).drop_last() =~= pairs.take(k));
        lemma_department_search_refused(pairs, k + 1);
    }
}

/// Reads the criteria of a search for departments from the pairs of a query.
pub fn department_search(pairs: &Vec<(String, String)>) -> (result: Result<
    SearchDepartments,
    WebdevError,
>)
    ensures
        match result {
            Ok(search) => department_search_of(pair_views(pairs@)) == Some(search@),
            Err(error) => department_search_of(pair_views(pairs@)) is None && error.kind
                == WebdevErrorKind::Format,
        },
{
    let mut name_search: Search<String> = Search::NoSearch;
    let mut abbreviation_search: Search<String> = Search::NoSearch;
    let ghost all = pair_views(pairs@);
    let mut i: usize = 0;
    while i < pairs.len()
        invariant
            i <= pairs.len(),
            all == pair_views(pairs@),
            department_search_of(all.take(i as int)) == Some(
                SearchDepartmentsView { name: name_search@, abbreviation: abbreviation_search@ },
            ),
        decreases pairs.len() - i,
    {
        let field = pairs[i].0.as_str();
        let query = pairs[i].1.as_str();
        proof {
            assert(all.take(i + 1).drop_last() =~= all.take(i as int));
            assert(all.take(i + 1).last() == (field@, query@));
        }
        let mut refused = false;
        if same_text(field, "name") {
            match Search::<String>::from_query(query) {
                Ok(search) => {
                    name_search = search;
                },
                Err(_) => {
                    refused = true;
                },
            }
        } else if same_text(field, "abbreviation") {
            match Search::<String>::from_query(query) {
                Ok(search) => {
                    abbreviation_search = search;
                },
                Err(_) => {
                    refused = true;
                },
            }
        } else {
            refused = true;
        }
        if refused {
            proof {
                lemma_department_search_refused(all, i + 1);
            }
            return Err(WebdevError::new(WebdevErrorKind::Format));
        }
        i += 1;
    }
    assert(all.take(i as int) =~= all);
    Ok(SearchDepartments { name: name_search, abbreviation: abbreviation_search })
}

/// The request about departments that a request line, the pairs of its
/// query and its body amount to, or the failure they end in. Where a body is
/// called for, a missing one ends in `FormatInvalidBody`, and one that is
/// malformed or of the other kind in `Format`.
pub open spec fn department_request_of(
    method: Seq<char>,
    shape: PathShape,
    pairs: Seq<(Seq<char>, Seq<char>)>,
    body: Body<NewDepartmentView, PartialDepartmentView>,
) -> Result<DepartmentRequestView, WebdevError> {
    if method == "GET"@ && shape is Collection {
        match department_search_of(pairs) {
            Some(search) => Ok(DepartmentRequestView::SearchDepartments(search)),
            None => Err(WebdevError { kind: WebdevErrorKind::Format }),
        }
    } else if method == "GET"@ && shape is Item {
        Ok(DepartmentRequestView::GetDepartment(shape->Item_0))
    } else if method == "POST"@ && shape is Collection {
        match body {
            Body::New(department) => Ok(DepartmentRequestView::CreateDepartment(department)),
            Body::Missing => Err(WebdevError { kind: WebdevErrorKind::FormatInvalidBody }),
            _ => Err(WebdevError { kind: WebdevErrorKind::Format }),
        }
    } else if method == "POST"@ && shape is Item {
        match body {
            Body::Partial(department) => Ok(
                DepartmentRequestView::UpdateDepartment(shape->Item_0, department),
            ),
            Body::Missing => Err(WebdevError { kind: WebdevErrorKind::FormatInvalidBody }),
            _ => Err(WebdevError { kind: WebdevErrorKind::Format }),
        }
    } else if method == "DELETE"@ && shape is Item {
        Ok(DepartmentRequestView::DeleteDepartment(shape->Item_0))
    } else {
        Err(WebdevError { kind: WebdevErrorKind::NotFound })
    }
}

proof fn lemma_methods_differ()
    ensures
        "GET"@ != "POST"@,
        "GET"@ != "DELETE"@,
        "POST"@ != "DELETE"@,
{
    reveal_strlit("GET");
    reveal_strlit("POST");
    reveal_strlit("DELETE");
    assert("GET"@.len() == 3);
    assert("POST"@.len() == 4);
    assert("DELETE"@.len() == 6);
}

impl DepartmentRequest {
    /// Builds the request from what routing has read: the method, what the
    /// path names, the pairs of the query, and what came of the body.
    pub fn from_parts(
        method: &str,
        shape: PathShape,
        pairs: &Vec<(String, String)>,
        body: Body<NewDepartment, PartialDepartment>,
    ) -> (result: Result<DepartmentRequest, WebdevError>)
        ensures
            match result {
                Ok(request) => department_request_of(method@, shape, pair_views(pairs@), body@)
                    == Ok::<DepartmentRequestView, WebdevError>(request@),
                Err(error) => department_request_of(method@, shape, pair_views(pairs@), body@)
                    == Err::<DepartmentRequestView, WebdevError>(error),
            },
    {
        proof {
            lemma_methods_differ();
        }
        let get = same_text(method, "GET");
        let post = same_text(method, "POST");
        let delete = same_text(method, "DELETE");
        match shape {
            PathShape::Collection => {
                if get {
                    match department_search(pairs) {
                        Ok(search) => Ok(DepartmentRequest::SearchDepartments(search)),
                        Err(error) => Err(error),
                    }
                } else if post {
                    match body {
                        Body::New(department) => Ok(DepartmentRequest::CreateDepartment(department)),
                        Body::Missing => Err(WebdevError::new(WebdevErrorKind::FormatInvalidBody)),
                        _ => Err(WebdevError::new(WebdevErrorKind::Format)),
                    }
                } else {
                    Err(WebdevError::new(WebdevErrorKind::NotFound))
                }
            },
            PathShape::Item(id) => {
                if get {
                    Ok(DepartmentRequest::GetDepartment(id))
                } else if post {
                    match body {
                        Body::Partial(department) => Ok(
                            DepartmentRequest::UpdateDepartment(id, department),
                        ),
                        Body::Missing => Err(WebdevError::new(WebdevErrorKind::FormatInvalidBody)),
                        _ => Err(WebdevError::new(WebdevErrorKind::Format)),
                    }
                } else if delete {
                    Ok(DepartmentRequest::DeleteDepartment(id))
                } else {
                    Err(WebdevError::new(WebdevErrorKind::NotFound))
                }
            },
            PathShape::Other => Err(WebdevError::new(WebdevErrorKind::NotFound)),
        }
    }

    /// Builds the request from the head of an HTTP request and what came
    /// of its body.
    pub fn from_rouille(request: &Request, body: Body<NewDepartment, PartialDepartment>) -> (result:
        Result<DepartmentRequest, WebdevError>)
        ensures
            match result {
                Ok(typed) => department_request_of(
                    request.method@,
                    path_shape(path_of(request.url@)),
                    form_pairs(query_of(request.url@)),
                    body@,
                ) == Ok::<DepartmentRequestView, WebdevError>(typed@),
                Err(error) => department_request_of(
                    request.method@,
                    path_shape(path_of(request.url@)),
                    form_pairs(query_of(request.url@)),
                    body@,
                ) == Err::<DepartmentRequestView, WebdevError>(error),
            },
    {
        let shape = request.shape();
        let pairs = request.query_pairs();
        DepartmentRequest::from_parts(request.method.as_str(), shape, &pairs, body)
    }
}

/// A search for memberships that looks at no field.
pub open spec fn any_user_department() -> SearchUserDepartmentsView {
    SearchUserDepartmentsView {
        user_id: Search::NoSearch,
        department_id: Search::NoSearch,
        user_first_name: Search::NoSearch,
        user_last_name: Search::NoSearch,
        user_email: NullableSearch::NoSearch,
        user_banner: Search::NoSearch,
        department_name: Search::NoSearch,
        department_abbreviation: Search::NoSearch,
    }
}

/// A search for memberships after one more pair of the query: the pair sets
/// the criterion of the field it names. `None` where it names no field, or
/// where its value writes no criterion for that field.
pub open spec fn with_user_department_pair(
    search: SearchUserDepartmentsView,
    field: Seq<char>,
    value: Seq<char>,
) -> Option<SearchUserDepartmentsView> {
    if field == "user_id"@ {
        match Search::<u64>::parsed(value) {
            Some(user_id) => Some(
                SearchUserDepartmentsView {
                    user_id,
                    department_id: search.department_id,
                    user_first_name: search.user_first_name,
                    user_last_name: search.user_last_name,
                    user_email: search.user_email,
                    user_banner: search.user_banner,
                    department_name: search.department_name,
                    department_abbreviation: search.department_abbreviation,
                },
            ),
            None => None,
        }
    } else if field == "department_id"@ {
        match Search::<u64>::parsed(value) {
            Some(department_id) => Some(
                SearchUserDepartmentsView {
                    user_id: search.user_id,
                    department_id,
                    user_first_name: search.user_first_name,
                    user_last_name: search.user_last_name,
                    user_email: search.user_email,
                    user_banner: search.user_banner,
                    department_name: search.department_name,
                    department_abbreviation: search.department_abbreviation,
                },
            ),
            None => None,
        }
    } else if field == "user_first_name"@ {
        match Search::<String>::parsed(value) {
            Some(user_first_name) => Some(
                SearchUserDepartmentsView {
                    user_id: search.user_id,
                    department_id: search.department_id,
                    user_first_name,
                    user_last_name: search.user_last_name,
                    user_email: search.user_email,
                    user_banner: search.user_banner,
                    department_name: search.department_name,
                    department_abbreviation: search.department_abbreviation,
                },
            ),
            None => None,
        }
    } else if field == "user_last_name"@ {
        match Search::<String>::parsed(value) {
            Some(user_last_name) => Some(
                SearchUserDepartmentsView {
                    user_id: search.user_id,
                    department_id: search.department_id,
                    user_first_name: search.user_first_name,
                    user_last_name,
                    user_email: search.user_email,
                    user_banner: search.user_banner,
                    department_name: search.department_name,
                    department_abbreviation: search.department_abbreviation,
                },
            ),
            None => None,
        }
    } else if field == "user_email"@ {
        match NullableSearch::<String>::parsed(value) {
            Some(user_email) => Some(
                SearchUserDepartmentsView {
                    user_id: search.user_id,
                    department_id: search.department_id,
                    user_first_name: search.user_first_name,
                    user_last_name: search.user_last_name,
                    user_email,
                    user_banner: search.user_banner,
                    department_name: search.department_name,
                    department_abbreviation: search.department_abbreviation,
                },
            ),
            None => None,
        }
    } else if field == "user_banner"@ {
        match Search::<u32>::parsed(value) {
            Some(user_banner) => Some(
                SearchUserDepartmentsView {
                    user_id: search.user_id,
                    department_id: search.department_id,
                    user_first_name: search.user_first_name,
                    user_last_name: search.user_last_name,
                    user_email: search.user_email,
                    user_banner,
                    department_name: search.department_name,
                    department_abbreviation: search.department_abbreviation,
                },
            ),
            None => None,
        }
    } else if field == "department_name"@ {
        match Search::<String>::parsed(value) {
            Some(department_name) => Some(
                SearchUserDepartmentsView {
                    user_id: search.user_id,
                    department_id: search.department_id,
                    user_first_name: search.user_first_name,
                    user_last_name: search.user_last_name,
                    user_email: search.user_email,
                    user_banner: search.user_banner,
                    department_name,
                    department_abbreviation: search.department_abbreviation,
                },
            ),
            None => None,
        }
    } else if field == "department_abbreviation"@ {
        match Search::<String>::parsed(value) {
            Some(department_abbreviation) => Some(
                SearchUserDepartmentsView {
                    user_id: search.user_id,
                    department_id: search.department_id,
                    user_first_name: search.user_first_name,
                    user_last_name: search.user_last_name,
                    user_email: search.user_email,
                    user_banner: search.user_banner,
                    department_name: search.department_name,
                    department_abbreviation,
                },
            ),
            None => None,
        }
    } else {
        None
    }
}

/// The search for memberships that the pairs of a query write: each pair in
/// turn sets a criterion, a later pair for a field replacing an earlier one.
/// `None` where any pair is refused.
pub open spec fn user_department_search_of(
    pairs: Seq<(Seq<char>, Seq<char>)>,
) -> Option<SearchUserDepartmentsView>
    decreases pairs.len(),
{
    if pairs.len() == 0 {
        Some(any_user_department())
    } else {
        match user_department_search_of(pairs.drop_last()) {
            Some(search) => with_user_department_pair(search, pairs.last().0, pairs.last().1),
            None => None,
        }
    }
}

/// Once a prefix of the pairs is refused, the whole list is.
proof fn lemma_user_department_search_refused(pairs: Seq<(Seq<char>, Seq<char>)>, k: int)
    requires
        0 <= k <= pairs.len(),
        user_department_search_of(pairs.take(k)) is None,
    ensures
        user_department_search_of(pairs) is None,
    decreases pairs.len() - k,
{
    if k == pairs.len() {
        assert(pairs.take(k) =~= pairs);
    } else {
        assert(pairs.take(k + 1).drop_last() =~= pairs.take(k));
        lemma_user_department_search_refused(pairs, k + 1);
    }
}

/// Reads the criteria of a search for memberships from the pairs of a query.
pub fn user_department_search(pairs: &Vec<(String, String)>) -> (result: Result<
    SearchUserDepartments,
    WebdevError,
>)
    ensures
        match result {
            Ok(search) => user_department_search_of(pair_views(pairs@)) == Some(search@),
            Err(error) => user_department_search_of(pair_views(pairs@)) is None && error.kind
                == WebdevErrorKind::Format,
        },
{
    let mut user_id_search: Search<u64> = Search::NoSearch;
    let mut department_id_search: Search<u64> = Search::NoSearch;
    let mut user_first_name_search: Search<String> = Search::NoSearch;
    let mut user_last_name_search: Search<String> = Search::NoSearch;
    let mut user_email_search: NullableSearch<String> = NullableSearch::NoSearch;
    let mut user_banner_search: Search<u32> = Search::NoSearch;
    let mut department_name_search: Search<String> = Search::NoSearch;
    let mut department_abbreviation_search: Search<String> = Search::NoSearch;
    let ghost all = pair_views(pairs@);
    let mut i: usize = 0;
    while i < pairs.len()
        invariant
            i <= pairs.len(),
            all == pair_views(pairs@),
            user_department_search_of(all.take(i as int)) == Some(
                SearchUserDepartmentsView {
                    user_id: user_id_search@,
                    department_id: department_id_search@,
                    user_first_name: user_first_name_search@,
                    user_last_name: user_last_name_search@,
                    user_email: user_email_search@,
                    user_banner: user_banner_search@,
                    department_name: department_name_search@,
                    department_abbreviation: department_abbreviation_search@,
                },
            ),
        decreases pairs.len() - i,
    {
        let field = pairs[i].0.as_str();
        let query = pairs[i].1.as_str();
        proof {
            assert(all.take(i + 1).drop_last() =~= all.take(i as int));
            assert(all.take(i + 1).last() == (field@, query@));
        }
        let mut refused = false;
        if same_text(field, "user_id") {
            match Search::<u64>::from_query(query) {
                Ok(search) => {
                    user_id_search = search;
                },
                Err(_) => {
                    refused = true;
                },
            }
        } else if same_text(field, "department_id") {
            match Search::<u64>::from_query(query) {
                Ok(search) => {
                    department_id_search = search;
                },
                Err(_) => {
                    refused = true;
                },
            }
        } else if same_text(field, "user_first_name") {
            match Search::<String>::from_query(query) {
                Ok(search) => {
                    user_first_name_search = search;
                },
                Err(_) => {
                    refused = true;
                },
            }
        } else if same_text(field, "user_last_name") {
            match Search::<String>::from_query(query) {
                Ok(search) => {
                    user_last_name_search = search;
                },
                Err(_) => {
                    refused = true;
                },
            }
        } else if same_text(field, "user_email") {
            match NullableSearch::<String>::from_query(query) {
                Ok(search) => {
                    user_email_search = search;
                },
                Err(_) => {
                    refused = true;
                },
            }
        } else if same_text(field, "user_banner") {
            match Search::<u32>::from_query(query) {
                Ok(search) => {
                    user_banner_search = search;
                },
                Err(_) => {
                    refused = true;
                },
            }
        } else if same_text(field, "department_name") {
            match Search::<String>::from_query(query) {
                Ok(search) => {
                    department_name_search = search;
                },
                Err(_) => {
                    refused = true;
                },
            }
        } else if same_text(field, "department_abbreviation") {
            match Search::<String>::from_query(query) {
                Ok(search) => {
                    department_abbreviation_search = search;
                },
                Err(_) => {
                    refused = true;
                },
            }
        } else {
            refused = true;
        }
        if refused {
            proof {
                lemma_user_department_search_refused(all, i + 1);
            }
            return Err(WebdevError::new(WebdevErrorKind::Format));
        }
        i += 1;
    }
    assert(all.take(i as int) =~= all);
    Ok(
        SearchUserDepartments {
            user_id: user_id_search,
            department_id: department_id_search,
            user_first_name: user_first_name_search,
            user_last_name: user_last_name_search,
            user_email: user_email_search,
            user_banner: user_banner_search,
            department_name: department_name_search,
            department_abbreviation: department_abbreviation_search,
        },
    )
}

/// The request about memberships that a request line, the pairs of its
/// query and its body amount to, or the failure they end in. Where a body is
/// called for, a missing one ends in `FormatInvalidBody`, and one that is
/// malformed or of the other kind in `Format`.
pub open spec fn user_department_request_of(
    method: Seq<char>,
    shape: PathShape,
    pairs: Seq<(Seq<char>, Seq<char>)>,
    body: Body<NewUserDepartment, PartialUserDepartment>,
) -> Result<UserDepartmentRequestView, WebdevError> {
    if method == "GET"@ && shape is Collection {
        match user_department_search_of(pairs) {
            Some(search) => Ok(UserDepartmentRequestView::SearchUserDepartments(search)),
            None => Err(WebdevError { kind: WebdevErrorKind::Format }),
        }
    } else if method == "GET"@ && shape is Item {
        Ok(UserDepartmentRequestView::GetUserDepartment(shape->Item_0))
    } else if method == "POST"@ && shape is Collection {
        match body {
            Body::New(membership) => Ok(UserDepartmentRequestView::CreateUserDepartment(membership)),
            Body::Missing => Err(WebdevError { kind: WebdevErrorKind::FormatInvalidBody }),
            _ => Err(WebdevError { kind: WebdevErrorKind::Format }),
        }
    } else if method == "POST"@ && shape is Item {
        match body {
            Body::Partial(membership) => Ok(
                UserDepartmentRequestView::UpdateUserDepartment(shape->Item_0, membership),
            ),
            Body::Missing => Err(WebdevError { kind: WebdevErrorKind::FormatInvalidBody }),
            _ => Err(WebdevError { kind: WebdevErrorKind::Format }),
        }
    } else if method == "DELETE"@ && shape is Item {
        Ok(UserDepartmentRequestView::DeleteUserDepartment(shape->Item_0))
    } else {
        Err(WebdevError { kind: WebdevErrorKind::NotFound })
    }
}

impl UserDepartmentRequest {
    /// Builds the request from what routing has read: the method, what the
    /// path names, the pairs of the query, and what came of the body.
    pub fn from_parts(
        method: &str,
        shape: PathShape,
        pairs: &Vec<(String, String)>,
        body: Body<NewUserDepartment, PartialUserDepartment>,
    ) -> (result: Result<UserDepartmentRequest, WebdevError>)
        ensures
            match result {
                Ok(request) => user_department_request_of(
                    method@,
                    shape,
                    pair_views(pairs@),
                    body@,
                ) == Ok::<UserDepartmentRequestView, WebdevError>(request@),
                Err(error) => user_department_request_of(
                    method@,
                    shape,
                    pair_views(pairs@),
                    body@,
                ) == Err::<UserDepartmentRequestView, WebdevError>(error),
            },
    {
        proof {
            lemma_methods_differ();
        }
        let get = same_text(method, "GET");
        let post = same_text(method, "POST");
        let delete = same_text(method, "DELETE");
        match shape {
            PathShape::Collection => {
                if get {
                    match user_department_search(pairs) {
                        Ok(search) => Ok(UserDepartmentRequest::SearchUserDepartments(search)),
                        Err(error) => Err(error),
                    }
                } else if post {
                    match body {
                        Body::New(membership) => Ok(
                            UserDepartmentRequest::CreateUserDepartment(membership),
                        ),
                        Body::Missing => Err(WebdevError::new(WebdevErrorKind::FormatInvalidBody)),
                        _ => Err(WebdevError::new(WebdevErrorKind::Format)),
                    }
                } else {
                    Err(WebdevError::new(WebdevErrorKind::NotFound))
                }
            },
            PathShape::Item(id) => {
                if get {
                    Ok(UserDepartmentRequest::GetUserDepartment(id))
                } else if post {
                    match body {
                        Body::Partial(membership) => Ok(
                            UserDepartmentRequest::UpdateUserDepartment(id, membership),
                        ),
                        Body::Missing => Err(WebdevError::new(WebdevErrorKind::FormatInvalidBody)),
                        _ => Err(WebdevError::new(WebdevErrorKind::Format)),
                    }
                } else if delete {
                    Ok(UserDepartmentRequest::DeleteUserDepartment(id))
                } else {
                    Err(WebdevError::new(WebdevErrorKind::NotFound))
                }
            },
            PathShape::Other => Err(WebdevError::new(WebdevErrorKind::NotFound)),
        }
    }

    /// Builds the request from the head of an HTTP request and what came
    /// of its body.
    pub fn from_rouille(
        request: &Request,
        body: Body<NewUserDepartment, PartialUserDepartment>,
    ) -> (result: Result<UserDepartmentRequest, WebdevError>)
        ensures
            match result {
                Ok(typed) => user_department_request_of(
                    request.method@,
                    path_shape(path_of(request.url@)),
                    form_pairs(query_of(request.url@)),
                    body@,
                ) == Ok::<UserDepartmentRequestView, WebdevError>(typed@),
                Err(error) => user_department_request_of(
                    request.method@,
                    path_shape(path_of(request.url@)),
                    form_pairs(query_of(request.url@)),
                    body@,
                ) == Err::<UserDepartmentRequestView, WebdevError>(error),
            },
    {
        let shape = request.shape();
        let pairs = request.query_pairs();
        UserDepartmentRequest::from_parts(request.method.as_str(), shape, &pairs, body)
    }
}

/// Every pair of an accepted query names a field of a department: a
/// parameter of another name is never passed over.
pub proof fn lemma_unknown_department_parameter(pairs: Seq<(Seq<char>, Seq<char>)>, i: int)
    requires
        0 <= i < pairs.len(),
        pairs[i].0 != "name"@,
        pairs[i].0 != "abbreviation"@,
    ensures
        department_search_of(pairs) is None,
        forall|body: Body<NewDepartmentView, PartialDepartmentView>|
            #[trigger] department_request_of("GET"@, PathShape::Collection, pairs, body) == Err::<
                DepartmentRequestView,
                WebdevError,
            >(WebdevError { kind: WebdevErrorKind::Format }),
{
    assert(pairs.take(i + 1).last() == pairs[i]);
    lemma_department_search_refused(pairs, i + 1);
}

/// Every pair of an accepted query names a field that memberships are
/// searched by: a parameter of another name is never passed over.
pub proof fn lemma_unknown_user_department_parameter(pairs: Seq<(Seq<char>, Seq<char>)>, i: int)
    requires
        0 <= i < pairs.len(),
        pairs[i].0 != "user_id"@,
        pairs[i].0 != "department_id"@,
        pairs[i].0 != "user_first_name"@,
        pairs[i].0 != "user_last_name"@,
        pairs[i].0 != "user_email"@,
        pairs[i].0 != "user_banner"@,
        pairs[i].0 != "department_name"@,
        pairs[i].0 != "department_abbreviation"@,
    ensures
        user_department_search_of(pairs) is None,
        forall|body: Body<NewUserDepartment, PartialUserDepartment>|
            #[trigger] user_department_request_of("GET"@, PathShape::Collection, pairs, body)
                == Err::<UserDepartmentRequestView, WebdevError>(
                WebdevError { kind: WebdevErrorKind::Format },
            ),
{
    assert(pairs.take(i + 1).last() == pairs[i]);
    lemma_user_department_search_refused(pairs, i + 1);
}

/// The HTTP response for an answer about departments: 200 with the entity or
/// the list, 204 with nothing where there is nothing to say.
pub open spec fn department_response(
    response: DepartmentResponseView,
) -> Response<DepartmentView, Seq<DepartmentView>> {
    match response {
        DepartmentResponseView::OneDepartment(department) => Response {
            status_code: 200,
            content: Content::Entity(department),
        },
        DepartmentResponseView::ManyDepartments(departments) => Response {
            status_code: 200,
            content: Content::List(departments),
        },
        DepartmentResponseView::NoResponse => Response { status_code: 204, content: Content::Empty },
    }
}

/// The HTTP response for an answer about memberships: 200 with the entity or
/// the list, 204 with nothing where there is nothing to say.
pub open spec fn user_department_response(
    response: UserDepartmentResponseView,
) -> Response<UserDepartment, Seq<UserDepartmentJoinView>> {
    match response {
        UserDepartmentResponseView::OneUserDepartment(membership) => Response {
            status_code: 200,
            content: Content::Entity(membership),
        },
        UserDepartmentResponseView::ManyUserDepartments(memberships) => Response {
            status_code: 200,
            content: Content::List(memberships),
        },
        UserDepartmentResponseView::NoResponse => Response {
            status_code: 204,
            content: Content::Empty,
        },
    }
}

impl UserDepartmentResponse {
    /// Turns the answer into the HTTP response that carries it.
    pub fn to_rouille(self) -> (response: Response<UserDepartment, UserDepartmentJoinList>)
        ensures
            response@ == user_department_response(self@),
    {
        match self {
            UserDepartmentResponse::OneUserDepartment(user_department) => Response {
                status_code: 200,
                content: Content::Entity(user_department),
            },
            UserDepartmentResponse::ManyUserDepartments(user_departments) => Response {
                status_code: 200,
                content: Content::List(user_departments),
            },
            UserDepartmentResponse::NoResponse => Response {
                status_code: 204,
                content: Content::Empty,
            },
        }
    }
}

impl DepartmentResponse {
    /// Turns the answer into the HTTP response that carries it.
    pub fn to_rouille(self) -> (response: Response<Department, DepartmentList>)
        ensures
            response@ == department_response(self@),
    {
        match self {
            DepartmentResponse::OneDepartment(department) => Response {
                status_code: 200,
                content: Content::Entity(department),
            },
            DepartmentResponse::ManyDepartments(departments) => Response {
                status_code: 200,
                content: Content::List(departments),
            },
            DepartmentResponse::NoResponse => Response { status_code: 204, content: Content::Empty },
        }
    }
}

} // verus!
