use departments::errors::WebdevErrorKind;
use departments::http::{Body, BodyKind, PathShape, Request};
use departments::models::{
    DepartmentRequest, NewDepartment, NewUserDepartment, PartialDepartment,
    PartialUserDepartment, SearchDepartments, SearchUserDepartments, UserDepartmentRequest,
};
use departments::routing::{department_search, user_department_search};
use departments::search::{NullableSearch, Search};

fn request(method: &str, url: &str) -> Request {
    Request { method: method.to_string(), url: url.to_string() }
}

fn no_body() -> Body<NewDepartment, PartialDepartment> {
    Body::Missing
}

fn no_membership_body() -> Body<NewUserDepartment, PartialUserDepartment> {
    Body::Missing
}

fn pairs(list: &[(&str, &str)]) -> Vec<(String, String)> {
    list.iter().map(|(k, v)| (k.to_string(), v.to_string())).collect()
}

#[test]
fn url_is_split_at_the_first_question_mark() {
    let r = request("GET", "/a%20b?x=1?y=2");
    assert_eq!(r.path(), "/a%20b");
    assert_eq!(r.raw_query_string(), "x=1?y=2");
    let r = request("GET", "/plain");
    assert_eq!(r.path(), "/plain");
    assert_eq!(r.raw_query_string(), "");
    let r = request("GET", "?");
    assert_eq!(r.path(), "");
    assert_eq!(r.raw_query_string(), "");
}

#[test]
fn path_shapes() {
    assert_eq!(request("GET", "/").shape(), PathShape::Collection);
    assert_eq!(request("GET", "/?name=a").shape(), PathShape::Collection);
    assert_eq!(request("GET", "/17").shape(), PathShape::Item(17));
    assert_eq!(request("GET", "/+17").shape(), PathShape::Item(17));
    assert_eq!(request("GET", "/18446744073709551615").shape(), PathShape::Item(u64::MAX));
    assert_eq!(request("GET", "/18446744073709551616").shape(), PathShape::Other);
    assert_eq!(request("GET", "/17/").shape(), PathShape::Other);
    assert_eq!(request("GET", "/17/3").shape(), PathShape::Other);
    assert_eq!(request("GET", "17").shape(), PathShape::Other);
    assert_eq!(request("GET", "").shape(), PathShape::Other);
    assert_eq!(request("GET", "/x").shape(), PathShape::Other);
    assert_eq!(request("GET", "//").shape(), PathShape::Other);
}

#[test]
fn id_segment_is_percent_decoded() {
    assert_eq!(request("GET", "/%31%37").shape(), PathShape::Item(17));
    assert_eq!(request("GET", "/1%2F7").shape(), PathShape::Other);
    assert_eq!(request("GET", "/%zz").shape(), PathShape::Other);
}

#[test]
fn body_kinds() {
    assert_eq!(request("POST", "/").body_kind(), BodyKind::New);
    assert_eq!(request("POST", "/4").body_kind(), BodyKind::Partial);
    assert_eq!(request("POST", "/x").body_kind(), BodyKind::Nothing);
    assert_eq!(request("GET", "/").body_kind(), BodyKind::Nothing);
    assert_eq!(request("DELETE", "/4").body_kind(), BodyKind::Nothing);
    assert_eq!(request("post", "/").body_kind(), BodyKind::Nothing);
}

#[test]
fn query_pairs_are_decoded() {
    let r = request("GET", "/?name=Computer+Science&abbreviation=C%2A&&empty");
    assert_eq!(
        r.query_pairs(),
        pairs(&[("name", "Computer Science"), ("abbreviation", "C*"), ("empty", "")])
    );
}

#[test]
fn department_search_from_query() {
    let typed = DepartmentRequest::from_rouille(
        &request("GET", "/?name=Computer%20Science&abbreviation=C*"),
        no_body(),
    )
    .unwrap();
    assert_eq!(
        typed,
        DepartmentRequest::SearchDepartments(SearchDepartments {
            name: Search::Exact("Computer Science".to_string()),
            abbreviation: Search::Partial("C".to_string()),
        })
    );
}

#[test]
fn absent_parameters_are_not_searched() {
    let typed = DepartmentRequest::from_rouille(&request("GET", "/"), no_body()).unwrap();
    assert_eq!(
        typed,
        DepartmentRequest::SearchDepartments(SearchDepartments {
            name: Search::NoSearch,
            abbreviation: Search::NoSearch,
        })
    );
}

#[test]
fn later_parameter_replaces_earlier() {
    let search = department_search(&pairs(&[("name", "a"), ("name", "b*")])).unwrap();
    assert_eq!(search.name, Search::Partial("b".to_string()));
    assert_eq!(search.abbreviation, Search::NoSearch);
}

#[test]
fn unknown_parameter_is_a_format_error() {
    let error =
        DepartmentRequest::from_rouille(&request("GET", "/?name=a&colour=red"), no_body())
            .unwrap_err();
    assert_eq!(error.kind, WebdevErrorKind::Format);
    let error = department_search(&pairs(&[("Name", "a")])).unwrap_err();
    assert_eq!(error.kind, WebdevErrorKind::Format);
    let error = UserDepartmentRequest::from_rouille(
        &request("GET", "/?user_id=1&name=a"),
        no_membership_body(),
    )
    .unwrap_err();
    assert_eq!(error.kind, WebdevErrorKind::Format);
    let error = user_department_search(&pairs(&[("", "")])).unwrap_err();
    assert_eq!(error.kind, WebdevErrorKind::Format);
}

#[test]
fn unreadable_value_is_a_format_error() {
    let error = UserDepartmentRequest::from_rouille(
        &request("GET", "/?user_id=seven"),
        no_membership_body(),
    )
    .unwrap_err();
    assert_eq!(error.kind, WebdevErrorKind::Format);
    let error = user_department_search(&pairs(&[("user_banner", "4294967296")])).unwrap_err();
    assert_eq!(error.kind, WebdevErrorKind::Format);
}

#[test]
fn user_department_search_from_query() {
    let typed = UserDepartmentRequest::from_rouille(
        &request(
            "GET",
            "/?user_id=3&department_id=4*&user_first_name=Ad*&user_last_name=Lovelace\
             &user_email=~null&user_banner=900&department_name=Math*&department_abbreviation=MA",
        ),
        no_membership_body(),
    )
    .unwrap();
    assert_eq!(
        typed,
        UserDepartmentRequest::SearchUserDepartments(SearchUserDepartments {
            user_id: Search::Exact(3),
            department_id: Search::Partial(4),
            user_first_name: Search::Partial("Ad".to_string()),
            user_last_name: Search::Exact("Lovelace".to_string()),
            user_email: NullableSearch::NotNull,
            user_banner: Search::Exact(900),
            department_name: Search::Partial("Math".to_string()),
            department_abbreviation: Search::Exact("MA".to_string()),
        })
    );
    let search = user_department_search(&pairs(&[("user_email", "null")])).unwrap();
    assert_eq!(search.user_email, NullableSearch::Null);
    assert_eq!(search.user_id, Search::NoSearch);
}

#[test]
fn get_and_delete_by_id() {
    assert_eq!(
        DepartmentRequest::from_rouille(&request("GET", "/12"), no_body()).unwrap(),
        DepartmentRequest::GetDepartment(12)
    );
    assert_eq!(
        DepartmentRequest::from_rouille(&request("DELETE", "/12?x=y"), no_body()).unwrap(),
        DepartmentRequest::DeleteDepartment(12)
    );
    assert_eq!(
        UserDepartmentRequest::from_rouille(&request("GET", "/12"), no_membership_body()).unwrap(),
        UserDepartmentRequest::GetUserDepartment(12)
    );
    assert_eq!(
        UserDepartmentRequest::from_rouille(&request("DELETE", "/12"), no_membership_body())
            .unwrap(),
        UserDepartmentRequest::DeleteUserDepartment(12)
    );
}

#[test]
fn create_takes_a_new_entity() {
    let body = Body::New(NewDepartment {
        name: "Computer Science".to_string(),
        abbreviation: "CS".to_string(),
    });
    assert_eq!(
        DepartmentRequest::from_rouille(&request("POST", "/"), body).unwrap(),
        DepartmentRequest::CreateDepartment(NewDepartment {
            name: "Computer Science".to_string(),
            abbreviation: "CS".to_string(),
        })
    );
    let body = Body::New(NewUserDepartment { user_id: 1, department_id: 2 });
    assert_eq!(
        UserDepartmentRequest::from_rouille(&request("POST", "/"), body).unwrap(),
        UserDepartmentRequest::CreateUserDepartment(NewUserDepartment {
            user_id: 1,
            department_id: 2
        })
    );
}

#[test]
fn update_takes_the_fields_to_overwrite() {
    let body = Body::Partial(PartialDepartment { name: Some("CompSci".to_string()), abbreviation: None });
    assert_eq!(
        DepartmentRequest::from_rouille(&request("POST", "/9"), body).unwrap(),
        DepartmentRequest::UpdateDepartment(
            9,
            PartialDepartment { name: Some("CompSci".to_string()), abbreviation: None }
        )
    );
    let body = Body::Partial(PartialUserDepartment { user_id: None, department_id: Some(5) });
    assert_eq!(
        UserDepartmentRequest::from_rouille(&request("POST", "/9"), body).unwrap(),
        UserDepartmentRequest::UpdateUserDepartment(
            9,
            PartialUserDepartment { user_id: None, department_id: Some(5) }
        )
    );
}

#[test]
fn missing_and_malformed_bodies() {
    let kind = |r: &Request, body| DepartmentRequest::from_rouille(r, body).unwrap_err().kind;
    assert_eq!(kind(&request("POST", "/"), Body::Missing), WebdevErrorKind::FormatInvalidBody);
    assert_eq!(kind(&request("POST", "/"), Body::Malformed), WebdevErrorKind::Format);
    assert_eq!(
        kind(&request("POST", "/"), Body::Partial(PartialDepartment { name: None, abbreviation: None })),
        WebdevErrorKind::Format
    );
    assert_eq!(kind(&request("POST", "/3"), Body::Missing), WebdevErrorKind::FormatInvalidBody);
    assert_eq!(kind(&request("POST", "/3"), Body::Malformed), WebdevErrorKind::Format);
    assert_eq!(
        kind(
            &request("POST", "/3"),
            Body::New(NewDepartment { name: "a".to_string(), abbreviation: "b".to_string() })
        ),
        WebdevErrorKind::Format
    );
    let kind = |r: &Request, body| UserDepartmentRequest::from_rouille(r, body).unwrap_err().kind;
    assert_eq!(kind(&request("POST", "/"), Body::Missing), WebdevErrorKind::FormatInvalidBody);
    assert_eq!(kind(&request("POST", "/"), Body::Malformed), WebdevErrorKind::Format);
    assert_eq!(
        kind(
            &request("POST", "/"),
            Body::Partial(PartialUserDepartment { user_id: Some(1), department_id: None })
        ),
        WebdevErrorKind::Format
    );
    assert_eq!(kind(&request("POST", "/3"), Body::Missing), WebdevErrorKind::FormatInvalidBody);
    assert_eq!(kind(&request("POST", "/3"), Body::Malformed), WebdevErrorKind::Format);
    assert_eq!(
        kind(&request("POST", "/3"), Body::New(NewUserDepartment { user_id: 1, department_id: 1 })),
        WebdevErrorKind::Format
    );
}

#[test]
fn missing_body_through_from_parts() {
    let missing = DepartmentRequest::from_parts("POST", PathShape::Item(3), &pairs(&[]), Body::Missing);
    assert_eq!(missing.unwrap_err().kind, WebdevErrorKind::FormatInvalidBody);
    let missing =
        UserDepartmentRequest::from_parts("POST", PathShape::Collection, &pairs(&[]), Body::Missing);
    assert_eq!(missing.unwrap_err().kind, WebdevErrorKind::FormatInvalidBody);
    let missing =
        UserDepartmentRequest::from_parts("POST", PathShape::Item(3), &pairs(&[]), Body::Missing);
    assert_eq!(missing.unwrap_err().kind, WebdevErrorKind::FormatInvalidBody);
    let unrouted =
        UserDepartmentRequest::from_parts("POST", PathShape::Other, &pairs(&[]), Body::Missing);
    assert_eq!(unrouted.unwrap_err().kind, WebdevErrorKind::NotFound);
}

#[test]
fn anything_else_is_not_found() {
    for (method, url) in [
        ("DELETE", "/"),
        ("PUT", "/"),
        ("PUT", "/3"),
        ("get", "/"),
        ("GET", "/3/4"),
        ("GET", "/abc"),
        ("GET", ""),
        ("POST", "/3/"),
        ("PATCH", "/3"),
    ] {
        let error = DepartmentRequest::from_rouille(&request(method, url), Body::Malformed)
            .unwrap_err();
        assert_eq!(error.kind, WebdevErrorKind::NotFound, "{} {}", method, url);
        let error = UserDepartmentRequest::from_rouille(&request(method, url), Body::Malformed)
            .unwrap_err();
        assert_eq!(error.kind, WebdevErrorKind::NotFound, "{} {}", method, url);
    }
}

#[test]
fn from_parts_takes_what_routing_read() {
    let typed = DepartmentRequest::from_parts(
        "GET",
        PathShape::Collection,
        &pairs(&[("abbreviation", "CS")]),
        no_body(),
    )
    .unwrap();
    assert_eq!(
        typed,
        DepartmentRequest::SearchDepartments(SearchDepartments {
            name: Search::NoSearch,
            abbreviation: Search::Exact("CS".to_string()),
        })
    );
    let typed = UserDepartmentRequest::from_parts(
        "DELETE",
        PathShape::Item(8),
        &pairs(&[("nonsense", "1")]),
        no_membership_body(),
    )
    .unwrap();
    assert_eq!(typed, UserDepartmentRequest::DeleteUserDepartment(8));
}
