use departments::errors::WebdevErrorKind;
use departments::http::{Body, Content, Request, Response};
use departments::models::{
    Department, DepartmentList, DepartmentRequest, DepartmentResponse, NewDepartment,
    PartialDepartment, SearchDepartments,
};
use departments::query::{Query, Table};
use departments::requests::{DepartmentCommand, DepartmentReply};
use departments::search::Search;
use departments::store::{serve_department, DepartmentTable};

fn new(name: &str, abbreviation: &str) -> NewDepartment {
    NewDepartment { name: name.to_string(), abbreviation: abbreviation.to_string() }
}

fn department(id: u64, name: &str, abbreviation: &str) -> Department {
    Department { id, name: name.to_string(), abbreviation: abbreviation.to_string() }
}

fn filled() -> DepartmentTable {
    let mut table = DepartmentTable::new();
    for (name, abbreviation) in [
        ("Computer Science", "CS"),
        ("Chemistry", "CHEM"),
        ("Mathematics", "MATH"),
        ("Civil Engineering", "CE"),
    ] {
        serve_department(&mut table, DepartmentRequest::CreateDepartment(new(name, abbreviation)))
            .unwrap();
    }
    table
}

fn search(table: &mut DepartmentTable, name: Search<String>, abbreviation: Search<String>) -> Vec<Department> {
    let request = DepartmentRequest::SearchDepartments(SearchDepartments { name, abbreviation });
    match serve_department(table, request).unwrap() {
        DepartmentResponse::ManyDepartments(list) => list.departments,
        other => panic!("{:?}", other),
    }
}

fn http(method: &str, url: &str) -> Request {
    Request { method: method.to_string(), url: url.to_string() }
}

fn answer(
    table: &mut DepartmentTable,
    request: &Request,
    body: Body<NewDepartment, PartialDepartment>,
) -> Result<Response<Department, DepartmentList>, u16> {
    match DepartmentRequest::from_rouille(request, body) {
        Ok(typed) => match serve_department(table, typed) {
            Ok(response) => Ok(response.to_rouille()),
            Err(error) => Err(error.status_code()),
        },
        Err(error) => Err(error.status_code()),
    }
}

#[test]
fn new_table_is_empty() {
    let mut table = DepartmentTable::new();
    assert_eq!(table.rows(), vec![]);
    assert_eq!(search(&mut table, Search::NoSearch, Search::NoSearch), vec![]);
}

#[test]
fn ids_start_at_one_and_grow() {
    let mut table = DepartmentTable::new();
    let first = serve_department(&mut table, DepartmentRequest::CreateDepartment(new("A", "a")));
    assert_eq!(first.unwrap(), DepartmentResponse::OneDepartment(department(1, "A", "a")));
    let second = serve_department(&mut table, DepartmentRequest::CreateDepartment(new("B", "b")));
    assert_eq!(second.unwrap(), DepartmentResponse::OneDepartment(department(2, "B", "b")));
    serve_department(&mut table, DepartmentRequest::DeleteDepartment(2)).unwrap();
    let third = serve_department(&mut table, DepartmentRequest::CreateDepartment(new("C", "c")));
    assert_eq!(third.unwrap(), DepartmentResponse::OneDepartment(department(3, "C", "c")));
    assert_eq!(table.rows(), vec![department(1, "A", "a"), department(3, "C", "c")]);
}

#[test]
fn create_then_get_gives_the_same() {
    let mut table = filled();
    let created = serve_department(&mut table, DepartmentRequest::CreateDepartment(new("Physics", "PHYS")))
        .unwrap();
    let id = match &created {
        DepartmentResponse::OneDepartment(department) => department.id,
        other => panic!("{:?}", other),
    };
    assert_eq!(id, 5);
    let got = serve_department(&mut table, DepartmentRequest::GetDepartment(id)).unwrap();
    assert_eq!(got, created);
}

#[test]
fn get_of_an_unknown_id_is_not_found() {
    let mut table = filled();
    for id in [0, 5, u64::MAX] {
        let error = serve_department(&mut table, DepartmentRequest::GetDepartment(id)).unwrap_err();
        assert_eq!(error.kind, WebdevErrorKind::NotFound);
    }
}

#[test]
fn delete_twice_succeeds_twice() {
    let mut table = filled();
    for _ in 0..2 {
        let done = serve_department(&mut table, DepartmentRequest::DeleteDepartment(2)).unwrap();
        assert_eq!(done, DepartmentResponse::NoResponse);
        let error = serve_department(&mut table, DepartmentRequest::GetDepartment(2)).unwrap_err();
        assert_eq!(error.kind, WebdevErrorKind::NotFound);
        assert_eq!(table.rows().len(), 3);
    }
    let done = serve_department(&mut table, DepartmentRequest::DeleteDepartment(99)).unwrap();
    assert_eq!(done, DepartmentResponse::NoResponse);
    assert_eq!(table.rows().len(), 3);
}

#[test]
fn update_overwrites_only_what_is_given() {
    let mut table = filled();
    let fields = PartialDepartment { name: Some("CompSci".to_string()), abbreviation: None };
    let done = serve_department(&mut table, DepartmentRequest::UpdateDepartment(1, fields)).unwrap();
    assert_eq!(done, DepartmentResponse::NoResponse);
    assert_eq!(
        serve_department(&mut table, DepartmentRequest::GetDepartment(1)).unwrap(),
        DepartmentResponse::OneDepartment(department(1, "CompSci", "CS"))
    );
    let fields = PartialDepartment { name: Some("X".to_string()), abbreviation: Some("Y".to_string()) };
    serve_department(&mut table, DepartmentRequest::UpdateDepartment(3, fields)).unwrap();
    assert_eq!(
        table.rows(),
        vec![
            department(1, "CompSci", "CS"),
            department(2, "Chemistry", "CHEM"),
            department(3, "X", "Y"),
            department(4, "Civil Engineering", "CE"),
        ]
    );
}

#[test]
fn update_of_nothing_changes_nothing() {
    let mut table = filled();
    let before = table.rows();
    let got = serve_department(&mut table, DepartmentRequest::GetDepartment(2)).unwrap();
    let fields = PartialDepartment { name: None, abbreviation: None };
    let done = serve_department(&mut table, DepartmentRequest::UpdateDepartment(2, fields)).unwrap();
    assert_eq!(done, DepartmentResponse::NoResponse);
    assert_eq!(table.rows(), before);
    assert_eq!(serve_department(&mut table, DepartmentRequest::GetDepartment(2)).unwrap(), got);
}

#[test]
fn update_of_a_missing_row_is_no_error() {
    let mut table = filled();
    let before = table.rows();
    let fields = PartialDepartment { name: Some("Ghost".to_string()), abbreviation: None };
    let done = serve_department(&mut table, DepartmentRequest::UpdateDepartment(77, fields)).unwrap();
    assert_eq!(done, DepartmentResponse::NoResponse);
    assert_eq!(table.rows(), before);
}

#[test]
fn exact_and_partial_searches() {
    let mut table = filled();
    let all = table.rows();
    assert_eq!(search(&mut table, Search::NoSearch, Search::NoSearch), all);
    assert_eq!(
        search(&mut table, Search::Exact("Chemistry".to_string()), Search::NoSearch),
        vec![all[1].clone()]
    );
    assert_eq!(search(&mut table, Search::Exact("Chem".to_string()), Search::NoSearch), vec![]);
    assert_eq!(
        search(&mut table, Search::Partial("C".to_string()), Search::NoSearch),
        vec![all[0].clone(), all[1].clone(), all[3].clone()]
    );
    assert_eq!(
        search(&mut table, Search::Partial("C".to_string()), Search::Partial("CH".to_string())),
        vec![all[1].clone()]
    );
    assert_eq!(search(&mut table, Search::Partial(String::new()), Search::NoSearch), all);
    assert_eq!(search(&mut table, Search::Partial("c".to_string()), Search::NoSearch), vec![]);
}

#[test]
fn fewer_criteria_find_more() {
    let mut table = filled();
    let strict = search(&mut table, Search::Partial("C".to_string()), Search::Exact("CE".to_string()));
    let relaxed = search(&mut table, Search::Partial("C".to_string()), Search::NoSearch);
    let none = search(&mut table, Search::NoSearch, Search::NoSearch);
    assert_eq!(strict.len(), 1);
    for row in &strict {
        assert!(relaxed.contains(row));
    }
    for row in &relaxed {
        assert!(none.contains(row));
    }
}

#[test]
fn table_refuses_queries_about_other_tables() {
    let mut table = filled();
    let query = Query { from: Table::Users, joins: vec![], filters: vec![] };
    assert_eq!(table.execute(DepartmentCommand::Select(query)), DepartmentReply::Failed);
    let query = Query { from: Table::Departments, joins: vec![], filters: vec![] };
    assert_eq!(table.execute(DepartmentCommand::Select(query)), DepartmentReply::Rows(table.rows()));
}

#[test]
fn last_inserted_row_is_read_back() {
    let mut table = DepartmentTable::new();
    assert_eq!(table.execute(DepartmentCommand::SelectLastInserted), DepartmentReply::Rows(vec![]));
    assert_eq!(table.execute(DepartmentCommand::Insert(new("A", "a"))), DepartmentReply::Done);
    assert_eq!(table.execute(DepartmentCommand::Insert(new("B", "b"))), DepartmentReply::Done);
    assert_eq!(
        table.execute(DepartmentCommand::SelectLastInserted),
        DepartmentReply::Rows(vec![department(2, "B", "b")])
    );
    assert_eq!(table.execute(DepartmentCommand::Delete(2)), DepartmentReply::Done);
    assert_eq!(table.execute(DepartmentCommand::SelectLastInserted), DepartmentReply::Rows(vec![]));
}

#[test]
fn responses_carry_status_and_content() {
    assert_eq!(
        DepartmentResponse::OneDepartment(department(1, "A", "a")).to_rouille(),
        Response { status_code: 200, content: Content::Entity(department(1, "A", "a")) }
    );
    assert_eq!(
        DepartmentResponse::ManyDepartments(DepartmentList { departments: vec![] }).to_rouille(),
        Response { status_code: 200, content: Content::List(DepartmentList { departments: vec![] }) }
    );
    assert_eq!(
        DepartmentResponse::NoResponse.to_rouille(),
        Response { status_code: 204, content: Content::Empty }
    );
}

#[test]
fn life_of_a_department_over_http() {
    let mut table = DepartmentTable::new();
    let created = answer(&mut table, &http("POST", "/"), Body::New(new("Computer Science", "CS"))).unwrap();
    assert_eq!(created.status_code, 200);
    let n = match created.content {
        Content::Entity(department) => {
            assert_eq!(department.name, "Computer Science");
            assert_eq!(department.abbreviation, "CS");
            department.id
        }
        other => panic!("{:?}", other),
    };
    let found = answer(&mut table, &http("GET", "/?abbreviation=C*"), Body::Missing).unwrap();
    assert_eq!(found.status_code, 200);
    match found.content {
        Content::List(list) => {
            assert!(list.departments.contains(&department(n, "Computer Science", "CS")))
        }
        other => panic!("{:?}", other),
    }
    let fields = PartialDepartment { name: Some("CompSci".to_string()), abbreviation: None };
    let updated = answer(&mut table, &http("POST", &format!("/{}", n)), Body::Partial(fields)).unwrap();
    assert_eq!(updated, Response { status_code: 204, content: Content::Empty });
    let got = answer(&mut table, &http("GET", &format!("/{}", n)), Body::Missing).unwrap();
    assert_eq!(
        got,
        Response { status_code: 200, content: Content::Entity(department(n, "CompSci", "CS")) }
    );
    let deleted = answer(&mut table, &http("DELETE", &format!("/{}", n)), Body::Missing).unwrap();
    assert_eq!(deleted, Response { status_code: 204, content: Content::Empty });
    assert_eq!(answer(&mut table, &http("GET", &format!("/{}", n)), Body::Missing), Err(404));
    assert_eq!(answer(&mut table, &http("GET", "/?colour=red"), Body::Missing), Err(400));
    assert_eq!(answer(&mut table, &http("POST", "/"), Body::Malformed), Err(400));
    assert_eq!(answer(&mut table, &http("POST", "/"), Body::Missing), Err(400));
}
