use departments::models::{
    Department, SearchDepartments, SearchUserDepartments, UserDepartment, UserDepartmentJoin,
};
use departments::query::{
    add_nullable_text_filter, add_number_filter, add_text_filter, filter_by_id, like_pattern,
    passes, select, widen, CellRef, Column, Condition, Filter, Join, Query, Record, Table, Value,
};
use departments::requests::{
    has_membership_joins, search_departments, search_user_departments, select_by_id,
};
use departments::search::{NullableSearch, Search};

fn department(id: u64, name: &str, abbreviation: &str) -> Department {
    Department { id, name: name.to_string(), abbreviation: abbreviation.to_string() }
}

fn joined(id: u64, first: &str, email: Option<&str>, banner: u32) -> UserDepartmentJoin {
    UserDepartmentJoin {
        id,
        user_id: 100 + id,
        department_id: 200 + id,
        department_name: "Mathematics".to_string(),
        department_abbreviation: "MATH".to_string(),
        user_first_name: first.to_string(),
        user_last_name: "Hopper".to_string(),
        user_email: email.map(|e| e.to_string()),
        user_banner_id: banner,
    }
}

fn equals_text(column: Column, text: &str) -> Filter {
    Filter { column, condition: Condition::Equals(Value::Text(text.to_string())) }
}

fn starts_with(column: Column, text: &str) -> Filter {
    Filter { column, condition: Condition::StartsWith(text.to_string()) }
}

fn equals_number(column: Column, number: u64) -> Filter {
    Filter { column, condition: Condition::Equals(Value::Unsigned(number)) }
}

fn any_membership() -> SearchUserDepartments {
    SearchUserDepartments {
        user_id: Search::NoSearch,
        department_id: Search::NoSearch,
        user_first_name: Search::NoSearch,
        user_last_name: Search::NoSearch,
        user_email: NullableSearch::NoSearch,
        user_banner: Search::NoSearch,
        department_name: Search::NoSearch,
        department_abbreviation: Search::NoSearch,
    }
}

#[test]
fn columns_belong_to_tables() {
    assert_eq!(Column::DepartmentName.table(), Table::Departments);
    assert_eq!(Column::UserDepartmentUserId.table(), Table::UserDepartments);
    assert_eq!(Column::UserEmail.table(), Table::Users);
    assert_eq!(Column::UserId.table(), Table::Users);
}

#[test]
fn no_criteria_no_filters() {
    let query = search_departments(SearchDepartments {
        name: Search::NoSearch,
        abbreviation: Search::NoSearch,
    });
    assert_eq!(query, Query { from: Table::Departments, joins: vec![], filters: vec![] });
}

#[test]
fn department_criteria_become_filters_in_order() {
    let query = search_departments(SearchDepartments {
        name: Search::Partial("Comp".to_string()),
        abbreviation: Search::Exact("CS".to_string()),
    });
    assert_eq!(query.from, Table::Departments);
    assert!(query.joins.is_empty());
    assert_eq!(
        query.filters,
        vec![
            starts_with(Column::DepartmentName, "Comp"),
            equals_text(Column::DepartmentAbbreviation, "CS"),
        ]
    );
}

#[test]
fn membership_search_always_joins() {
    let joins = vec![
        Join { table: Table::Users, left: Column::UserDepartmentUserId, right: Column::UserId },
        Join {
            table: Table::Departments,
            left: Column::UserDepartmentDepartmentId,
            right: Column::DepartmentId,
        },
    ];
    let query = search_user_departments(any_membership());
    assert_eq!(query, Query { from: Table::UserDepartments, joins: joins.clone(), filters: vec![] });
    let query = search_user_departments(SearchUserDepartments {
        user_id: Search::Exact(3),
        department_id: Search::Partial(4),
        user_first_name: Search::Partial("Gr".to_string()),
        user_last_name: Search::Exact("Hopper".to_string()),
        user_email: NullableSearch::Null,
        user_banner: Search::Partial(77),
        department_name: Search::Exact("Mathematics".to_string()),
        department_abbreviation: Search::Partial("MA".to_string()),
    });
    assert_eq!(query.joins, joins);
    assert_eq!(
        query.filters,
        vec![
            equals_number(Column::UserDepartmentUserId, 3),
            equals_number(Column::UserDepartmentDepartmentId, 4),
            starts_with(Column::UserFirstName, "Gr"),
            equals_text(Column::UserLastName, "Hopper"),
            Filter { column: Column::UserEmail, condition: Condition::IsNull },
            equals_number(Column::UserBannerId, 77),
            equals_text(Column::DepartmentName, "Mathematics"),
            starts_with(Column::DepartmentAbbreviation, "MA"),
        ]
    );
}

#[test]
fn nullable_criteria_become_filters() {
    let filters_of = |criterion| {
        let mut filters = Vec::new();
        add_nullable_text_filter(&mut filters, Column::UserEmail, criterion);
        filters
    };
    assert_eq!(filters_of(NullableSearch::NoSearch), vec![]);
    assert_eq!(
        filters_of(NullableSearch::NotNull),
        vec![Filter { column: Column::UserEmail, condition: Condition::IsNotNull }]
    );
    assert_eq!(
        filters_of(NullableSearch::Exact("a@b.org".to_string())),
        vec![equals_text(Column::UserEmail, "a@b.org")]
    );
    assert_eq!(
        filters_of(NullableSearch::Partial("a@".to_string())),
        vec![starts_with(Column::UserEmail, "a@")]
    );
}

#[test]
fn filters_are_appended() {
    let mut filters = vec![equals_number(Column::UserId, 1)];
    add_text_filter(&mut filters, Column::UserLastName, Search::NoSearch);
    add_number_filter(&mut filters, Column::UserBannerId, widen(Search::Exact(9)));
    add_text_filter(&mut filters, Column::UserLastName, Search::Exact("x".to_string()));
    assert_eq!(
        filters,
        vec![
            equals_number(Column::UserId, 1),
            equals_number(Column::UserBannerId, 9),
            equals_text(Column::UserLastName, "x"),
        ]
    );
    assert_eq!(widen(Search::Partial(u32::MAX)), Search::Partial(4294967295u64));
    assert_eq!(widen(Search::NoSearch), Search::NoSearch);
}

#[test]
fn query_by_id() {
    assert_eq!(
        select_by_id(Table::Departments, Column::DepartmentId, 5),
        Query {
            from: Table::Departments,
            joins: vec![],
            filters: vec![equals_number(Column::DepartmentId, 5)],
        }
    );
    assert_eq!(
        filter_by_id(Column::UserDepartmentId, 6),
        vec![equals_number(Column::UserDepartmentId, 6)]
    );
}

#[test]
fn like_pattern_ends_in_percent() {
    assert_eq!(like_pattern("C"), "C%");
    assert_eq!(like_pattern(""), "%");
    assert_eq!(like_pattern("Computer Science"), "Computer Science%");
    assert_eq!(like_pattern("é"), "é%");
}

#[test]
fn like_pattern_escapes_marks() {
    assert_eq!(like_pattern("é_"), "é\\_%");
    assert_eq!(like_pattern("100%"), "100\\%%");
    assert_eq!(like_pattern("_"), "\\_%");
    assert_eq!(like_pattern("a\\b"), "a\\\\b%");
    assert_eq!(like_pattern("%_\\"), "\\%\\_\\\\%");
    assert_eq!(like_pattern("a%b_c"), "a\\%b\\_c%");
}

#[test]
fn joins_of_a_membership_search_are_told_apart() {
    let users = Join { table: Table::Users, left: Column::UserDepartmentUserId, right: Column::UserId };
    let departments = Join {
        table: Table::Departments,
        left: Column::UserDepartmentDepartmentId,
        right: Column::DepartmentId,
    };
    assert!(has_membership_joins(&vec![users, departments]));
    assert!(has_membership_joins(&search_user_departments(any_membership()).joins));
    assert!(!has_membership_joins(&vec![departments, users]));
    assert!(!has_membership_joins(&vec![users]));
    assert!(!has_membership_joins(&vec![]));
    assert!(!has_membership_joins(&vec![users, departments, users]));
    let other = Join { table: Table::Users, left: Column::UserDepartmentId, right: Column::UserId };
    assert!(!has_membership_joins(&vec![other, departments]));
}

#[test]
fn cells_of_rows() {
    let d = department(3, "Physics", "PHYS");
    assert_eq!(d.cell(Column::DepartmentId), CellRef::Unsigned(3));
    assert_eq!(d.cell(Column::DepartmentName), CellRef::Text("Physics"));
    assert_eq!(d.cell(Column::DepartmentAbbreviation), CellRef::Text("PHYS"));
    assert_eq!(d.cell(Column::UserEmail), CellRef::Null);
    let m = UserDepartment { id: 1, user_id: 2, department_id: 3 };
    assert_eq!(m.cell(Column::UserDepartmentId), CellRef::Unsigned(1));
    assert_eq!(m.cell(Column::UserDepartmentUserId), CellRef::Unsigned(2));
    assert_eq!(m.cell(Column::UserDepartmentDepartmentId), CellRef::Unsigned(3));
    assert_eq!(m.cell(Column::UserId), CellRef::Null);
    let j = joined(1, "Grace", None, 42);
    assert_eq!(j.cell(Column::UserId), CellRef::Unsigned(101));
    assert_eq!(j.cell(Column::UserDepartmentUserId), CellRef::Unsigned(101));
    assert_eq!(j.cell(Column::DepartmentId), CellRef::Unsigned(201));
    assert_eq!(j.cell(Column::UserEmail), CellRef::Null);
    assert_eq!(j.cell(Column::UserBannerId), CellRef::Unsigned(42));
    assert_eq!(j.cell(Column::UserFirstName), CellRef::Text("Grace"));
    let j = joined(1, "Grace", Some("g@navy.mil"), 42);
    assert_eq!(j.cell(Column::UserEmail), CellRef::Text("g@navy.mil"));
    assert_eq!(j.duplicate(), j);
    assert_eq!(d.duplicate(), d);
}

#[test]
fn conditions_on_cells() {
    let equals = Condition::Equals(Value::Text("CS".to_string()));
    assert!(equals.holds(&CellRef::Text("CS")));
    assert!(!equals.holds(&CellRef::Text("cs")));
    assert!(!equals.holds(&CellRef::Text("CSE")));
    assert!(!equals.holds(&CellRef::Null));
    assert!(!equals.holds(&CellRef::Unsigned(0)));
    let number = Condition::Equals(Value::Unsigned(7));
    assert!(number.holds(&CellRef::Unsigned(7)));
    assert!(!number.holds(&CellRef::Unsigned(70)));
    assert!(!number.holds(&CellRef::Text("7")));
    assert!(!number.holds(&CellRef::Null));
    let prefix = Condition::StartsWith("Co".to_string());
    assert!(prefix.holds(&CellRef::Text("Computer Science")));
    assert!(prefix.holds(&CellRef::Text("Co")));
    assert!(!prefix.holds(&CellRef::Text("C")));
    assert!(!prefix.holds(&CellRef::Text("co-op")));
    assert!(!prefix.holds(&CellRef::Null));
    assert!(Condition::StartsWith(String::new()).holds(&CellRef::Text("")));
    assert!(!Condition::StartsWith(String::new()).holds(&CellRef::Null));
    assert!(Condition::IsNull.holds(&CellRef::Null));
    assert!(!Condition::IsNull.holds(&CellRef::Text("")));
    assert!(Condition::IsNotNull.holds(&CellRef::Text("")));
    assert!(Condition::IsNotNull.holds(&CellRef::Unsigned(0)));
    assert!(!Condition::IsNotNull.holds(&CellRef::Null));
}

#[test]
fn a_row_must_pass_every_filter() {
    let d = department(3, "Computer Science", "CS");
    assert!(passes(&d, &vec![]));
    assert!(passes(
        &d,
        &vec![starts_with(Column::DepartmentName, "Comp"), equals_text(Column::DepartmentAbbreviation, "CS")]
    ));
    assert!(!passes(
        &d,
        &vec![starts_with(Column::DepartmentName, "Comp"), equals_text(Column::DepartmentAbbreviation, "CE")]
    ));
    assert!(!passes(&d, &vec![equals_number(Column::UserId, 3)]));
}

#[test]
fn select_keeps_order_and_copies() {
    let rows = vec![
        department(1, "Computer Science", "CS"),
        department(2, "Chemistry", "CHEM"),
        department(3, "Mathematics", "MATH"),
        department(4, "Civil Engineering", "CE"),
    ];
    let found = select(&rows, &vec![starts_with(Column::DepartmentAbbreviation, "C")]);
    assert_eq!(found, vec![rows[0].clone(), rows[1].clone(), rows[3].clone()]);
    let found = select(&rows, &vec![]);
    assert_eq!(found, rows);
    let found = select(&rows, &vec![equals_text(Column::DepartmentName, "Physics")]);
    assert_eq!(found, vec![]);
}

#[test]
fn partial_on_a_number_is_equality() {
    let rows = vec![joined(1, "A", None, 7), joined(2, "B", None, 70), joined(3, "C", None, 7)];
    let mut search = any_membership();
    search.user_banner = Search::Partial(7);
    let partial = select(&rows, &search_user_departments(search).filters);
    let mut search = any_membership();
    search.user_banner = Search::Exact(7);
    let exact = select(&rows, &search_user_departments(search).filters);
    assert_eq!(partial, exact);
    assert_eq!(partial, vec![rows[0].clone(), rows[2].clone()]);
}

#[test]
fn present_and_absent_email_split_the_rows() {
    let rows = vec![
        joined(1, "A", Some("a@x.org"), 1),
        joined(2, "B", None, 2),
        joined(3, "C", Some(""), 3),
        joined(4, "D", None, 4),
    ];
    let mut search = any_membership();
    search.user_email = NullableSearch::NotNull;
    let present = select(&rows, &search_user_departments(search).filters);
    let mut search = any_membership();
    search.user_email = NullableSearch::Null;
    let absent = select(&rows, &search_user_departments(search).filters);
    assert_eq!(present, vec![rows[0].clone(), rows[2].clone()]);
    assert_eq!(absent, vec![rows[1].clone(), rows[3].clone()]);
    for row in &rows {
        assert_ne!(present.contains(row), absent.contains(row));
    }
    let mut search = any_membership();
    search.user_email = NullableSearch::Partial("a@".to_string());
    assert_eq!(select(&rows, &search_user_departments(search).filters), vec![rows[0].clone()]);
    let mut search = any_membership();
    search.user_email = NullableSearch::Exact(String::new());
    assert_eq!(select(&rows, &search_user_departments(search).filters), vec![rows[2].clone()]);
}
