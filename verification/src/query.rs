//! Queries as plain data: a source table, the tables joined to it, and a list
//! of filters that a row must all pass. What a filter means is stated over the
//! cells of a row; nothing here depends on the store that will run the query.

use crate::models::{views, Department, DepartmentView, UserDepartment, UserDepartmentJoin};
use crate::models::UserDepartmentJoinView;
use crate::search::{NullableSearch, Search};
use crate::text::{begins_with, chars_of, same_text};
use vstd::prelude::*;

verus! {

#[derive(Clone, Copy, Debug, PartialEq, Eq, Structural)]
pub enum Table {
    Departments,
    UserDepartments,
    Users,
}

/// A column, named together with its table.
#[derive(Clone, Copy, Debug, PartialEq, Eq, Structural)]
pub enum Column {
    DepartmentId,
    DepartmentName,
    DepartmentAbbreviation,
    UserDepartmentId,
    UserDepartmentUserId,
    UserDepartmentDepartmentId,
    UserId,
    UserFirstName,
    UserLastName,
    UserEmail,
    UserBannerId,
}

impl Column {
    pub open spec fn table_of(self) -> Table {
        match self {
            Column::DepartmentId | Column::DepartmentName | Column::DepartmentAbbreviation => {
                Table::Departments
            },
            Column::UserDepartmentId
            | Column::UserDepartmentUserId
            | Column::UserDepartmentDepartmentId => Table::UserDepartments,
            Column::UserId
            | Column::UserFirstName
            | Column::UserLastName
            | Column::UserEmail
            | Column::UserBannerId => Table::Users,
        }
    }

    /// The table that the column belongs to.
    pub fn table(self) -> (table: Table)
        ensures
            table == self.table_of(),
    {
        match self {
            Column::DepartmentId | Column::DepartmentName | Column::DepartmentAbbreviation => {
                Table::Departments
            },
            Column::UserDepartmentId
            | Column::UserDepartmentUserId
            | Column::UserDepartmentDepartmentId => Table::UserDepartments,
            Column::UserId
            | Column::UserFirstName
            | Column::UserLastName
            | Column::UserEmail
            | Column::UserBannerId => Table::Users,
        }
    }
}

/// What a row holds in one column.
pub enum Cell {
    Null,
    Unsigned(u64),
    Text(Seq<char>),
}

/// A value to compare a column with, or to store in it.
#[derive(Debug, PartialEq, Eq)]
pub enum Value {
    Unsigned(u64),
    Text(String),
}

impl View for Value {
    type V = Cell;

    open spec fn view(&self) -> Cell {
        match self {
            Value::Unsigned(number) => Cell::Unsigned(*number),
            Value::Text(text) => Cell::Text(text@),
        }
    }
}

/// A cell of a row that is held in memory.
#[derive(Clone, Copy, Debug, PartialEq, Eq)]
pub enum CellRef<'a> {
    Null,
    Unsigned(u64),
    Text(&'a str),
}

impl<'a> View for CellRef<'a> {
    type V = Cell;

    open spec fn view(&self) -> Cell {
        match self {
            CellRef::Null => Cell::Null,
            CellRef::Unsigned(number) => Cell::Unsigned(*number),
            CellRef::Text(text) => Cell::Text(text@),
        }
    }
}

/// What a filter asks of the cell it looks at.
#[derive(Debug, PartialEq, Eq)]
pub enum Condition {
    /// The cell holds this value.
    Equals(Value),
    /// The cell holds a text that begins with this one.
    StartsWith(String),
    IsNull,
    IsNotNull,
}

pub enum ConditionView {
    Equals(Cell),
    StartsWith(Seq<char>),
    IsNull,
    IsNotNull,
}

impl View for Condition {
    type V = ConditionView;

    open spec fn view(&self) -> ConditionView {
        match self {
            Condition::Equals(value) => ConditionView::Equals(value@),
            Condition::StartsWith(prefix) => ConditionView::StartsWith(prefix@),
            Condition::IsNull => ConditionView::IsNull,
            Condition::IsNotNull => ConditionView::IsNotNull,
        }
    }
}

impl ConditionView {
    /// Whether a cell meets the condition. A missing value equals nothing and
    /// begins with nothing.
    pub open spec fn holds(self, cell: Cell) -> bool {
        match self {
            ConditionView::Equals(value) => cell !is Null && cell == value,
            ConditionView::StartsWith(prefix) => cell matches Cell::Text(text)
                && prefix.is_prefix_of(text),
            ConditionView::IsNull => cell is Null,
            ConditionView::IsNotNull => cell !is Null,
        }
    }
}

impl Condition {
    /// Whether a cell meets the condition.
    pub fn holds(&self, cell: &CellRef) -> (met: bool)
        ensures
            met == self@.holds(cell@),
    {
        match self {
            Condition::Equals(Value::Unsigned(wanted)) => match cell {
                CellRef::Unsigned(number) => *number == *wanted,
                _ => false,
            },
            Condition::Equals(Value::Text(wanted)) => match cell {
                CellRef::Text(text) => same_text(text, wanted.as_str()),
                _ => false,
            },
            Condition::StartsWith(prefix) => match cell {
                CellRef::Text(text) => begins_with(text, prefix.as_str()),
                _ => false,
            },
            Condition::IsNull => match cell {
                CellRef::Null => true,
                _ => false,
            },
            Condition::IsNotNull => match cell {
                CellRef::Null => false,
                _ => true,
            },
        }
    }
}

/// Whether a character has a meaning of its own in a pattern: `%` stands
/// for any text, `_` for any one character, and `\` takes that meaning away
/// from the character after it.
pub open spec fn is_pattern_mark(c: char) -> bool {
    c == '%' || c == '_' || c == '\\'
}

/// A text with a `\` before each of its characters that has a meaning of
/// its own in a pattern, so that as a pattern it matches that text only.
pub open spec fn escaped(text: Seq<char>) -> Seq<char>
    decreases text.len(),
{
    if text.len() == 0 {
        Seq::empty()
    } else if is_pattern_mark(text[0]) {
        seq!['\\', text[0]] + escaped(text.skip(1))
    } else {
        seq![text[0]] + escaped(text.skip(1))
    }
}

/// Whether a text matches a pattern: `%` matches any text, `_` any one
/// character, a character after `\` itself, and any other character itself.
pub open spec fn pattern_matches(pattern: Seq<char>, text: Seq<char>) -> bool
    decreases pattern.len(),
{
    if pattern.len() == 0 {
        text.len() == 0
    } else if pattern[0] == '\\' && pattern.len() >= 2 {
        text.len() > 0 && text[0] == pattern[1] && pattern_matches(pattern.skip(2), text.skip(1))
    } else if pattern[0] == '%' {
        exists|k: int| 0 <= k <= text.len() && pattern_matches(pattern.skip(1), #[trigger] text.skip(k))
    } else if pattern[0] == '_' {
        text.len() > 0 && pattern_matches(pattern.skip(1), text.skip(1))
    } else {
        text.len() > 0 && text[0] == pattern[0] && pattern_matches(pattern.skip(1), text.skip(1))
    }
}

/// The pattern of a prefix matches exactly the texts that begin with the
/// prefix, whatever characters the prefix holds.
pub proof fn lemma_like_pattern(prefix: Seq<char>, text: Seq<char>)
    ensures
        pattern_matches(escaped(prefix).push('%'), text) <==> prefix.is_prefix_of(text),
    decreases prefix.len(),
{
    let pattern = escaped(prefix).push('%');
    if prefix.len() == 0 {
        assert(pattern =~= seq!['%']);
        assert(pattern.skip(1) =~= Seq::<char>::empty());
        assert(text.skip(text.len() as int).len() == 0);
        assert(pattern_matches(pattern.skip(1), text.skip(text.len() as int)));
        assert(prefix =~= text.subrange(0, 0));
    } else {
        let c = prefix[0];
        let rest = prefix.skip(1);
        let tail = escaped(rest).push('%');
        lemma_like_pattern(rest, text.skip(1));
        if is_pattern_mark(c) {
            assert(pattern =~= seq!['\\', c] + tail);
            assert(pattern.skip(2) =~= tail);
        } else {
            assert(pattern =~= seq![c] + tail);
            assert(pattern.skip(1) =~= tail);
        }
        assert(pattern_matches(pattern, text) <==> text.len() > 0 && text[0] == c
            && pattern_matches(tail, text.skip(1)));
        if text.len() > 0 && text[0] == c && rest.is_prefix_of(text.skip(1)) {
            assert(rest =~= text.skip(1).subrange(0, rest.len() as int));
            assert forall|i: int| 0 <= i < prefix.len() implies prefix[i] == text[i] by {
                if i > 0 {
                    assert(rest[i - 1] == text.skip(1)[i - 1]);
                }
            }
            assert(prefix =~= text.subrange(0, prefix.len() as int));
        }
        if prefix.is_prefix_of(text) {
            assert(prefix =~= text.subrange(0, prefix.len() as int));
            assert(text[0] == prefix[0]);
            assert forall|i: int| 0 <= i < rest.len() implies rest[i] == text.skip(1)[i] by {
                assert(prefix[i + 1] == text.subrange(0, prefix.len() as int)[i + 1]);
            }
            assert(rest =~= text.skip(1).subrange(0, rest.len() as int));
        }
    }
}

/// The pattern that matches exactly the texts which begin with `prefix`, for
/// a store that is asked with patterns: the prefix with its marks escaped,
/// then `%` for any rest.
pub fn like_pattern(prefix: &str) -> (pattern: String)
    ensures
        pattern@ == escaped(prefix@).push('%'),
        forall|text: Seq<char>|
            #[trigger] pattern_matches(pattern@, text) <==> prefix@.is_prefix_of(text),
{
    let chars = chars_of(prefix);
    let mut pattern = String::new();
    let mut start: usize = 0;
    let mut i: usize = 0;
    proof {
        reveal_strlit("\\");
        assert("\\"@ =~= seq!['\\']);
        assert(prefix@.skip(0) =~= prefix@);
        assert(pattern@ + prefix@.subrange(0, 0) + escaped(prefix@.skip(0)) =~= escaped(prefix@));
    }
    while i < chars.len()
        invariant
            start <= i <= chars.len(),
            chars@ == prefix@,
            "\\"@ == seq!['\\'],
            pattern@ + prefix@.subrange(start as int, i as int) + escaped(prefix@.skip(i as int))
                == escaped(prefix@),
        decreases chars.len() - i,
    {
        let c = chars[i];
        let ghost before = pattern@;
        let ghost run = prefix@.subrange(start as int, i as int);
        let ghost after = escaped(prefix@.skip(i + 1));
        proof {
            assert(prefix@.skip(i as int)[0] == c);
            assert(prefix@.skip(i as int).skip(1) =~= prefix@.skip(i + 1));
        }
        if c == '%' || c == '_' || c == '\\' {
            pattern.append(prefix.substring_char(start, i));
            pattern.append("\\");
            start = i;
            assert(pattern@ + prefix@.subrange(start as int, i + 1) + after =~= before + run + (
            seq!['\\', c] + after)) by {
                assert(prefix@.subrange(i as int, i + 1) =~= seq![c]);
            }
        } else {
            assert(pattern@ + prefix@.subrange(start as int, i + 1) + after =~= before + run + (
            seq![c] + after));
        }
        i += 1;
    }
    pattern.append(prefix.substring_char(start, i));
    pattern.append("%");
    proof {
        reveal_strlit("%");
        assert(prefix@.skip(i as int) =~= Seq::<char>::empty());
        assert(pattern@ =~= escaped(prefix@).push('%'));
        assert forall|text: Seq<char>| #[trigger]
            pattern_matches(pattern@, text) <==> prefix@.is_prefix_of(text) by {
            lemma_like_pattern(prefix@, text);
        }
    }
    pattern
}

/// One condition on one column.
#[derive(Debug, PartialEq, Eq)]
pub struct Filter {
    pub column: Column,
    pub condition: Condition,
}

pub struct FilterView {
    pub column: Column,
    pub condition: ConditionView,
}

impl View for Filter {
    type V = FilterView;

    open spec fn view(&self) -> FilterView {
        FilterView { column: self.column, condition: self.condition@ }
    }
}

/// An inner join: the rows of `table` for which `left` equals `right`.
#[derive(Clone, Copy, Debug, PartialEq, Eq, Structural)]
pub struct Join {
    pub table: Table,
    pub left: Column,
    pub right: Column,
}

/// A query: every row of `from`, joined as `joins` say, that passes all of
/// `filters`. No order is asked of the rows.
#[derive(Debug, PartialEq, Eq)]
pub struct Query {
    pub from: Table,
    pub joins: Vec<Join>,
    pub filters: Vec<Filter>,
}

pub struct QueryView {
    pub from: Table,
    pub joins: Seq<Join>,
    pub filters: Seq<FilterView>,
}

impl View for Query {
    type V = QueryView;

    open spec fn view(&self) -> QueryView {
        QueryView {
            from: self.from,
            joins: self.joins@,
            filters: crate::models::views(self.filters@),
        }
    }
}

/// A row, seen as the cell it holds in each column.
pub type Row = spec_fn(Column) -> Cell;

/// Whether a row passes every filter of a list.
pub open spec fn admits(filters: Seq<FilterView>, row: Row) -> bool {
    forall|i: int| 0 <= i < filters.len() ==> (#[trigger] filters[i]).condition.holds(
        row(filters[i].column),
    )
}

/// The cells of a department. It holds nothing in the columns of other tables.
pub open spec fn department_row(department: DepartmentView) -> Row {
    |column: Column|
        match column {
            Column::DepartmentId => Cell::Unsigned(department.id),
            Column::DepartmentName => Cell::Text(department.name),
            Column::DepartmentAbbreviation => Cell::Text(department.abbreviation),
            _ => Cell::Null,
        }
}

/// The cells of a membership. It holds nothing in the columns of other tables.
pub open spec fn user_department_row(membership: UserDepartment) -> Row {
    |column: Column|
        match column {
            Column::UserDepartmentId => Cell::Unsigned(membership.id),
            Column::UserDepartmentUserId => Cell::Unsigned(membership.user_id),
            Column::UserDepartmentDepartmentId => Cell::Unsigned(membership.department_id),
            _ => Cell::Null,
        }
}

/// The cells of a joined membership: the join makes the membership's two
/// references equal to the ids of the user and the department.
pub open spec fn joined_row(joined: UserDepartmentJoinView) -> Row {
    |column: Column|
        match column {
            Column::UserDepartmentId => Cell::Unsigned(joined.id),
            Column::UserDepartmentUserId | Column::UserId => Cell::Unsigned(joined.user_id),
            Column::UserDepartmentDepartmentId | Column::DepartmentId => Cell::Unsigned(
                joined.department_id,
            ),
            Column::DepartmentName => Cell::Text(joined.department_name),
            Column::DepartmentAbbreviation => Cell::Text(joined.department_abbreviation),
            Column::UserFirstName => Cell::Text(joined.user_first_name),
            Column::UserLastName => Cell::Text(joined.user_last_name),
            Column::UserEmail => match joined.user_email {
                Some(email) => Cell::Text(email),
                None => Cell::Null,
            },
            Column::UserBannerId => Cell::Unsigned(joined.user_banner_id as u64),
        }
}

/// What a criterion asks of a text field.
pub open spec fn text_meets(criterion: Search<Seq<char>>, field: Seq<char>) -> bool {
    match criterion {
        Search::Partial(prefix) => prefix.is_prefix_of(field),
        Search::Exact(value) => field == value,
        Search::NoSearch => true,
    }
}

/// What a criterion asks of a number: equality, also where a prefix match
/// was asked for.
pub open spec fn number_meets<V>(criterion: Search<V>, field: V) -> bool {
    match criterion {
        Search::Partial(value) => field == value,
        Search::Exact(value) => field == value,
        Search::NoSearch => true,
    }
}

/// What a criterion asks of a text field that may be absent.
pub open spec fn nullable_text_meets(
    criterion: NullableSearch<Seq<char>>,
    field: Option<Seq<char>>,
) -> bool {
    match criterion {
        NullableSearch::Partial(prefix) => field matches Some(text) && prefix.is_prefix_of(text),
        NullableSearch::Exact(value) => field == Some(value),
        NullableSearch::NotNull => field is Some,
        NullableSearch::Null => field is None,
        NullableSearch::NoSearch => true,
    }
}

/// The filters that a criterion on a text column becomes: none where the
/// column is not looked at, else one.
pub open spec fn text_filters(column: Column, criterion: Search<Seq<char>>) -> Seq<FilterView> {
    match criterion {
        Search::Partial(prefix) => seq![
            FilterView { column, condition: ConditionView::StartsWith(prefix) },
        ],
        Search::Exact(value) => seq![
            FilterView { column, condition: ConditionView::Equals(Cell::Text(value)) },
        ],
        Search::NoSearch => seq![],
    }
}

/// The filters that a criterion on a number column becomes.
pub open spec fn number_filters(column: Column, criterion: Search<u64>) -> Seq<FilterView> {
    match criterion {
        Search::Partial(value) => seq![
            FilterView { column, condition: ConditionView::Equals(Cell::Unsigned(value)) },
        ],
        Search::Exact(value) => seq![
            FilterView { column, condition: ConditionView::Equals(Cell::Unsigned(value)) },
        ],
        Search::NoSearch => seq![],
    }
}

/// The filters that a criterion on a text column that may be absent becomes.
pub open spec fn nullable_text_filters(
    column: Column,
    criterion: NullableSearch<Seq<char>>,
) -> Seq<FilterView> {
    match criterion {
        NullableSearch::Partial(prefix) => seq![
            FilterView { column, condition: ConditionView::StartsWith(prefix) },
        ],
        NullableSearch::Exact(value) => seq![
            FilterView { column, condition: ConditionView::Equals(Cell::Text(value)) },
        ],
        NullableSearch::NotNull => seq![FilterView { column, condition: ConditionView::IsNotNull }],
        NullableSearch::Null => seq![FilterView { column, condition: ConditionView::IsNull }],
        NullableSearch::NoSearch => seq![],
    }
}

/// A criterion on a 32-bit number, as one on a 64-bit number.
pub open spec fn widened(criterion: Search<u32>) -> Search<u64> {
    match criterion {
        Search::Partial(value) => Search::Partial(value as u64),
        Search::Exact(value) => Search::Exact(value as u64),
        Search::NoSearch => Search::NoSearch,
    }
}

pub fn widen(criterion: Search<u32>) -> (wide: Search<u64>)
    ensures
        wide@ == widened(criterion@),
{
    match criterion {
        Search::Partial(value) => Search::Partial(value as u64),
        Search::Exact(value) => Search::Exact(value as u64),
        Search::NoSearch => Search::NoSearch,
    }
}

fn push_filter(filters: &mut Vec<Filter>, filter: Filter)
    ensures
        views(final(filters)@) == views(old(filters)@).push(filter@),
{
    filters.push(filter);
    assert(views(filters@) =~= views(old(filters)@).push(filter@));
}

/// Appends the filter that a criterion on a text column asks for, if any.
pub fn add_text_filter(filters: &mut Vec<Filter>, column: Column, criterion: Search<String>)
    ensures
        views(final(filters)@) == views(old(filters)@) + text_filters(column, criterion@),
{
    match criterion {
        Search::Partial(prefix) => {
            push_filter(filters, Filter { column, condition: Condition::StartsWith(prefix) });
        },
        Search::Exact(value) => {
            push_filter(filters, Filter { column, condition: Condition::Equals(Value::Text(value)) });
        },
        Search::NoSearch => {},
    }
    assert(views(filters@) =~= views(old(filters)@) + text_filters(column, criterion@));
}

/// Appends the filter that a criterion on a number column asks for, if any.
pub fn add_number_filter(filters: &mut Vec<Filter>, column: Column, criterion: Search<u64>)
    ensures
        views(final(filters)@) == views(old(filters)@) + number_filters(column, criterion@),
{
    match criterion {
        Search::Partial(value) => {
            push_filter(
                filters,
                Filter { column, condition: Condition::Equals(Value::Unsigned(value)) },
            );
        },
        Search::Exact(value) => {
            push_filter(
                filters,
                Filter { column, condition: Condition::Equals(Value::Unsigned(value)) },
            );
        },
        Search::NoSearch => {},
    }
    assert(views(filters@) =~= views(old(filters)@) + number_filters(column, criterion@));
}

/// Appends the filter that a criterion on a text column that may be absent
/// asks for, if any.
pub fn add_nullable_text_filter(
    filters: &mut Vec<Filter>,
    column: Column,
    criterion: NullableSearch<String>,
)
    ensures
        views(final(filters)@) == views(old(filters)@) + nullable_text_filters(
            column,
            criterion@,
        ),
{
    match criterion {
        NullableSearch::Partial(prefix) => {
            push_filter(filters, Filter { column, condition: Condition::StartsWith(prefix) });
        },
        NullableSearch::Exact(value) => {
            push_filter(filters, Filter { column, condition: Condition::Equals(Value::Text(value)) });
        },
        NullableSearch::NotNull => {
            push_filter(filters, Filter { column, condition: Condition::IsNotNull });
        },
        NullableSearch::Null => {
            push_filter(filters, Filter { column, condition: Condition::IsNull });
        },
        NullableSearch::NoSearch => {},
    }
    assert(views(filters@) =~= views(old(filters)@) + nullable_text_filters(column, criterion@));
}

/// A row passes two lists of filters put together exactly when it passes both.
pub proof fn lemma_admits_concat(first: Seq<FilterView>, second: Seq<FilterView>, row: Row)
    ensures
        admits(first + second, row) <==> admits(first, row) && admits(second, row),
{
    let both = first + second;
    if admits(both, row) {
        assert forall|i: int| 0 <= i < first.len() implies (#[trigger] first[i]).condition.holds(
            row(first[i].column),
        ) by {
            assert(both[i] == first[i]);
        }
        assert forall|i: int| 0 <= i < second.len() implies (#[trigger] second[i]).condition.holds(
            row(second[i].column),
        ) by {
            assert(both[first.len() + i] == second[i]);
        }
    }
    if admits(first, row) && admits(second, row) {
        assert forall|i: int| 0 <= i < both.len() implies (#[trigger] both[i]).condition.holds(
            row(both[i].column),
        ) by {
            if i < first.len() {
                assert(both[i] == first[i]);
            } else {
                assert(both[i] == second[i - first.len()]);
            }
        }
    }
}

/// The order of the filters has no part in what passes: two lists that hold
/// the same filters let the same rows pass.
pub proof fn lemma_admits_any_order(first: Seq<FilterView>, second: Seq<FilterView>, row: Row)
    requires
        forall|filter: FilterView| first.contains(filter) <==> second.contains(filter),
    ensures
        admits(first, row) == admits(second, row),
{
    if admits(first, row) {
        assert forall|i: int| 0 <= i < second.len() implies (#[trigger] second[i]).condition.holds(
            row(second[i].column),
        ) by {
            assert(second.contains(second[i]));
            let k = choose|k: int| 0 <= k < first.len() && first[k] == second[i];
            assert(first[k].condition.holds(row(first[k].column)));
        }
    }
    if admits(second, row) {
        assert forall|i: int| 0 <= i < first.len() implies (#[trigger] first[i]).condition.holds(
            row(first[i].column),
        ) by {
            assert(first.contains(first[i]));
            let k = choose|k: int| 0 <= k < second.len() && second[k] == first[i];
            assert(second[k].condition.holds(row(second[k].column)));
        }
    }
}

/// The filters of a text criterion let a row pass exactly when the text in
/// the column meets the criterion.
pub proof fn lemma_text_filters(
    column: Column,
    criterion: Search<Seq<char>>,
    row: Row,
    field: Seq<char>,
)
    requires
        row(column) == Cell::Text(field),
    ensures
        admits(text_filters(column, criterion), row) <==> text_meets(criterion, field),
{
    let filters = text_filters(column, criterion);
    if filters.len() > 0 {
        assert(filters[0].condition.holds(row(filters[0].column)) <==> text_meets(
            criterion,
            field,
        ));
    }
}

/// The filters of a number criterion let a row pass exactly when the number
/// in the column meets the criterion.
pub proof fn lemma_number_filters(column: Column, criterion: Search<u64>, row: Row, field: u64)
    requires
        row(column) == Cell::Unsigned(field),
    ensures
        admits(number_filters(column, criterion), row) <==> number_meets(criterion, field),
{
    let filters = number_filters(column, criterion);
    if filters.len() > 0 {
        assert(filters[0].condition.holds(row(filters[0].column)) <==> number_meets(
            criterion,
            field,
        ));
    }
}

/// The filters of a criterion on a text that may be absent let a row pass
/// exactly when what the column holds meets the criterion.
pub proof fn lemma_nullable_text_filters(
    column: Column,
    criterion: NullableSearch<Seq<char>>,
    row: Row,
    field: Option<Seq<char>>,
)
    requires
        row(column) == match field {
            Some(text) => Cell::Text(text),
            None => Cell::Null,
        },
    ensures
        admits(nullable_text_filters(column, criterion), row) <==> nullable_text_meets(
            criterion,
            field,
        ),
{
    let filters = nullable_text_filters(column, criterion);
    if filters.len() > 0 {
        assert(filters[0].condition.holds(row(filters[0].column)) <==> nullable_text_meets(
            criterion,
            field,
        ));
    }
}

/// A row that is held in memory and can be asked for its cells.
pub trait Record: View + Sized {
    /// The cells of a row.
    spec fn row_of(row: Self::V) -> Row;

    /// What the row holds in a column.
    fn cell(&self, column: Column) -> (cell: CellRef<'_>)
        ensures
            cell@ == Self::row_of(self@)(column),
    ;

    /// A second row that holds the same.
    fn duplicate(&self) -> (copy: Self)
        ensures
            copy@ == self@,
    ;
}

impl Record for Department {
    open spec fn row_of(row: DepartmentView) -> Row {
        department_row(row)
    }

    fn cell(&self, column: Column) -> (cell: CellRef<'_>) {
        match column {
            Column::DepartmentId => CellRef::Unsigned(self.id),
            Column::DepartmentName => CellRef::Text(self.name.as_str()),
            Column::DepartmentAbbreviation => CellRef::Text(self.abbreviation.as_str()),
            _ => CellRef::Null,
        }
    }

    fn duplicate(&self) -> (copy: Department) {
        self.clone()
    }
}

impl Record for UserDepartment {
    open spec fn row_of(row: UserDepartment) -> Row {
        user_department_row(row)
    }

    fn cell(&self, column: Column) -> (cell: CellRef<'_>) {
        match column {
            Column::UserDepartmentId => CellRef::Unsigned(self.id),
            Column::UserDepartmentUserId => CellRef::Unsigned(self.user_id),
            Column::UserDepartmentDepartmentId => CellRef::Unsigned(self.department_id),
            _ => CellRef::Null,
        }
    }

    fn duplicate(&self) -> (copy: UserDepartment) {
        *self
    }
}

impl Record for UserDepartmentJoin {
    open spec fn row_of(row: UserDepartmentJoinView) -> Row {
        joined_row(row)
    }

    fn cell(&self, column: Column) -> (cell: CellRef<'_>) {
        match column {
            Column::UserDepartmentId => CellRef::Unsigned(self.id),
            Column::UserDepartmentUserId | Column::UserId => CellRef::Unsigned(self.user_id),
            Column::UserDepartmentDepartmentId | Column::DepartmentId => CellRef::Unsigned(
                self.department_id,
            ),
            Column::DepartmentName => CellRef::Text(self.department_name.as_str()),
            Column::DepartmentAbbreviation => CellRef::Text(self.department_abbreviation.as_str()),
            Column::UserFirstName => CellRef::Text(self.user_first_name.as_str()),
            Column::UserLastName => CellRef::Text(self.user_last_name.as_str()),
            Column::UserEmail => match &self.user_email {
                Some(email) => CellRef::Text(email.as_str()),
                None => CellRef::Null,
            },
            Column::UserBannerId => CellRef::Unsigned(self.user_banner_id as u64),
        }
    }

    fn duplicate(&self) -> (copy: UserDepartmentJoin) {
        self.clone()
    }
}

/// The rows of a sequence that pass every filter of a list, in their order.
pub open spec fn selected<R: Record>(rows: Seq<R::V>, filters: Seq<FilterView>) -> Seq<R::V> {
    rows.filter(|row: R::V| admits(filters, R::row_of(row)))
}

/// The one filter that picks the rows whose `column` holds `id`.
pub open spec fn id_filter(column: Column, id: u64) -> Seq<FilterView> {
    seq![FilterView { column, condition: ConditionView::Equals(Cell::Unsigned(id)) }]
}

/// Builds the one filter that picks the rows whose `column` holds `id`.
pub fn filter_by_id(column: Column, id: u64) -> (filters: Vec<Filter>)
    ensures
        views(filters@) == id_filter(column, id),
{
    let mut filters: Vec<Filter> = Vec::new();
    filters.push(Filter { column, condition: Condition::Equals(Value::Unsigned(id)) });
    assert(views(filters@) =~= id_filter(column, id));
    filters
}

/// Whether a row passes every filter of a list.
pub fn passes<R: Record>(row: &R, filters: &Vec<Filter>) -> (passed: bool)
    ensures
        passed == admits(views(filters@), R::row_of(row@)),
{
    let mut i: usize = 0;
    while i < filters.len()
        invariant
            i <= filters.len(),
            forall|k: int|
                0 <= k < i ==> (#[trigger] views(filters@)[k]).condition.holds(
                    R::row_of(row@)(views(filters@)[k].column),
                ),
        decreases filters.len() - i,
    {
        let cell = row.cell(filters[i].column);
        assert(views(filters@)[i as int] == filters@[i as int]@);
        if !filters[i].condition.holds(&cell) {
            return false;
        }
        i += 1;
    }
    true
}

/// Copies out the rows that pass every filter of a list, in their order.
pub fn select<R: Record>(rows: &Vec<R>, filters: &Vec<Filter>) -> (found: Vec<R>)
    ensures
        views(found@) == selected::<R>(views(rows@), views(filters@)),
{
    let ghost all = views(rows@);
    let ghost wanted = |row: R::V| admits(views(filters@), R::row_of(row));
    let mut found: Vec<R> = Vec::new();
    let mut i: usize = 0;
    proof {
        reveal(Seq::filter);
        assert(all.take(0) =~= Seq::<R::V>::empty());
        assert(views(found@) =~= Seq::<R::V>::empty());
    }
    while i < rows.len()
        invariant
            i <= rows.len(),
            all == views(rows@),
            wanted == |row: R::V| admits(views(filters@), R::row_of(row)),
            views(found@) == all.take(i as int).filter(wanted),
        decreases rows.len() - i,
    {
        proof {
            reveal(Seq::filter);
            assert(all.take(i + 1).drop_last() =~= all.take(i as int));
            assert(all.take(i + 1).last() == rows@[i as int]@);
        }
        if passes(&rows[i], filters) {
            let copy = rows[i].duplicate();
            let ghost before = views(found@);
            found.push(copy);
            assert(views(found@) =~= before.push(copy@));
        }
        i += 1;
    }
    proof {
        assert(all.take(i as int) =~= all);
    }
    found
}

} // verus!
