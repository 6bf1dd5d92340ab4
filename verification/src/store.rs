//! A store that lives in memory: what each command does to the rows, stated
//! over sequences, and a table that does it.

use crate::errors::{WebdevError, WebdevErrorKind};
use crate::models::{
    views, Department, DepartmentRequest, DepartmentRequestView, DepartmentResponse,
    DepartmentResponseView, DepartmentView, NewDepartmentView, PartialDepartment,
    PartialDepartmentView,
};
use crate::query::{
    admits, filter_by_id, id_filter, select, selected, Column, Filter, Record, Table,
};
use crate::requests::{
    first_department_step, handle_department, next_department_step, resume_department,
    DepartmentCommand, DepartmentCommandView, DepartmentReply, DepartmentReplyView, DepartmentStep,
    DepartmentStepView,
};
use crate::sequences::{lemma_filter_all, lemma_filter_distinct, lemma_filter_within};
use vstd::prelude::*;

verus! {

/// The departments of a store, with what the store remembers about ids.
pub struct DepartmentsState {
    /// The rows, oldest first.
    pub rows: Seq<DepartmentView>,
    /// The id that the next new row is given.
    pub next_id: u64,
    /// The id that the last new row was given; 0 where there was none.
    pub last_inserted: u64,
}

/// A department with the given fields overwritten.
pub open spec fn overwritten(
    department: DepartmentView,
    fields: PartialDepartmentView,
) -> DepartmentView {
    DepartmentView {
        id: department.id,
        name: match fields.name {
            Some(name) => name,
            None => department.name,
        },
        abbreviation: match fields.abbreviation {
            Some(abbreviation) => abbreviation,
            None => department.abbreviation,
        },
    }
}

impl DepartmentsState {
    /// An empty table. Ids start at 1.
    pub open spec fn empty() -> DepartmentsState {
        DepartmentsState { rows: Seq::empty(), next_id: 1, last_inserted: 0 }
    }

    /// Ids are positive, below the next one to give, and no two rows share one.
    pub open spec fn well_formed(self) -> bool {
        &&& 1 <= self.next_id
        &&& self.last_inserted < self.next_id
        &&& forall|i: int| 0 <= i < self.rows.len() ==> 1 <= (#[trigger] self.rows[i]).id < self.next_id
        &&& forall|i: int, j: int|
            0 <= i < j < self.rows.len() ==> (#[trigger] self.rows[i]).id != (#[trigger] self.rows[j]).id
    }

    /// The rows after an insert.
    pub open spec fn inserted(self, department: NewDepartmentView) -> DepartmentsState {
        DepartmentsState {
            rows: self.rows.push(
                DepartmentView {
                    id: self.next_id,
                    name: department.name,
                    abbreviation: department.abbreviation,
                },
            ),
            next_id: (self.next_id + 1) as u64,
            last_inserted: self.next_id,
        }
    }

    /// The rows after an update of the row with the given id.
    pub open spec fn updated(self, id: u64, fields: PartialDepartmentView) -> DepartmentsState {
        DepartmentsState {
            rows: Seq::new(
                self.rows.len(),
                |i: int|
                    if self.rows[i].id == id {
                        overwritten(self.rows[i], fields)
                    } else {
                        self.rows[i]
                    },
            ),
            next_id: self.next_id,
            last_inserted: self.last_inserted,
        }
    }

    /// The rows after the removal of the row with the given id.
    pub open spec fn deleted(self, id: u64) -> DepartmentsState {
        DepartmentsState {
            rows: self.rows.filter(|row: DepartmentView| row.id != id),
            next_id: self.next_id,
            last_inserted: self.last_inserted,
        }
    }

    /// What a command leaves of the table.
    pub open spec fn after(self, command: DepartmentCommandView) -> DepartmentsState {
        match command {
            DepartmentCommandView::Insert(department) => if self.next_id < u64::MAX {
                self.inserted(department)
            } else {
                self
            },
            DepartmentCommandView::Update(id, fields) => self.updated(id, fields),
            DepartmentCommandView::Delete(id) => self.deleted(id),
            _ => self,
        }
    }

    /// What the table answers to a command. It fails on a query that is not
    /// about its own rows alone, and on an insert once the ids have run out.
    pub open spec fn answer(self, command: DepartmentCommandView) -> DepartmentReplyView {
        match command {
            DepartmentCommandView::Select(query) => if query.from == Table::Departments
                && query.joins.len() == 0 {
                DepartmentReplyView::Rows(selected::<Department>(self.rows, query.filters))
            } else {
                DepartmentReplyView::Failed
            },
            DepartmentCommandView::SelectLastInserted => DepartmentReplyView::Rows(
                selected::<Department>(
                    self.rows,
                    id_filter(Column::DepartmentId, self.last_inserted),
                ),
            ),
            DepartmentCommandView::Insert(_) => if self.next_id < u64::MAX {
                DepartmentReplyView::Done
            } else {
                DepartmentReplyView::Failed
            },
            DepartmentCommandView::Update(_, _) => DepartmentReplyView::Done,
            DepartmentCommandView::Delete(_) => DepartmentReplyView::Done,
        }
    }
}

/// Departments held in memory.
pub struct DepartmentTable {
    rows: Vec<Department>,
    next_id: u64,
    last_inserted: u64,
}

impl View for DepartmentTable {
    type V = DepartmentsState;

    closed spec fn view(&self) -> DepartmentsState {
        DepartmentsState {
            rows: views(self.rows@),
            next_id: self.next_id,
            last_inserted: self.last_inserted,
        }
    }
}

/// Copies the rows, the one with the given id overwritten.
fn overwrite_rows(rows: &Vec<Department>, id: u64, fields: &PartialDepartment) -> (changed: Vec<
    Department,
>)
    ensures
        changed@.len() == rows@.len(),
        forall|i: int|
            0 <= i < rows@.len() ==> (#[trigger] changed@[i])@ == if rows@[i].id == id {
                overwritten(rows@[i]@, fields@)
            } else {
                rows@[i]@
            },
{
    let mut changed: Vec<Department> = Vec::new();
    let mut i: usize = 0;
    while i < rows.len()
        invariant
            i <= rows.len(),
            changed@.len() == i,
            forall|k: int|
                0 <= k < i ==> (#[trigger] changed@[k])@ == if rows@[k].id == id {
                    overwritten(rows@[k]@, fields@)
                } else {
                    rows@[k]@
                },
        decreases rows.len() - i,
    {
        let row = &rows[i];
        if row.id == id {
            let name = match &fields.name {
                Some(name) => name.clone(),
                None => row.name.clone(),
            };
            let abbreviation = match &fields.abbreviation {
                Some(abbreviation) => abbreviation.clone(),
                None => row.abbreviation.clone(),
            };
            changed.push(Department { id: row.id, name, abbreviation });
        } else {
            changed.push(row.clone());
        }
        i += 1;
    }
    changed
}

/// Copies the rows but the one with the given id.
fn remove_row(rows: &Vec<Department>, id: u64) -> (kept: Vec<Department>)
    ensures
        views(kept@) == views(rows@).filter(|row: DepartmentView| row.id != id),
{
    let ghost all = views(rows@);
    let ghost keep = |row: DepartmentView| row.id != id;
    let mut kept: Vec<Department> = Vec::new();
    let mut i: usize = 0;
    proof {
        reveal(Seq::filter);
        assert(all.take(0) =~= Seq::<DepartmentView>::empty());
        assert(views(kept@) =~= Seq::<DepartmentView>::empty());
    }
    while i < rows.len()
        invariant
            i <= rows.len(),
            all == views(rows@),
            keep == |row: DepartmentView| row.id != id,
            views(kept@) == all.take(i as int).filter(keep),
        decreases rows.len() - i,
    {
        proof {
            reveal(Seq::filter);
            assert(all.take(i + 1).drop_last() =~= all.take(i as int));
            assert(all.take(i + 1).last() == rows@[i as int]@);
        }
        if rows[i].id != id {
            let copy = rows[i].clone();
            let ghost before = views(kept@);
            kept.push(copy);
            assert(views(kept@) =~= before.push(copy@));
        }
        i += 1;
    }
    proof {
        assert(all.take(i as int) =~= all);
    }
    kept
}

/// Removing rows keeps a table well formed.
proof fn lemma_deleted_well_formed(state: DepartmentsState, id: u64)
    requires
        state.well_formed(),
    ensures
        state.deleted(id).well_formed(),
{
    let keep = |row: DepartmentView| row.id != id;
    let kept = state.rows.filter(keep);
    lemma_filter_distinct(state.rows, keep, |row: DepartmentView| row.id);
    assert forall|i: int| 0 <= i < kept.len() implies 1 <= (#[trigger] kept[i]).id
        < state.next_id by {
        lemma_filter_within(state.rows, keep, i);
    }
}

impl DepartmentTable {
    /// A table without rows.
    pub fn new() -> (table: DepartmentTable)
        ensures
            table@ == DepartmentsState::empty(),
    {
        let table = DepartmentTable { rows: Vec::new(), next_id: 1, last_inserted: 0 };
        assert(table@.rows =~= Seq::<DepartmentView>::empty());
        table
    }

    /// A copy of the rows, oldest first.
    pub fn rows(&self) -> (rows: Vec<Department>)
        ensures
            views(rows@) == self@.rows,
    {
        let all: Vec<Filter> = Vec::new();
        let rows = select(&self.rows, &all);
        proof {
            lemma_filter_all(
                self@.rows,
                |row: DepartmentView| admits(views(all@), Department::row_of(row)),
            );
        }
        rows
    }

    /// Carries out one command and says what came of it.
    pub fn execute(&mut self, command: DepartmentCommand) -> (reply: DepartmentReply)
        requires
            old(self)@.well_formed(),
        ensures
            final(self)@ == old(self)@.after(command@),
            reply@ == old(self)@.answer(command@),
            final(self)@.well_formed(),
    {
        match command {
            DepartmentCommand::Select(query) => {
                match query.from {
                    Table::Departments => {
                        if query.joins.len() == 0 {
                            DepartmentReply::Rows(select(&self.rows, &query.filters))
                        } else {
                            DepartmentReply::Failed
                        }
                    },
                    _ => DepartmentReply::Failed,
                }
            },
            DepartmentCommand::SelectLastInserted => {
                let filters = filter_by_id(Column::DepartmentId, self.last_inserted);
                DepartmentReply::Rows(select(&self.rows, &filters))
            },
            DepartmentCommand::Insert(department) => {
                if self.next_id < u64::MAX {
                    let id = self.next_id;
                    let ghost before = views(self.rows@);
                    let row = Department {
                        id,
                        name: department.name,
                        abbreviation: department.abbreviation,
                    };
                    self.next_id = id + 1;
                    self.rows.push(row);
                    assert(views(self.rows@) =~= before.push(row@));
                    self.last_inserted = id;
                    DepartmentReply::Done
                } else {
                    DepartmentReply::Failed
                }
            },
            DepartmentCommand::Update(id, fields) => {
                let changed = overwrite_rows(&self.rows, id, &fields);
                assert(views(changed@) =~= old(self)@.updated(id, fields@).rows);
                self.rows = changed;
                DepartmentReply::Done
            },
            DepartmentCommand::Delete(id) => {
                let kept = remove_row(&self.rows, id);
                proof {
                    lemma_deleted_well_formed(old(self)@, id);
                }
                self.rows = kept;
                DepartmentReply::Done
            },
        }
    }
}

/// How a request about departments ends.
pub type DepartmentOutcome = Result<DepartmentResponseView, WebdevError>;

/// The view of the outcome of a request about departments.
pub open spec fn department_outcome(
    result: Result<DepartmentResponse, WebdevError>,
) -> DepartmentOutcome {
    match result {
        Ok(response) => Ok(response@),
        Err(error) => Err(error),
    }
}

/// Where a request ends when its steps are taken against a table: each
/// command goes to the table, and its answer decides the next step. After
/// `trips` round trips an unfinished request ends with `Database`.
pub open spec fn settled(
    state: DepartmentsState,
    step: DepartmentStepView,
    trips: nat,
) -> (DepartmentsState, DepartmentOutcome)
    decreases trips,
{
    match step {
        DepartmentStepView::Finish(outcome) => (state, outcome),
        DepartmentStepView::Ask(command, pending) => if trips == 0 {
            (state, Err(WebdevError { kind: WebdevErrorKind::Database }))
        } else {
            settled(
                state.after(command),
                next_department_step(pending, state.answer(command)),
                (trips - 1) as nat,
            )
        },
    }
}

/// What a request about departments does to a table, and how it ends.
pub open spec fn served(
    state: DepartmentsState,
    request: DepartmentRequestView,
) -> (DepartmentsState, DepartmentOutcome) {
    settled(state, first_department_step(request), 2)
}

/// Every command keeps a table well formed.
pub proof fn lemma_after_well_formed(state: DepartmentsState, command: DepartmentCommandView)
    requires
        state.well_formed(),
    ensures
        state.after(command).well_formed(),
{
    match command {
        DepartmentCommandView::Delete(id) => {
            lemma_deleted_well_formed(state, id);
        },
        DepartmentCommandView::Insert(department) => {
            if state.next_id < u64::MAX {
                let after = state.inserted(department);
                let last = state.rows.len() as int;
                assert forall|i: int| 0 <= i < after.rows.len() implies 1 <= (
                #[trigger] after.rows[i]).id < after.next_id by {
                    if i < last {
                        assert(after.rows[i] == state.rows[i]);
                    }
                }
                assert forall|i: int, j: int| 0 <= i < j < after.rows.len() implies (
                #[trigger] after.rows[i]).id != (#[trigger] after.rows[j]).id by {
                    assert(after.rows[i] == state.rows[i]);
                    if j < last {
                        assert(after.rows[j] == state.rows[j]);
                    }
                }
            }
        },
        _ => {},
    }
}

/// Serves a request about departments from a table in memory.
pub fn serve_department(table: &mut DepartmentTable, request: DepartmentRequest) -> (result: Result<
    DepartmentResponse,
    WebdevError,
>)
    requires
        old(table)@.well_formed(),
    ensures
        (final(table)@, department_outcome(result)) == served(old(table)@, request@),
        final(table)@.well_formed(),
{
    let mut step = handle_department(request);
    let mut trips: u8 = 2;
    loop
        invariant
            table@.well_formed(),
            settled(table@, step@, trips as nat) == served(old(table)@, request@),
        decreases trips,
    {
        match step {
            DepartmentStep::Finish(result) => {
                return result;
            },
            DepartmentStep::Ask(command, pending) => {
                if trips == 0 {
                    return Err(WebdevError::new(WebdevErrorKind::Database));
                }
                let reply = table.execute(command);
                step = resume_department(pending, reply);
                trips = trips - 1;
            },
        }
    }
}

} // verus!
