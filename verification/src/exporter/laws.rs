//! What holds of every export.
//!
//! The relational sink is described by what its statements do to two tables,
//! each a map from a digest to a row: an insert adds its row unless the
//! digest is there, emptying leaves both tables without rows, and steps
//! that do not end in a commit leave the tables as they were.

use vstd::prelude::*;
use crate::exporter::csv::{csv_columns, csv_records};
use crate::exporter::pg::{
    closing_steps, export_plan, file_steps, gives_up, insert_steps, opening_steps, schema_steps,
    StepView, UtcTimestamp,
};
use crate::exporter::{flat_rows, RowView};
use crate::transformer::parser::{AssignmentView, LineEntryView};

verus! {

/// The row of a file.
pub struct FileRow {
    pub header: Seq<char>,
    pub published: UtcTimestamp,
}

/// The row of an entry.
pub struct EntryRow {
    pub entry: LineEntryView,
    pub file_sha: Seq<char>,
    pub published: UtcTimestamp,
}

/// The two tables: the rows of the files and the rows of the entries, each
/// under its digest.
pub struct Tables {
    pub files: Map<Seq<char>, FileRow>,
    pub entries: Map<Seq<char>, EntryRow>,
}

/// Two tables without rows.
pub open spec fn empty_tables() -> Tables {
    Tables { files: Map::empty(), entries: Map::empty() }
}

/// The tables after one step.
pub open spec fn after_step(tables: Tables, step: StepView) -> Tables {
    match step {
        StepView::Truncate => empty_tables(),
        StepView::InsertFile { sha, header, published } => if tables.files.dom().contains(sha) {
            tables
        } else {
            Tables { files: tables.files.insert(sha, FileRow { header, published }), ..tables }
        },
        StepView::InsertEntry { entry, file_sha, published } => if tables.entries.dom().contains(
            entry.sha,
        ) {
            tables
        } else {
            Tables {
                entries: tables.entries.insert(entry.sha, EntryRow { entry, file_sha, published }),
                ..tables
            }
        },
        _ => tables,
    }
}

/// The tables after each of `steps`, from the first to the last.
pub open spec fn after_steps(tables: Tables, steps: Seq<StepView>) -> Tables
    decreases steps.len(),
{
    if steps.len() == 0 {
        tables
    } else {
        after_step(after_steps(tables, steps.drop_last()), steps.last())
    }
}

/// The tables after an export with the steps `plan`: what the steps did
/// where they end in a commit, and the tables as they were where they do
/// not.
pub open spec fn after_export(tables: Tables, plan: Seq<StepView>) -> Tables {
    if plan.len() > 0 && plan.last() is Commit {
        after_steps(tables, plan)
    } else {
        tables
    }
}

/// Whether a step adds a row.
pub open spec fn is_insert(step: StepView) -> bool {
    step is InsertFile || step is InsertEntry
}

/// Whether the tables hold a row under the digest of the row that `step`
/// adds.
pub open spec fn holds_row_of(tables: Tables, step: StepView) -> bool {
    match step {
        StepView::InsertFile { sha, .. } => tables.files.dom().contains(sha),
        StepView::InsertEntry { entry, .. } => tables.entries.dom().contains(entry.sha),
        _ => true,
    }
}

/// Steps one after the other are the same as all of them at once.
pub proof fn lemma_steps_in_turn(tables: Tables, first: Seq<StepView>, second: Seq<StepView>)
    ensures
        after_steps(tables, first + second) == after_steps(after_steps(tables, first), second),
    decreases second.len(),
{
    if second.len() == 0 {
        assert(first + second == first);
    } else {
        assert((first + second).drop_last() == first + second.drop_last());
        assert((first + second).last() == second.last());
        lemma_steps_in_turn(tables, first, second.drop_last());
    }
}

/// The steps for files that do not give up add rows and do nothing else.
pub proof fn lemma_inserts_only(data: Seq<AssignmentView>)
    requires
        !gives_up(insert_steps(data)),
    ensures
        forall|i: int| 0 <= i < insert_steps(data).len() ==> is_insert(#[trigger] insert_steps(data)[i]),
    decreases data.len(),
{
    if data.len() > 0 {
        let before = insert_steps(data.drop_last());
        let added = file_steps(data.last());
        if gives_up(before) {
        } else {
            lemma_inserts_only(data.drop_last());
            let all = before + added;
            assert(all == insert_steps(data));
            assert(!(added.last() is Abort)) by {
                assert(all.last() == added.last());
            }
            assert forall|i: int| 0 <= i < all.len() implies is_insert(#[trigger] all[i]) by {
                if i < before.len() {
                    assert(all[i] == before[i]);
                } else {
                    assert(all[i] == added[i - before.len()]);
                }
            }
        }
    }
}

/// After steps that only add rows, the tables hold a row for each of them,
/// and every row held before is still held.
pub proof fn lemma_rows_present(tables: Tables, steps: Seq<StepView>)
    requires
        forall|i: int| 0 <= i < steps.len() ==> is_insert(#[trigger] steps[i]),
    ensures
        forall|i: int| 0 <= i < steps.len() ==> holds_row_of(after_steps(tables, steps), #[trigger] steps[i]),
        forall|step: StepView| #[trigger]
            holds_row_of(tables, step) ==> holds_row_of(after_steps(tables, steps), step),
    decreases steps.len(),
{
    if steps.len() > 0 {
        let before = steps.drop_last();
        let reached = after_steps(tables, before);
        lemma_rows_present(tables, before);
        assert(is_insert(steps.last()));
        assert forall|i: int| 0 <= i < steps.len() implies holds_row_of(
            after_steps(tables, steps),
            #[trigger] steps[i],
        ) by {
            if i < before.len() {
                assert(steps[i] == before[i]);
                assert(holds_row_of(reached, before[i]));
            }
        }
        assert forall|step: StepView| #[trigger] holds_row_of(tables, step) implies holds_row_of(
            after_steps(tables, steps),
            step,
        ) by {
            assert(holds_row_of(reached, step));
        }
    }
}

/// Steps that only add rows change nothing where the tables hold a row for
/// each of them.
pub proof fn lemma_rows_absorbed(tables: Tables, steps: Seq<StepView>)
    requires
        forall|i: int| 0 <= i < steps.len() ==> is_insert(#[trigger] steps[i]) && holds_row_of(
            tables,
            steps[i],
        ),
    ensures
        after_steps(tables, steps) == tables,
    decreases steps.len(),
{
    if steps.len() > 0 {
        let before = steps.drop_last();
        assert forall|i: int| 0 <= i < before.len() implies is_insert(#[trigger] before[i])
            && holds_row_of(tables, before[i]) by {
            assert(before[i] == steps[i]);
        }
        lemma_rows_absorbed(tables, before);
        assert(holds_row_of(tables, steps.last()));
    }
}

/// The tables after the steps of an export that does not give up: those
/// after the steps for the files, begun from the tables as they were, or
/// from tables without rows where the export empties them first.
pub proof fn lemma_export_effect(tables: Tables, data: Seq<AssignmentView>, truncate: bool)
    requires
        !gives_up(insert_steps(data)),
    ensures
        after_export(tables, export_plan(data, truncate)) == after_steps(
            if truncate {
                empty_tables()
            } else {
                tables
            },
            insert_steps(data),
        ),
{
    let opening = opening_steps(truncate);
    let inserts = insert_steps(data);
    let closing = closing_steps(inserts);
    let plan = export_plan(data, truncate);
    assert(closing == seq![StepView::Commit]);
    assert(plan.last() is Commit);
    lemma_steps_in_turn(tables, opening + inserts, closing);
    lemma_steps_in_turn(tables, opening, inserts);
    assert(after_steps(after_steps(tables, opening + inserts), closing) == after_steps(
        tables,
        opening + inserts,
    )) by {
        reveal_with_fuel(after_steps, 3);
        assert(closing.drop_last() == Seq::<StepView>::empty());
    }
    assert(after_steps(tables, opening) == if truncate {
        empty_tables()
    } else {
        tables
    }) by {
        reveal_with_fuel(after_steps, 4);
        let schema = schema_steps();
        assert(schema.drop_last() == seq![StepView::CreateFileTable]);
        assert(schema.drop_last().drop_last() == Seq::<StepView>::empty());
        assert(after_steps(tables, schema) == tables);
        if truncate {
            assert(opening.drop_last() == schema);
        }
    }
}

/// An export can be run again: exporting the same assignments a second
/// time leaves both tables as the first export left them, row for row, so
/// no row is added twice.
pub proof fn lemma_export_idempotent(tables: Tables, data: Seq<AssignmentView>, truncate: bool)
    ensures
        after_export(after_export(tables, export_plan(data, truncate)), export_plan(data, truncate))
            == after_export(tables, export_plan(data, truncate)),
{
    let plan = export_plan(data, truncate);
    let inserts = insert_steps(data);
    if gives_up(inserts) {
        assert(closing_steps(inserts) == Seq::<StepView>::empty());
        assert(plan == opening_steps(truncate) + inserts);
        assert(plan.last() == inserts.last());
    } else {
        let once = after_export(tables, plan);
        lemma_export_effect(tables, data, truncate);
        lemma_export_effect(once, data, truncate);
        if !truncate {
            lemma_inserts_only(data);
            lemma_rows_present(tables, inserts);
            lemma_rows_absorbed(once, inserts);
        }
    }
}

/// An export of no assignments adds no row: the relational sink runs the
/// steps for the tables and the commit and nothing between them, the
/// tabular sink writes the header record alone, and the columnar sink has
/// no rows.
pub proof fn lemma_empty_export(tables: Tables, truncate: bool)
    ensures
        export_plan(Seq::<AssignmentView>::empty(), truncate) == opening_steps(truncate).push(
            StepView::Commit,
        ),
        after_export(tables, export_plan(Seq::<AssignmentView>::empty(), false)) == tables,
        after_export(tables, export_plan(Seq::<AssignmentView>::empty(), true)) == empty_tables(),
        flat_rows(Seq::<AssignmentView>::empty()) == Seq::<RowView>::empty(),
        csv_records(flat_rows(Seq::<AssignmentView>::empty())) == seq![csv_columns()],
{
    let none = Seq::<AssignmentView>::empty();
    assert(insert_steps(none) == Seq::<StepView>::empty());
    assert(export_plan(none, truncate) =~= opening_steps(truncate).push(StepView::Commit));
    lemma_export_effect(tables, none, false);
    lemma_export_effect(tables, none, true);
    assert(csv_records(flat_rows(none)) =~= seq![csv_columns()]);
}

} // verus!
