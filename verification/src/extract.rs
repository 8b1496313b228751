//! Selecting the row of one address and turning it into named values.

use vstd::prelude::*;
use crate::format::{as_str, display_text};
use crate::model::{Failure, FeatureCollection, Field, FieldView, TableView, Value, ValueView};
use crate::text::same_text;

verus! {

/// The name of the column that holds the address of a row.
pub open spec fn address_key() -> Seq<char> {
    "CodeAdress"@
}

/// `i` is the first column named by the address key.
pub open spec fn is_address_column(fields: Seq<FieldView>, i: int) -> bool {
    &&& 0 <= i < fields.len()
    &&& fields[i].name == address_key()
    &&& forall|k: int| 0 <= k < i ==> (#[trigger] fields[k]).name != address_key()
}

/// The address column, where there is one.
pub open spec fn address_column(fields: Seq<FieldView>) -> Option<int> {
    if exists|i: int| is_address_column(fields, i) {
        Some(choose|i: int| is_address_column(fields, i))
    } else {
        None
    }
}

/// The cell is a text cell that holds exactly `address`.
pub open spec fn names_address(cell: ValueView, address: Seq<char>) -> bool {
    cell == ValueView::Text(address)
}

/// `r` is the first row whose cell in `column` names `address`.
pub open spec fn is_selected_row(
    rows: Seq<Seq<ValueView>>,
    column: int,
    address: Seq<char>,
    r: int,
) -> bool {
    &&& 0 <= r < rows.len()
    &&& names_address(rows[r][column], address)
    &&& forall|k: int| 0 <= k < r ==> !names_address((#[trigger] rows[k])[column], address)
}

/// The row selected by `address`, where there is one.
pub open spec fn selected_row(rows: Seq<Seq<ValueView>>, column: int, address: Seq<char>) -> Option<
    int,
> {
    if exists|r: int| is_selected_row(rows, column, address, r) {
        Some(choose|r: int| is_selected_row(rows, column, address, r))
    } else {
        None
    }
}

/// The display text of a cell, empty where the cell has no variant.
pub open spec fn cell_text(cell: ValueView) -> Seq<char> {
    match display_text(cell) {
        Some(s) => s,
        None => Seq::empty(),
    }
}

/// Every column paired with the display text of its cell.
pub open spec fn labelled(fields: Seq<FieldView>, row: Seq<ValueView>) -> Seq<
    (FieldView, Seq<char>),
> {
    Seq::new(row.len(), |i: int| (fields[i], cell_text(row[i])))
}

/// The pairs of a row that are kept: those whose text is not empty, in
/// column order.
pub open spec fn kept(fields: Seq<FieldView>, row: Seq<ValueView>) -> Seq<(FieldView, Seq<char>)> {
    labelled(fields, row).filter(|p: (FieldView, Seq<char>)| p.1.len() > 0)
}

/// The summary of one row; it fails where a cell has no variant.
pub open spec fn summarize_row(fields: Seq<FieldView>, row: Seq<ValueView>) -> Result<
    Seq<(FieldView, Seq<char>)>,
    Failure,
> {
    if exists|i: int| 0 <= i < row.len() && row[i] is Unset {
        Err(Failure::MalformedValue)
    } else {
        Ok(kept(fields, row))
    }
}

/// What extraction yields for a collection and an address.
pub open spec fn extract(collection: Option<TableView>, address: Seq<char>) -> Result<
    Seq<(FieldView, Seq<char>)>,
    Failure,
> {
    match collection {
        None => Err(Failure::NoQueryResult),
        Some(table) => match address_column(table.fields) {
            None => Err(Failure::AddressColumnMissing),
            Some(column) => match selected_row(table.rows, column, address) {
                None => Err(Failure::FeatureNotFound),
                Some(r) => summarize_row(table.fields, table.rows[r]),
            },
        },
    }
}

/// The model of a list of named values.
pub open spec fn pairs_view(pairs: Seq<(Field, String)>) -> Seq<(FieldView, Seq<char>)> {
    pairs.map_values(|p: (Field, String)| (p.0@, p.1@))
}

/// The model of an extraction's outcome.
pub open spec fn outcome_view(outcome: Result<Vec<(Field, String)>, Failure>) -> Result<
    Seq<(FieldView, Seq<char>)>,
    Failure,
> {
    match outcome {
        Ok(pairs) => Ok(pairs_view(pairs@)),
        Err(e) => Err(e),
    }
}

/// At most one column is the address column.
pub proof fn lemma_address_column_unique(fields: Seq<FieldView>, i: int, j: int)
    requires
        is_address_column(fields, i),
        is_address_column(fields, j),
    ensures
        i == j,
{
    if i < j {
        assert(fields[i].name != address_key());
    } else if j < i {
        assert(fields[j].name != address_key());
    }
}

/// At most one row is the selected row.
pub proof fn lemma_selected_row_unique(
    rows: Seq<Seq<ValueView>>,
    column: int,
    address: Seq<char>,
    r: int,
    s: int,
)
    requires
        is_selected_row(rows, column, address, r),
        is_selected_row(rows, column, address, s),
    ensures
        r == s,
{
    if r < s {
        assert(!names_address(rows[r][column], address));
    } else if s < r {
        assert(!names_address(rows[s][column], address));
    }
}

fn cell_names_address(cell: &Value, address: &str) -> (b: bool)
    ensures
        b == names_address(cell@, address@),
{
    match cell {
        Value::Text(s) => same_text(s.as_str(), address),
        _ => false,
    }
}

/// Extracts the named values of the row that `addr` selects.
///
/// The address column is the first column named `CodeAdress`; the row is the
/// first whose cell in that column is a text equal to `addr`. Each cell of
/// the row is formatted and paired with its column; pairs with an empty text
/// are dropped and the rest keep the column order.
pub fn summary_for_address(collection: FeatureCollection, addr: &str) -> (result: Result<
    Vec<(Field, String)>,
    Failure,
>)
    requires
        collection.well_formed(),
    ensures
        outcome_view(result) == extract(collection@, addr@),
{
    let table = match &collection.query_result {
        Some(q) => &q.feature_result,
        None => {
            return Err(Failure::NoQueryResult);
        },
    };
    let ghost fields = table@.fields;
    let ghost rows = table@.rows;

    let mut column: usize = 0;
    while column < table.fields.len() && !same_text(table.fields[column].name.as_str(), "CodeAdress")
        invariant
            column <= table.fields.len(),
            fields == table@.fields,
            forall|k: int| 0 <= k < column ==> (#[trigger] fields[k]).name != address_key(),
        decreases table.fields.len() - column,
    {
        column = column + 1;
    }
    if column == table.fields.len() {
        assert(!exists|i: int| is_address_column(fields, i));
        return Err(Failure::AddressColumnMissing);
    }
    proof {
        assert(is_address_column(fields, column as int));
        let chosen = choose|i: int| is_address_column(fields, i);
        lemma_address_column_unique(fields, chosen, column as int);
    }

    assert forall|k: int| 0 <= k < table.features.len() implies (
    #[trigger] table.features[k]).attributes.len() == table.fields.len() by {
        assert(rows[k].len() == fields.len());
    }
    let mut r: usize = 0;
    while r < table.features.len() && !cell_names_address(
        &table.features[r].attributes[column],
        addr,
    )
        invariant
            r <= table.features.len(),
            column < table.fields.len(),
            rows == table@.rows,
            forall|k: int|
                0 <= k < table.features.len() ==> (#[trigger] table.features[k]).attributes.len()
                    == table.fields.len(),
            forall|k: int| 0 <= k < r ==> !names_address((#[trigger] rows[k])[column as int], addr@),
        decreases table.features.len() - r,
    {
        r = r + 1;
    }
    if r == table.features.len() {
        assert(!exists|s: int| is_selected_row(rows, column as int, addr@, s));
        return Err(Failure::FeatureNotFound);
    }
    proof {
        assert(is_selected_row(rows, column as int, addr@, r as int));
        let chosen = choose|s: int| is_selected_row(rows, column as int, addr@, s);
        lemma_selected_row_unique(rows, column as int, addr@, chosen, r as int);
    }

    let cells = &table.features[r].attributes;
    let ghost row = rows[r as int];
    let mut pairs: Vec<(Field, String)> = Vec::new();
    let mut i: usize = 0;
    while i < cells.len()
        invariant
            i <= cells.len(),
            cells.len() == table.fields.len(),
            fields == table@.fields,
            row == cells@.map_values(|v: Value| v@),
            extract(collection@, addr@) == summarize_row(fields, row),
            forall|k: int| 0 <= k < i ==> !(#[trigger] row[k] is Unset),
            pairs_view(pairs@) == labelled(fields, row.take(i as int)).filter(
                |p: (FieldView, Seq<char>)| p.1.len() > 0,
            ),
        decreases cells.len() - i,
    {
        let text = match as_str(&cells[i]) {
            Ok(text) => text,
            Err(e) => {
                assert(row[i as int] is Unset);
                return Err(Failure::MalformedValue);
            },
        };
        proof {
            let keep = |p: (FieldView, Seq<char>)| p.1.len() > 0;
            let before = labelled(fields, row.take(i as int));
            let entry = (fields[i as int], cell_text(row[i as int]));
            assert(labelled(fields, row.take(i + 1)) =~= before.push(entry));
            before.lemma_filter_push(entry, keep);
        }
        if !text.as_str().is_empty() {
            let ghost before = pairs@;
            pairs.push((table.fields[i].duplicate(), text));
            assert(pairs_view(pairs@) =~= pairs_view(before).push((fields[i as int], text@)));
        }
        i = i + 1;
    }
    proof {
        assert(row.take(i as int) =~= row);
        assert(!exists|k: int| 0 <= k < row.len() && row[k] is Unset);
    }
    Ok(pairs)
}

/// Where some column is named by the address key, there is a first one.
pub proof fn lemma_address_column_exists(fields: Seq<FieldView>, c: int)
    requires
        0 <= c < fields.len(),
        fields[c].name == address_key(),
    ensures
        address_column(fields) matches Some(first) && is_address_column(fields, first) && first
            <= c,
    decreases c,
{
    if exists|k: int| 0 <= k < c && (#[trigger] fields[k]).name == address_key() {
        let k = choose|k: int| 0 <= k < c && (#[trigger] fields[k]).name == address_key();
        lemma_address_column_exists(fields, k);
    } else {
        assert(is_address_column(fields, c));
        lemma_address_column_unique(fields, c, choose|i: int| is_address_column(fields, i));
    }
}

/// Where some row names the address, there is a first one.
pub proof fn lemma_selected_row_exists(
    rows: Seq<Seq<ValueView>>,
    column: int,
    address: Seq<char>,
    m: int,
)
    requires
        0 <= m < rows.len(),
        names_address(rows[m][column], address),
    ensures
        selected_row(rows, column, address) matches Some(first) && is_selected_row(
            rows,
            column,
            address,
            first,
        ) && first <= m,
    decreases m,
{
    if exists|k: int| 0 <= k < m && names_address((#[trigger] rows[k])[column], address) {
        let k = choose|k: int| 0 <= k < m && names_address((#[trigger] rows[k])[column], address);
        lemma_selected_row_exists(rows, column, address, k);
    } else {
        assert(is_selected_row(rows, column, address, m));
        lemma_selected_row_unique(
            rows,
            column,
            address,
            m,
            choose|r: int| is_selected_row(rows, column, address, r),
        );
    }
}

/// The columns of `row` whose cell has a display text that is not empty,
/// in ascending order.
pub open spec fn filled_columns(row: Seq<ValueView>) -> Seq<int>
    decreases row.len(),
{
    if row.len() == 0 {
        Seq::empty()
    } else {
        let before = filled_columns(row.drop_last());
        if cell_text(row.last()).len() > 0 {
            before.push(row.len() - 1)
        } else {
            before
        }
    }
}

/// `filled_columns` lists exactly the columns with a non-empty text, each
/// once, in ascending order.
pub proof fn lemma_filled_columns(row: Seq<ValueView>)
    ensures
        forall|k: int|
            0 <= k < filled_columns(row).len() ==> 0 <= #[trigger] filled_columns(row)[k]
                < row.len() && cell_text(row[filled_columns(row)[k]]).len() > 0,
        forall|j: int, k: int|
            0 <= j < k < filled_columns(row).len() ==> filled_columns(row)[j] < filled_columns(
                row,
            )[k],
        forall|c: int|
            0 <= c < row.len() && cell_text(#[trigger] row[c]).len() > 0 ==> filled_columns(
                row,
            ).contains(c),
    decreases row.len(),
{
    if row.len() > 0 {
        let shorter = row.drop_last();
        lemma_filled_columns(shorter);
        let before = filled_columns(shorter);
        let all = filled_columns(row);
        assert forall|k: int| 0 <= k < all.len() implies 0 <= #[trigger] all[k] < row.len()
            && cell_text(row[all[k]]).len() > 0 by {
            if k < before.len() {
                assert(all[k] == before[k]);
                assert(row[all[k]] == shorter[before[k]]);
            }
        }
        assert forall|j: int, k: int| 0 <= j < k < all.len() implies all[j] < all[k] by {
            assert(all[j] == before[j]);
            if k < before.len() {
                assert(all[k] == before[k]);
            }
        }
        assert forall|c: int| 0 <= c < row.len() && cell_text(#[trigger] row[c]).len()
            > 0 implies all.contains(c) by {
            if c < row.len() - 1 {
                assert(shorter[c] == row[c]);
                assert(before.contains(c));
                let k = choose|k: int| 0 <= k < before.len() && before[k] == c;
                assert(all[k] == c);
            } else {
                assert(all[all.len() - 1] == c);
            }
        }
    }
}

/// The kept pairs of a row are the pairs of its filled columns, in that
/// order.
pub proof fn lemma_kept_by_column(fields: Seq<FieldView>, row: Seq<ValueView>)
    ensures
        kept(fields, row).len() == filled_columns(row).len(),
        forall|k: int|
            0 <= k < filled_columns(row).len() ==> #[trigger] kept(fields, row)[k] == (
                fields[filled_columns(row)[k]],
                cell_text(row[filled_columns(row)[k]]),
            ),
    decreases row.len(),
{
    let keep = |p: (FieldView, Seq<char>)| p.1.len() > 0;
    if row.len() == 0 {
        assert(labelled(fields, row) =~= Seq::empty());
        reveal(Seq::filter);
    } else {
        let shorter = row.drop_last();
        let last = row.len() - 1;
        lemma_kept_by_column(fields, shorter);
        lemma_filled_columns(shorter);
        let entry = (fields[last], cell_text(row[last]));
        assert(labelled(fields, row) =~= labelled(fields, shorter).push(entry));
        labelled(fields, shorter).lemma_filter_push(entry, keep);
        let before = filled_columns(shorter);
        assert forall|k: int| 0 <= k < filled_columns(row).len() implies #[trigger] kept(
            fields,
            row,
        )[k] == (fields[filled_columns(row)[k]], cell_text(row[filled_columns(row)[k]])) by {
            if k < before.len() {
                assert(kept(fields, row)[k] == kept(fields, shorter)[k]);
                assert(row[before[k]] == shorter[before[k]]);
            }
        }
    }
}

/// On an aligned table with a column named by the address key and a row
/// that names the address, whose cells all have a variant, extraction
/// succeeds on the first such row. It yields one pair per cell of that row
/// with a non-empty text, so as many pairs as there are such cells, and the
/// pairs stand in column order.
pub proof fn lemma_extract_keeps_filled_cells_in_order(
    table: TableView,
    address: Seq<char>,
    c: int,
    m: int,
)
    requires
        table.aligned(),
        0 <= c < table.fields.len(),
        table.fields[c].name == address_key(),
        0 <= m < table.rows.len(),
        names_address(table.rows[m][address_column(table.fields).unwrap()], address),
        forall|r: int, i: int|
            0 <= r < table.rows.len() && 0 <= i < table.rows[r].len() ==> !(
            #[trigger] table.rows[r][i] is Unset),
    ensures
        address_column(table.fields) is Some,
        selected_row(table.rows, address_column(table.fields).unwrap(), address) is Some,
        extract(Some(table), address) is Ok,
        ({
            let row = table.rows[selected_row(
                table.rows,
                address_column(table.fields).unwrap(),
                address,
            ).unwrap()];
            let columns = filled_columns(row);
            let pairs = extract(Some(table), address).unwrap();
            &&& pairs.len() == columns.len()
            &&& forall|k: int|
                0 <= k < pairs.len() ==> #[trigger] pairs[k] == (
                    table.fields[columns[k]],
                    cell_text(row[columns[k]]),
                )
            &&& forall|j: int, k: int| 0 <= j < k < columns.len() ==> columns[j] < columns[k]
            &&& forall|k: int|
                0 <= k < columns.len() ==> 0 <= #[trigger] columns[k] < row.len() && cell_text(
                    row[columns[k]],
                ).len() > 0
            &&& forall|i: int|
                0 <= i < row.len() && cell_text(#[trigger] row[i]).len() > 0 ==> columns.contains(i)
        }),
{
    lemma_address_column_exists(table.fields, c);
    let column = address_column(table.fields).unwrap();
    lemma_selected_row_exists(table.rows, column, address, m);
    let r = selected_row(table.rows, column, address).unwrap();
    let row = table.rows[r];
    lemma_filled_columns(row);
    lemma_kept_by_column(table.fields, row);
}

/// Extraction depends on the content of its inputs only: two collections
/// with the same view and two addresses with the same characters give
/// outcomes with the same view, however the inputs were built.
pub proof fn lemma_extract_repeatable(
    first: FeatureCollection,
    second: FeatureCollection,
    first_address: &str,
    second_address: &str,
    first_outcome: Result<Vec<(Field, String)>, Failure>,
    second_outcome: Result<Vec<(Field, String)>, Failure>,
)
    requires
        first@ == second@,
        first_address@ == second_address@,
        outcome_view(first_outcome) == extract(first@, first_address@),
        outcome_view(second_outcome) == extract(second@, second_address@),
    ensures
        outcome_view(first_outcome) == outcome_view(second_outcome),
{
}

} // verus!
