//! The entity folding algorithm: turns the flat ordered rows of the left
//! outer join from todos through the join relation to labels into one todo
//! entity per distinct todo id, in first-seen order, each carrying its
//! accumulated label list in row order.

use vstd::prelude::*;
use crate::domain::{
    Label, LabelView, RowView, TodoEntity, TodoWithLabelFromRow, position_of_todo, row_views,
};

verus! {

/// The distinct todo ids of `rows`, in order of first appearance.
pub open spec fn first_seen_ids(rows: Seq<RowView>) -> Seq<int>
    decreases rows.len(),
{
    if rows.len() == 0 {
        Seq::empty()
    } else {
        let prefix = first_seen_ids(rows.drop_last());
        if prefix.contains(rows.last().id) {
            prefix
        } else {
            prefix.push(rows.last().id)
        }
    }
}

/// The labels carried by the rows of one todo id, in row order; a row
/// without label columns contributes nothing.
pub open spec fn labels_for(rows: Seq<RowView>, id: int) -> Seq<LabelView>
    decreases rows.len(),
{
    if rows.len() == 0 {
        Seq::empty()
    } else {
        let prefix = labels_for(rows.drop_last(), id);
        if rows.last().id == id {
            match rows.last().label() {
                Some(l) => prefix.push(l),
                None => prefix,
            }
        } else {
            prefix
        }
    }
}

/// The first row that carries the given todo id; meaningful only when some
/// row does.
pub open spec fn first_row_for(rows: Seq<RowView>, id: int) -> RowView
    decreases rows.len(),
{
    if rows.len() == 0 {
        arbitrary()
    } else if first_seen_ids(rows.drop_last()).contains(id) {
        first_row_for(rows.drop_last(), id)
    } else {
        rows.last()
    }
}

/// How the three folding spec functions evolve when one row is appended.
proof fn lemma_push_unfold(s: Seq<RowView>, x: RowView)
    ensures
        first_seen_ids(s.push(x)) == (if first_seen_ids(s).contains(x.id) {
            first_seen_ids(s)
        } else {
            first_seen_ids(s).push(x.id)
        }),
        forall|id: int|
            #[trigger] labels_for(s.push(x), id) == (if x.id == id {
                match x.label() {
                    Some(l) => labels_for(s, id).push(l),
                    None => labels_for(s, id),
                }
            } else {
                labels_for(s, id)
            }),
        forall|id: int|
            first_seen_ids(s).contains(id) ==> #[trigger] first_row_for(s.push(x), id)
                == first_row_for(s, id),
        !first_seen_ids(s).contains(x.id) ==> first_row_for(s.push(x), x.id) == x,
{
    let s1 = s.push(x);
    assert(s1.drop_last() =~= s);
    assert(s1.last() == x);
}

/// A todo id that never appeared accumulates no labels.
proof fn lemma_absent_no_labels(rows: Seq<RowView>, id: int)
    requires
        !first_seen_ids(rows).contains(id),
    ensures
        labels_for(rows, id) == Seq::<LabelView>::empty(),
    decreases rows.len(),
{
    broadcast use vstd::seq_lib::lemma_seq_contains_after_push;

    if rows.len() > 0 {
        let prefix = rows.drop_last();
        let prefix_ids = first_seen_ids(prefix);
        assert(!prefix_ids.contains(id) && rows.last().id != id) by {
            if prefix_ids.contains(id) {
                let w = choose|w: int| 0 <= w < prefix_ids.len() && prefix_ids[w] == id;
                assert(first_seen_ids(rows)[w] == id);
            }
            if rows.last().id == id && !prefix_ids.contains(id) {
                assert(first_seen_ids(rows).last() == id);
            }
        }
        lemma_absent_no_labels(prefix, id);
    }
}

/// Folding yields no entities exactly when there were no rows.
pub proof fn lemma_first_seen_empty(rows: Seq<RowView>)
    ensures
        (first_seen_ids(rows).len() == 0) <==> (rows.len() == 0),
    decreases rows.len(),
{
    if rows.len() > 0 {
        lemma_first_seen_empty(rows.drop_last());
    }
}

/// The first folded entity belongs to the first row.
pub proof fn lemma_first_seen_first(rows: Seq<RowView>)
    requires
        rows.len() > 0,
    ensures
        first_seen_ids(rows).len() > 0,
        first_seen_ids(rows)[0] == rows[0].id,
    decreases rows.len(),
{
    if rows.len() == 1 {
        assert(first_seen_ids(rows.drop_last()).len() == 0);
    } else {
        lemma_first_seen_first(rows.drop_last());
        assert(rows.drop_last()[0] == rows[0]);
        lemma_first_seen_empty(rows.drop_last());
    }
}

/// Every element of a folded label list came from a row of that todo id.
proof fn lemma_labels_provenance(rows: Seq<RowView>, id: int, m: int)
    requires
        0 <= m < labels_for(rows, id).len(),
    ensures
        exists|k: int|
            0 <= k < rows.len() && (#[trigger] rows[k]).id == id && rows[k].label() == Some(
                labels_for(rows, id)[m],
            ),
    decreases rows.len(),
{
    let prefix = rows.drop_last();
    let pls = labels_for(prefix, id);
    if rows.last().id == id && rows.last().label() is Some && m == pls.len() {
        assert(rows[rows.len() - 1] == rows.last());
        assert(labels_for(rows, id)[m] == rows.last().label().unwrap());
    } else {
        assert(labels_for(rows, id)[m] == pls[m]);
        lemma_labels_provenance(prefix, id, m);
        let k = choose|k: int|
            0 <= k < prefix.len() && (#[trigger] prefix[k]).id == id && prefix[k].label() == Some(
                pls[m],
            );
        assert(rows[k] == prefix[k]);
    }
}

/// When no association repeats -- no two rows carry the same todo id and the
/// same label pair -- no folded label list repeats a label.
pub proof fn lemma_no_duplicate_labels(rows: Seq<RowView>, id: int)
    requires
        forall|i: int, j: int|
            0 <= i < j < rows.len() && (#[trigger] rows[i]).id == (#[trigger] rows[j]).id
                && rows[i].label() is Some ==> rows[i].label() != rows[j].label(),
    ensures
        forall|a: int, b: int|
            0 <= a < b < labels_for(rows, id).len() ==> labels_for(rows, id)[a] != labels_for(
                rows,
                id,
            )[b],
    decreases rows.len(),
{
    if rows.len() > 0 {
        let prefix = rows.drop_last();
        assert forall|i: int, j: int|
            0 <= i < j < prefix.len() && (#[trigger] prefix[i]).id == (#[trigger] prefix[j]).id
                && prefix[i].label() is Some implies prefix[i].label() != prefix[j].label() by {
            assert(prefix[i] == rows[i]);
            assert(prefix[j] == rows[j]);
        }
        lemma_no_duplicate_labels(prefix, id);
        let ls = labels_for(rows, id);
        let pls = labels_for(prefix, id);
        assert forall|a: int, b: int| 0 <= a < b < ls.len() implies ls[a] != ls[b] by {
            if b < pls.len() {
                assert(ls[a] == pls[a] && ls[b] == pls[b]);
            } else {
                assert(rows.last().id == id && rows.last().label() is Some);
                assert(ls[b] == rows.last().label().unwrap());
                assert(ls[a] == pls[a]);
                if ls[a] == ls[b] {
                    lemma_labels_provenance(prefix, id, a);
                    let k = choose|k: int|
                        0 <= k < prefix.len() && (#[trigger] prefix[k]).id == id && prefix[
                            k
                        ].label() == Some(pls[a]);
                    assert(rows[k] == prefix[k]);
                    assert(rows[rows.len() - 1] == rows.last());
                    assert(rows[k].label() != rows[rows.len() - 1].label());
                }
            }
        }
    }
}

/// Folds the flat joined rows into entities: one per distinct todo id in
/// first-seen order, each with the todo columns of its first row and the
/// label list accumulated from all its rows, in row order. A pair of rows
/// carrying the same todo id need not be adjacent.
pub fn fold_entities(rows: Vec<TodoWithLabelFromRow>) -> (r: Vec<TodoEntity>)
    ensures
        r@.len() == first_seen_ids(row_views(rows@)).len(),
        forall|i: int, j: int|
            0 <= i < j < r@.len() ==> (#[trigger] r@[i])@.id != (#[trigger] r@[j])@.id,
        forall|i: int|
            0 <= i < r@.len() ==> (#[trigger] r@[i])@.id == first_seen_ids(row_views(rows@))[i],
        forall|i: int|
            0 <= i < r@.len() ==> (#[trigger] r@[i])@.labels == labels_for(
                row_views(rows@),
                r@[i]@.id,
            ),
        forall|i: int|
            0 <= i < r@.len() ==> (#[trigger] r@[i])@.text == first_row_for(
                row_views(rows@),
                r@[i]@.id,
            ).text,
        forall|i: int|
            0 <= i < r@.len() ==> (#[trigger] r@[i])@.completed == first_row_for(
                row_views(rows@),
                r@[i]@.id,
            ).completed,
{
    broadcast use vstd::seq_lib::lemma_seq_contains_after_push;

    let ghost rv = row_views(rows@);
    let mut accum: Vec<TodoEntity> = Vec::new();
    let n = rows.len();
    assert(rv.take(0) =~= Seq::<RowView>::empty());
    for idx in 0..n
        invariant
            n == rows@.len(),
            rv == row_views(rows@),
            accum@.len() == first_seen_ids(rv.take(idx as int)).len(),
            forall|i: int|
                0 <= i < accum@.len() ==> (#[trigger] accum@[i])@.id == first_seen_ids(
                    rv.take(idx as int),
                )[i],
            forall|i: int|
                0 <= i < accum@.len() ==> (#[trigger] accum@[i])@.labels == labels_for(
                    rv.take(idx as int),
                    accum@[i]@.id,
                ),
            forall|i: int|
                0 <= i < accum@.len() ==> (#[trigger] accum@[i])@.text == first_row_for(
                    rv.take(idx as int),
                    accum@[i]@.id,
                ).text,
            forall|i: int|
                0 <= i < accum@.len() ==> (#[trigger] accum@[i])@.completed == first_row_for(
                    rv.take(idx as int),
                    accum@[i]@.id,
                ).completed,
            forall|i: int, j: int|
                0 <= i < j < accum@.len() ==> (#[trigger] accum@[i])@.id != (
                #[trigger] accum@[j])@.id,
    {
        let row = &rows[idx];
        let ghost seen = rv.take(idx as int);
        let ghost x = rv[idx as int];
        proof {
            assert(x == rows@[idx as int]@);
            rv.lemma_take_succ_push(idx as int);
            assert(rv.take(idx as int + 1) == seen.push(x));
            lemma_push_unfold(seen, x);
        }
        let label = row.label();
        match position_of_todo(&accum, row.id) {
            Some(pos) => {
                proof {
                    assert(accum@[pos as int]@.id == x.id);
                    assert(first_seen_ids(seen)[pos as int] == x.id);
                    assert(first_seen_ids(seen).contains(x.id));
                }
                let ghost before = accum@;
                if let Some(l) = label {
                    let mut todo = accum.remove(pos);
                    let ghost todo_before = todo;
                    todo.labels.push(l);
                    proof {
                        assert(todo@.labels =~= todo_before@.labels.push(l@)) by {
                            broadcast use vstd::prelude::Seq::lemma_push_map_commute;

                        }
                        assert(todo@.id == todo_before@.id);
                    }
                    accum.insert(pos, todo);
                    proof {
                        assert(accum@ =~= before.update(pos as int, accum@[pos as int]));
                    }
                }
            },
            None => {
                proof {
                    assert forall|m: int|
                        0 <= m < first_seen_ids(seen).len() implies first_seen_ids(seen)[m]
                        != x.id by {
                        assert(accum@[m]@.id == first_seen_ids(seen)[m]);
                    }
                    assert(!first_seen_ids(seen).contains(x.id));
                    lemma_absent_no_labels(seen, x.id);
                }
                let labels: Vec<Label> = match label {
                    Some(l) => {
                        let mut ls = Vec::new();
                        ls.push(l);
                        ls
                    },
                    None => Vec::new(),
                };
                proof {
                    match x.label() {
                        Some(lv) => {
                            assert(labels@.map_values(|l: Label| l@) =~= Seq::<
                                LabelView,
                            >::empty().push(lv));
                        },
                        None => {
                            assert(labels@.map_values(|l: Label| l@) =~= Seq::<
                                LabelView,
                            >::empty());
                        },
                    }
                }
                let todo = TodoEntity {
                    id: row.id,
                    text: row.text.clone(),
                    completed: row.completed,
                    labels,
                };
                accum.push(todo);
            },
        }
    }
    proof {
        assert(rv.take(n as int) == rv) by {
            assert(rv.take(n as int) =~= rv);
        }
    }
    accum
}

} // verus!
