use vstd::prelude::*;
use crate::category::ExpenseCategory;
use crate::clock::is_rfc3339;
use crate::expense::{
    ListView, add_spec, remove_spec, wf, has_id, ids_unique, ids_bounded, dates_ok, without_id,
    lemma_without_id_absent, lemma_without_id_keeps, lemma_without_id_present,
};

verus! {

/// One call against the list: an `add` with its arguments and the
/// timestamp the clock gave, or a `remove` with its id.
pub ghost enum Op {
    Add(ExpenseCategory, u32, Seq<char>, Seq<char>),
    Remove(u32),
}

pub open spec fn apply_op(l: ListView, op: Op) -> ListView {
    match op {
        Op::Add(category, amount, description, date) => add_spec(
            l,
            category,
            amount,
            description,
            date,
        ),
        Op::Remove(id) => remove_spec(l, id),
    }
}

/// The list after a whole run of calls.
pub open spec fn apply_ops(l: ListView, ops: Seq<Op>) -> ListView
    decreases ops.len(),
{
    if ops.len() == 0 {
        l
    } else {
        apply_ops(apply_op(l, ops[0]), ops.skip(1))
    }
}

pub open spec fn count_adds(ops: Seq<Op>) -> int
    decreases ops.len(),
{
    if ops.len() == 0 {
        0
    } else {
        (if ops[0] is Add {
            1int
        } else {
            0int
        }) + count_adds(ops.skip(1))
    }
}

/// How many removes in the run actually took a record out.
pub open spec fn count_successful_removes(l: ListView, ops: Seq<Op>) -> int
    decreases ops.len(),
{
    if ops.len() == 0 {
        0
    } else {
        let l2 = apply_op(l, ops[0]);
        (if ops[0] is Remove && l2.expenses.len() < l.expenses.len() {
            1int
        } else {
            0int
        }) + count_successful_removes(l2, ops.skip(1))
    }
}

/// Every timestamp an `add` in the run carries is RFC 3339 text, as the
/// clock always hands one out.
pub open spec fn ops_dates_ok(ops: Seq<Op>) -> bool {
    forall|i: int|
        0 <= i < ops.len() ==> (#[trigger] ops[i] matches Op::Add(_, _, _, date) ==> is_rfc3339(
            date,
        ))
}

/// Appending a record under the next id keeps the list well formed.
pub proof fn lemma_add_spec_wf(
    l: ListView,
    category: ExpenseCategory,
    amount: u32,
    description: Seq<char>,
    date: Seq<char>,
)
    requires
        wf(l),
        l.current_id < u32::MAX,
        is_rfc3339(date),
    ensures
        wf(add_spec(l, category, amount, description, date)),
        add_spec(l, category, amount, description, date).current_id == l.current_id + 1,
        add_spec(l, category, amount, description, date).expenses.len() == l.expenses.len() + 1,
{
    let l2 = add_spec(l, category, amount, description, date);
    let s = l2.expenses;
    assert(forall|i: int| 0 <= i < s.len() - 1 ==> s[i] == l.expenses[i]);
    assert(ids_unique(s)) by {
        assert(forall|i: int| 0 <= i < s.len() - 1 ==> #[trigger] s[i].id <= l.current_id);
    }
}

/// Taking an id out keeps the list well formed and never grows it.
pub proof fn lemma_remove_spec_wf(l: ListView, id: u32)
    requires
        wf(l),
    ensures
        wf(remove_spec(l, id)),
        remove_spec(l, id).current_id == l.current_id,
        remove_spec(l, id).expenses.len() <= l.expenses.len(),
        has_id(l.expenses, id) && id <= l.current_id ==> remove_spec(l, id).expenses.len()
            == l.expenses.len() - 1,
        !has_id(l.expenses, id) ==> remove_spec(l, id) == l,
{
    lemma_without_id_keeps(l.expenses, id, l.current_id);
    if !has_id(l.expenses, id) {
        lemma_without_id_absent(l.expenses, id);
    } else if id <= l.current_id {
        lemma_without_id_present(l.expenses, id);
    }
}

/// Over any run of calls on a well-formed list: the list stays well
/// formed, the counter climbs by exactly the number of adds, and the
/// record count is the old count plus the adds minus the removes that
/// took a record out.
pub proof fn lemma_trace(l: ListView, ops: Seq<Op>)
    requires
        wf(l),
        l.current_id + count_adds(ops) <= u32::MAX,
        ops_dates_ok(ops),
    ensures
        wf(apply_ops(l, ops)),
        apply_ops(l, ops).current_id == l.current_id + count_adds(ops),
        apply_ops(l, ops).expenses.len() == l.expenses.len() + count_adds(ops)
            - count_successful_removes(l, ops),
    decreases ops.len(),
{
    if ops.len() > 0 {
        let l2 = apply_op(l, ops[0]);
        lemma_count_adds_nonneg(ops.skip(1));
        match ops[0] {
            Op::Add(category, amount, description, date) => {
                assert(is_rfc3339(date));
                lemma_add_spec_wf(l, category, amount, description, date);
            },
            Op::Remove(id) => {
                lemma_remove_spec_wf(l, id);
            },
        }
        assert(forall|i: int| 0 <= i < ops.skip(1).len() ==> ops.skip(1)[i] == ops[i + 1]);
        lemma_trace(l2, ops.skip(1));
    }
}

pub proof fn lemma_count_adds_nonneg(ops: Seq<Op>)
    ensures
        0 <= count_adds(ops) <= ops.len(),
    decreases ops.len(),
{
    if ops.len() > 0 {
        lemma_count_adds_nonneg(ops.skip(1));
    }
}

/// Ids assigned by successive adds climb by exactly one, whatever removes
/// stand between them: after an add that assigned some id, a run of
/// removes, and another add, the second id is the first plus one.
pub proof fn lemma_ids_increase_by_one(
    l: ListView,
    first: Op,
    removes: Seq<Op>,
    second: Op,
)
    requires
        wf(l),
        l.current_id + 2 <= u32::MAX,
        first matches Op::Add(_, _, _, date) && is_rfc3339(date),
        second is Add,
        forall|i: int| 0 <= i < removes.len() ==> #[trigger] removes[i] is Remove,
    ensures
        apply_op(apply_ops(apply_op(l, first), removes), second).expenses.last().id == apply_op(
            l,
            first,
        ).expenses.last().id + 1,
{
    match first {
        Op::Add(category, amount, description, date) => {
            lemma_add_spec_wf(l, category, amount, description, date);
        },
        Op::Remove(_) => {},
    }
    let l1 = apply_op(l, first);
    assert(l1.expenses.last().id == l.current_id + 1);
    lemma_count_adds_zero(removes);
    lemma_trace(l1, removes);
    let l2 = apply_ops(l1, removes);
    assert(l2.current_id == l.current_id + 1);
    match second {
        Op::Add(category, amount, description, date) => {
            assert(apply_op(l2, second).expenses.last().id == l.current_id + 2);
        },
        Op::Remove(_) => {},
    }
}

pub proof fn lemma_count_adds_zero(ops: Seq<Op>)
    requires
        forall|i: int| 0 <= i < ops.len() ==> #[trigger] ops[i] is Remove,
    ensures
        count_adds(ops) == 0,
        ops_dates_ok(ops),
    decreases ops.len(),
{
    if ops.len() > 0 {
        assert(forall|i: int| 0 <= i < ops.skip(1).len() ==> ops.skip(1)[i] == ops[i + 1]);
        lemma_count_adds_zero(ops.skip(1));
    }
}

/// Removing a currently present id takes out exactly one record.
pub proof fn lemma_remove_present_decrements(l: ListView, id: u32)
    requires
        wf(l),
        has_id(l.expenses, id),
    ensures
        remove_spec(l, id).expenses.len() == l.expenses.len() - 1,
{
    let t = choose|t: int| 0 <= t < l.expenses.len() && l.expenses[t].id == id;
    assert(l.expenses[t].id <= l.current_id);
    lemma_without_id_present(l.expenses, id);
}

} // verus!
