use vstd::prelude::*;
use vstd::string::*;
use crate::category::{ExpenseCategory, cat_label};
use crate::clock::{is_rfc3339, clock_display_of, now_rfc3339, fallback_rfc3339, check_rfc3339, format_clock};
use crate::numbers::dec_chars;
use crate::text::str_to_chars;
use crate::text::chars_to_string;

verus! {

/// What one record holds, as mathematics.
pub ghost struct ExpenseView {
    pub id: u32,
    pub amount: u32,
    pub category: ExpenseCategory,
    pub description: Seq<char>,
    pub date: Seq<char>,
}

/// What a whole list holds, as mathematics.
pub ghost struct ListView {
    pub expenses: Seq<ExpenseView>,
    pub current_id: u32,
}

/// One recorded spending event. `date` is the RFC 3339 text captured when
/// the record was made.
#[derive(Debug)]
pub struct Expense {
    pub id: u32,
    pub amount: u32,
    pub category: ExpenseCategory,
    pub description: String,
    pub date: String,
}

impl View for Expense {
    type V = ExpenseView;

    open spec fn view(&self) -> ExpenseView {
        ExpenseView {
            id: self.id,
            amount: self.amount,
            category: self.category,
            description: self.description@,
            date: self.date@,
        }
    }
}

pub open spec fn views_of(s: Seq<Expense>) -> Seq<ExpenseView> {
    s.map_values(|e: Expense| e@)
}

/// The records with a monotonic id counter; ids are assigned by the list
/// and never reused.
#[derive(Debug)]
pub struct ExpenseList {
    pub expenses: Vec<Expense>,
    pub current_id: u32,
}

impl View for ExpenseList {
    type V = ListView;

    open spec fn view(&self) -> ListView {
        ListView { expenses: views_of(self.expenses@), current_id: self.current_id }
    }
}

/// The sum of the amounts of all records.
pub open spec fn total_amount(s: Seq<ExpenseView>) -> int
    decreases s.len(),
{
    if s.len() == 0 {
        0
    } else {
        total_amount(s.drop_last()) + s.last().amount
    }
}

pub open spec fn ids_unique(s: Seq<ExpenseView>) -> bool {
    forall|i: int, j: int| 0 <= i < j < s.len() ==> s[i].id != s[j].id
}

pub open spec fn ids_bounded(s: Seq<ExpenseView>, bound: u32) -> bool {
    forall|i: int| 0 <= i < s.len() ==> 1 <= #[trigger] s[i].id <= bound
}

pub open spec fn dates_ok(s: Seq<ExpenseView>) -> bool {
    forall|i: int| 0 <= i < s.len() ==> is_rfc3339(#[trigger] s[i].date)
}

/// Every id is unique, no id outruns the counter, and every record's
/// timestamp is RFC 3339 text.
pub open spec fn wf(l: ListView) -> bool {
    ids_unique(l.expenses) && ids_bounded(l.expenses, l.current_id) && dates_ok(l.expenses)
}

pub open spec fn has_id(s: Seq<ExpenseView>, id: u32) -> bool {
    exists|i: int| 0 <= i < s.len() && s[i].id == id
}

/// The records with the matching id taken out, order kept.
pub open spec fn without_id(s: Seq<ExpenseView>, id: u32) -> Seq<ExpenseView>
    decreases s.len(),
{
    if s.len() == 0 {
        Seq::empty()
    } else if s.last().id == id {
        without_id(s.drop_last(), id)
    } else {
        without_id(s.drop_last(), id).push(s.last())
    }
}

/// What one `add` does to the list: the counter moves up by one and a
/// record carrying the fresh id is appended.
pub open spec fn add_spec(
    l: ListView,
    category: ExpenseCategory,
    amount: u32,
    description: Seq<char>,
    date: Seq<char>,
) -> ListView
    recommends
        l.current_id < u32::MAX,
{
    ListView {
        current_id: (l.current_id + 1) as u32,
        expenses: l.expenses.push(
            ExpenseView {
                id: (l.current_id + 1) as u32,
                amount,
                category,
                description,
                date,
            },
        ),
    }
}

/// What one `remove` does to the list: nothing when the id outruns the
/// counter, else every record with that id leaves.
pub open spec fn remove_spec(l: ListView, id: u32) -> ListView {
    if id > l.current_id {
        l
    } else {
        ListView { expenses: without_id(l.expenses, id), current_id: l.current_id }
    }
}

pub proof fn lemma_without_id_absent(s: Seq<ExpenseView>, id: u32)
    requires
        !has_id(s, id),
    ensures
        without_id(s, id) == s,
    decreases s.len(),
{
    if s.len() > 0 {
        assert(forall|i: int| 0 <= i < s.len() - 1 ==> s.drop_last()[i] == s[i]);
        assert(!has_id(s.drop_last(), id));
        lemma_without_id_absent(s.drop_last(), id);
        assert(s[s.len() - 1].id != id);
        assert(s.drop_last().push(s.last()) =~= s);
    }
}

/// Taking an id out keeps uniqueness, bounds, dates, and never holds the
/// taken id nor any id the records did not hold.
pub proof fn lemma_without_id_keeps(s: Seq<ExpenseView>, id: u32, bound: u32)
    ensures
        without_id(s, id).len() <= s.len(),
        ids_unique(s) ==> ids_unique(without_id(s, id)),
        ids_bounded(s, bound) ==> ids_bounded(without_id(s, id), bound),
        dates_ok(s) ==> dates_ok(without_id(s, id)),
        forall|x: u32| !has_id(s, x) ==> !has_id(without_id(s, id), x),
    decreases s.len(),
{
    if s.len() > 0 {
        let d = s.drop_last();
        assert(forall|i: int| 0 <= i < d.len() ==> d[i] == s[i]);
        lemma_without_id_keeps(d, id, bound);
        let w = without_id(d, id);
        assert forall|x: u32| !has_id(s, x) implies !has_id(without_id(s, id), x) by {
            assert(!has_id(d, x));
        }
        if s.last().id != id {
            if ids_unique(s) {
                assert(ids_unique(d));
                assert forall|i: int, j: int|
                    0 <= i < j < w.push(s.last()).len() implies w.push(s.last())[i].id != w.push(
                    s.last(),
                )[j].id by {
                    if j == w.len() {
                        assert(!has_id(d, s.last().id)) by {
                            if has_id(d, s.last().id) {
                                let t = choose|t: int|
                                    0 <= t < d.len() && d[t].id == s.last().id;
                                assert(s[t].id == s[s.len() - 1].id);
                            }
                        }
                        assert(!has_id(w, s.last().id));
                        if w.push(s.last())[i].id == s.last().id {
                            assert(w[i].id == s.last().id);
                        }
                    }
                }
            }
        }
    }
}

/// Taking out an id that one record holds, when ids are unique, takes out
/// exactly that one record.
pub proof fn lemma_without_id_present(s: Seq<ExpenseView>, id: u32)
    requires
        ids_unique(s),
        has_id(s, id),
    ensures
        without_id(s, id).len() == s.len() - 1,
    decreases s.len(),
{
    let d = s.drop_last();
    assert(forall|i: int| 0 <= i < d.len() ==> d[i] == s[i]);
    if s.last().id == id {
        assert(!has_id(d, id)) by {
            if has_id(d, id) {
                let t = choose|t: int| 0 <= t < d.len() && d[t].id == id;
                assert(s[t].id == s[s.len() - 1].id);
            }
        }
        lemma_without_id_absent(d, id);
    } else {
        let t = choose|t: int| 0 <= t < s.len() && s[t].id == id;
        assert(t < s.len() - 1);
        assert(d[t].id == id);
        assert(ids_unique(d));
        lemma_without_id_present(d, id);
    }
}

impl ExpenseList {
    /// A fresh, empty list whose counter starts at zero.
    pub fn new() -> (r: ExpenseList)
        ensures
            r@.expenses == Seq::<ExpenseView>::empty(),
            r@.current_id == 0,
            wf(r@),
    {
        let r = ExpenseList { expenses: Vec::new(), current_id: 0 };
        proof {
            assert(r@.expenses =~= Seq::<ExpenseView>::empty());
        }
        r
    }

    /// A list restored from records and a counter read back from storage.
    pub fn from_parts(expenses: Vec<Expense>, current_id: u32) -> (r: ExpenseList)
        ensures
            r@.expenses == views_of(expenses@),
            r@.current_id == current_id,
    {
        ExpenseList { expenses, current_id }
    }

    /// Appends a new record under the next id and hands that id back.
    pub fn add(&mut self, category: ExpenseCategory, amount: u32, description: String) -> (id:
        u32)
        requires
            old(self)@.current_id < u32::MAX,
        ensures
            id == old(self)@.current_id + 1,
            final(self)@.expenses.len() > 0,
            is_rfc3339(final(self)@.expenses.last().date),
            final(self)@ == add_spec(
                old(self)@,
                category,
                amount,
                description@,
                final(self)@.expenses.last().date,
            ),
            wf(old(self)@) ==> wf(final(self)@),
    {
        self.current_id = self.current_id + 1;
        let e = Expense::new(self.current_id, category, amount, description);
        let ghost ev = e@;
        self.expenses.push(e);
        proof {
            assert(final(self)@.expenses =~= old(self)@.expenses.push(ev));
            assert(final(self)@.expenses.last() == ev);
            if wf(old(self)@) {
                let s = final(self)@.expenses;
                assert(forall|i: int|
                    0 <= i < s.len() - 1 ==> s[i] == old(self)@.expenses[i]);
                assert(ids_unique(s)) by {
                    assert(forall|i: int|
                        0 <= i < s.len() - 1 ==> #[trigger] s[i].id <= old(self)@.current_id);
                }
            }
        }
        self.current_id
    }

    /// Takes out the record holding `id`. An id beyond the counter is out
    /// of bounds: the list stays as it was and `false` comes back. An id
    /// within bounds that no record holds is a silent no-op.
    pub fn remove(&mut self, id: u32) -> (in_bounds: bool)
        ensures
            in_bounds == (id <= old(self)@.current_id),
            final(self)@ == remove_spec(old(self)@, id),
            id > old(self)@.current_id ==> final(self)@ == old(self)@,
            wf(old(self)@) ==> wf(final(self)@),
    {
        if id > self.current_id {
            return false;
        }
        let ghost s0 = views_of(self.expenses@);
        let mut kept: Vec<Expense> = Vec::new();
        loop
            invariant
                self.current_id == old(self)@.current_id,
                without_id(s0, id) == without_id(views_of(self.expenses@), id) + views_of(kept@),
            ensures
                self.expenses@.len() == 0,
                without_id(s0, id) == views_of(kept@),
            decreases self.expenses@.len(),
        {
            let ghost before = views_of(self.expenses@);
            match self.expenses.pop() {
                Some(e) => {
                    proof {
                        assert(views_of(self.expenses@) =~= before.drop_last());
                        assert(before.last() == e@);
                    }
                    if e.id != id {
                        let ghost kept_before = views_of(kept@);
                        kept.insert(0, e);
                        proof {
                            assert(views_of(kept@) =~= seq![before.last()] + kept_before);
                            assert(without_id(before, id) + kept_before =~= without_id(
                                before.drop_last(),
                                id,
                            ) + views_of(kept@));
                        }
                    } else {
                        proof {
                            assert(without_id(before, id) == without_id(before.drop_last(), id));
                        }
                    }
                },
                None => {
                    proof {
                        assert(without_id(views_of(self.expenses@), id) =~= Seq::<
                            ExpenseView,
                        >::empty());
                        assert(without_id(s0, id) =~= views_of(kept@));
                    }
                    break;
                },
            }
        }
        self.expenses = kept;
        proof {
            lemma_without_id_keeps(s0, id, old(self)@.current_id);
        }
        true
    }

    /// How many records the list holds now.
    pub fn len(&self) -> (r: usize)
        ensures
            r == self@.expenses.len(),
    {
        self.expenses.len()
    }

    /// The highest id handed out so far; zero when none ever was.
    pub fn get_current_id(&self) -> (r: u32)
        ensures
            r == self@.current_id,
    {
        self.current_id
    }

    /// One display line per record, in insertion order, numbered from one.
    pub fn view_all(&self) -> (r: Vec<String>)
        requires
            self@.expenses.len() < u32::MAX,
        ensures
            r@.len() == self@.expenses.len(),
            forall|i: int|
                0 <= i < r@.len() ==> (#[trigger] r@[i])@ == listing_line(
                    i + 1,
                    self@.expenses[i],
                ),
    {
        let mut r: Vec<String> = Vec::new();
        let mut m: usize = 0;
        while m < self.expenses.len()
            invariant
                0 <= m <= self@.expenses.len(),
                self@.expenses.len() < u32::MAX,
                r@.len() == m,
                forall|i: int|
                    0 <= i < m ==> (#[trigger] r@[i])@ == listing_line(i + 1, self@.expenses[i]),
            decreases self@.expenses.len() - m,
        {
            let mut line: Vec<char> = crate::numbers::u32_to_chars((m as u32) + 1);
            let mut sep = str_to_chars(": ");
            line.append(&mut sep);
            let body = self.expenses[m].formatted();
            let mut body_part = str_to_chars(body.as_str());
            line.append(&mut body_part);
            proof {
                assert(line@ =~= listing_line(m + 1, self@.expenses[m as int]));
                assert(self@.expenses[m as int] == self.expenses@[m as int]@);
            }
            r.push(chars_to_string(&line));
            m = m + 1;
        }
        r
    }

    /// The sum of all amounts; zero for an empty list.
    pub fn get_total_expense(&self) -> (r: u32)
        requires
            total_amount(self@.expenses) <= u32::MAX,
        ensures
            r == total_amount(self@.expenses),
    {
        let ghost s = self@.expenses;
        let mut sum: u32 = 0;
        let mut m: usize = 0;
        while m < self.expenses.len()
            invariant
                0 <= m <= s.len(),
                s == self@.expenses,
                total_amount(s) <= u32::MAX,
                sum == total_amount(s.take(m as int)),
            decreases s.len() - m,
        {
            let a = self.expenses[m].amount;
            proof {
                assert(s[m as int] == self.expenses@[m as int]@);
                assert(s.take(m + 1).drop_last() =~= s.take(m as int));
                assert(s.take(m + 1).last() == s[m as int]);
                lemma_total_take_mono(s, m + 1, s.len() as int);
                assert(s.take(s.len() as int) =~= s);
            }
            sum = sum + a;
            m = m + 1;
        }
        proof {
            assert(s.take(s.len() as int) =~= s);
        }
        sum
    }
}

pub proof fn lemma_total_take_mono(s: Seq<ExpenseView>, m: int, k: int)
    requires
        0 <= m <= k <= s.len(),
    ensures
        total_amount(s.take(m)) <= total_amount(s.take(k)),
    decreases k - m,
{
    if m < k {
        lemma_total_take_mono(s, m + 1, k);
        assert(s.take(m + 1).drop_last() =~= s.take(m));
        assert(s.take(m + 1).last() == s[m]);
    }
}

impl Expense {
    /// A record carrying the given fields and the clock's current RFC 3339
    /// timestamp. On a clock whose rendering the RFC 3339 parser refuses
    /// (a year outside 0 through 9999), a fixed epoch timestamp stands in.
    pub fn new(id: u32, category: ExpenseCategory, amount: u32, description: String) -> (r:
        Expense)
        ensures
            r@.id == id,
            r@.category == category,
            r@.amount == amount,
            r@.description == description@,
            is_rfc3339(r@.date),
    {
        let now = now_rfc3339();
        let date = if check_rfc3339(now.as_str()) {
            now
        } else {
            fallback_rfc3339()
        };
        Expense { id, category, amount, description, date }
    }

    /// One display line: amount, category label, clock-face time and id.
    pub fn formatted(&self) -> (r: String)
        ensures
            r@ == formatted_spec(self@),
    {
        let mut line: Vec<char> = str_to_chars("\u{9f3}");
        let mut amount_part = crate::numbers::u32_to_chars(self.amount);
        line.append(&mut amount_part);
        let mut sep = str_to_chars(" for ");
        line.append(&mut sep);
        let label = self.category.label();
        let mut label_part = str_to_chars(label.as_str());
        line.append(&mut label_part);
        let mut on_part = str_to_chars(" on ");
        line.append(&mut on_part);
        let mut time_part = match format_clock(self.date.as_str()) {
            Some(t) => str_to_chars(t.as_str()),
            None => str_to_chars(self.date.as_str()),
        };
        line.append(&mut time_part);
        let mut id_open = str_to_chars(" (ID: ");
        line.append(&mut id_open);
        let mut id_part = crate::numbers::u32_to_chars(self.id);
        line.append(&mut id_part);
        let mut close = str_to_chars(")");
        line.append(&mut close);
        proof {
            assert(line@ =~= formatted_spec(self@));
        }
        chars_to_string(&line)
    }
}

/// The clock-face text shown for a stored timestamp: its rendering when
/// the text is RFC 3339, the raw text otherwise.
pub open spec fn time_text(d: Seq<char>) -> Seq<char> {
    if is_rfc3339(d) {
        clock_display_of(d)
    } else {
        d
    }
}

/// One line of the listing: the one-based position, then the record.
pub open spec fn listing_line(pos: int, e: ExpenseView) -> Seq<char> {
    dec_chars(pos as nat) + ": "@ + formatted_spec(e)
}

/// The display line of one record.
pub open spec fn formatted_spec(e: ExpenseView) -> Seq<char> {
    "\u{9f3}"@ + dec_chars(e.amount as nat) + " for "@ + cat_label(e.category) + " on "@
        + time_text(e.date) + " (ID: "@ + dec_chars(e.id as nat) + ")"@
}

} // verus!
