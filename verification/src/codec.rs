use vstd::prelude::*;
use vstd::string::*;
use crate::category::{ExpenseCategory, cat_name, cat_of_name, lemma_cat_name_round_trip};
use crate::clock::{is_rfc3339, check_rfc3339};
use crate::expense::{Expense, ExpenseList, ExpenseView, ListView, views_of, dates_ok};
use crate::numbers::{
    dec_chars, parse_num, is_digit, lemma_parse_num_round_trip, u32_to_chars, parse_u32_at,
};
use crate::text::{
    escape, parse_string_body, lemma_parse_escape_round_trip, lemma_parse_string_body_shrinks,
    append_escaped, parse_string_at, str_to_chars, chars_to_string,
};

verus! {

/// The stored text of one record.
pub open spec fn expense_json(e: ExpenseView) -> Seq<char> {
    "{\"id\":"@ + dec_chars(e.id as nat) + ",\"amount\":"@ + dec_chars(e.amount as nat)
        + ",\"category\":\""@ + escape(cat_name(e.category)) + seq!['"']
        + ",\"description\":\""@ + escape(e.description) + seq!['"'] + ",\"date\":\""@ + escape(
        e.date,
    ) + seq!['"'] + "}"@
}

/// The stored text of the records, set apart by commas.
pub open spec fn items_json(s: Seq<ExpenseView>) -> Seq<char>
    decreases s.len(),
{
    if s.len() == 0 {
        Seq::empty()
    } else if s.len() == 1 {
        expense_json(s[0])
    } else {
        expense_json(s[0]) + seq![','] + items_json(s.skip(1))
    }
}

/// The stored text of a whole list: the records and the id counter.
pub open spec fn list_json(l: ListView) -> Seq<char> {
    "{\"expenses\":["@ + items_json(l.expenses) + "],\"current_id\":"@ + dec_chars(
        l.current_id as nat,
    ) + "}"@
}

/// Consumes `t` off the front of `s`, or nothing at all.
pub open spec fn expect(s: Seq<char>, t: Seq<char>) -> Option<Seq<char>> {
    if s.len() >= t.len() && s.take(t.len() as int) == t {
        Some(s.skip(t.len() as int))
    } else {
        None
    }
}

/// Reads the stored text of one record; the timestamp must satisfy the
/// RFC 3339 check.
pub open spec fn parse_expense(s: Seq<char>) -> Option<(ExpenseView, Seq<char>)> {
    match expect(s, "{\"id\":"@) {
        None => None,
        Some(s1) => match parse_num(s1) {
            None => None,
            Some((id, s2)) => match expect(s2, ",\"amount\":"@) {
                None => None,
                Some(s3) => match parse_num(s3) {
                    None => None,
                    Some((amount, s4)) => match expect(s4, ",\"category\":\""@) {
                        None => None,
                        Some(s5) => match parse_string_body(s5) {
                            None => None,
                            Some((cname, s6)) => match cat_of_name(cname) {
                                None => None,
                                Some(category) => match expect(s6, ",\"description\":\""@) {
                                    None => None,
                                    Some(s7) => match parse_string_body(s7) {
                                        None => None,
                                        Some((description, s8)) => match expect(
                                            s8,
                                            ",\"date\":\""@,
                                        ) {
                                            None => None,
                                            Some(s9) => match parse_string_body(s9) {
                                                None => None,
                                                Some((date, s10)) => if is_rfc3339(date) {
                                                    match expect(s10, "}"@) {
                                                        None => None,
                                                        Some(s11) => Some(
                                                            (
                                                                ExpenseView {
                                                                    id,
                                                                    amount,
                                                                    category,
                                                                    description,
                                                                    date,
                                                                },
                                                                s11,
                                                            ),
                                                        ),
                                                    }
                                                } else {
                                                    None
                                                },
                                            },
                                        },
                                    },
                                },
                            },
                        },
                    },
                },
            },
        },
    }
}

/// A record's stored text is never empty, so what follows it is shorter.
pub proof fn lemma_parse_expense_shrinks(s: Seq<char>)
    ensures
        parse_expense(s) matches Some(p) ==> p.1.len() < s.len(),
{
    reveal_strlit("{\"id\":");
    match expect(s, "{\"id\":"@) {
        None => {},
        Some(s1) => {
            assert(s1.len() < s.len());
            match parse_num(s1) {
                None => {},
                Some(p1) => {
                    let s2 = p1.1;
                    crate::numbers::lemma_digit_run_le(s1);
                    assert(s2.len() < s1.len());
                    match expect(s2, ",\"amount\":"@) {
                        None => {},
                        Some(s3) => {
                            match parse_num(s3) {
                                None => {},
                                Some(p2) => {
                                    let s4 = p2.1;
                                    crate::numbers::lemma_digit_run_le(s3);
                                    assert(s4.len() < s3.len());
                                    match expect(s4, ",\"category\":\""@) {
                                        None => {},
                                        Some(s5) => {
                                            lemma_parse_string_body_shrinks(s5);
                                            match parse_string_body(s5) {
                                                None => {},
                                                Some(p3) => {
                                                    let s6 = p3.1;
                                                    match expect(s6, ",\"description\":\""@) {
                                                        None => {},
                                                        Some(s7) => {
                                                            lemma_parse_string_body_shrinks(s7);
                                                            match parse_string_body(s7) {
                                                                None => {},
                                                                Some(p4) => {
                                                                    let s8 = p4.1;
                                                                    match expect(
                                                                        s8,
                                                                        ",\"date\":\""@,
                                                                    ) {
                                                                        None => {},
                                                                        Some(s9) => {
                                                                            lemma_parse_string_body_shrinks(
                                                                                s9,
                                                                            );
                                                                        },
                                                                    }
                                                                },
                                                            }
                                                        },
                                                    }
                                                },
                                            }
                                        },
                                    }
                                },
                            }
                        },
                    }
                },
            }
        },
    }
}

/// Reads one or more records set apart by commas.
pub open spec fn parse_items(s: Seq<char>) -> Option<(Seq<ExpenseView>, Seq<char>)>
    decreases s.len(),
        via parse_items_dec
{
    match parse_expense(s) {
        None => None,
        Some((e, r)) => if r.len() > 0 && r[0] == ',' {
            match parse_items(r.skip(1)) {
                None => None,
                Some((es, r2)) => Some((seq![e] + es, r2)),
            }
        } else {
            Some((seq![e], r))
        },
    }
}

#[via_fn]
proof fn parse_items_dec(s: Seq<char>) {
    lemma_parse_expense_shrinks(s);
}

/// Reads a whole stored document; nothing may follow the closing brace.
pub open spec fn parse_list(s: Seq<char>) -> Option<ListView> {
    match expect(s, "{\"expenses\":["@) {
        None => None,
        Some(s1) => if s1.len() > 0 && s1[0] == ']' {
            match expect(s1, "],\"current_id\":"@) {
                None => None,
                Some(s2) => match parse_num(s2) {
                    None => None,
                    Some((cid, s3)) => match expect(s3, "}"@) {
                        None => None,
                        Some(s4) => if s4.len() == 0 {
                            Some(ListView { expenses: Seq::empty(), current_id: cid })
                        } else {
                            None
                        },
                    },
                },
            }
        } else {
            match parse_items(s1) {
                None => None,
                Some((es, r)) => match expect(r, "],\"current_id\":"@) {
                    None => None,
                    Some(s2) => match parse_num(s2) {
                        None => None,
                        Some((cid, s3)) => match expect(s3, "}"@) {
                            None => None,
                            Some(s4) => if s4.len() == 0 {
                                Some(ListView { expenses: es, current_id: cid })
                            } else {
                                None
                            },
                        },
                    },
                },
            }
        },
    }
}

pub proof fn lemma_expect_concat(t: Seq<char>, r: Seq<char>)
    ensures
        expect(t + r, t) == Some(r),
{
    assert((t + r).take(t.len() as int) =~= t);
    assert((t + r).skip(t.len() as int) =~= r);
}

/// A record's stored text followed by anything reads back as the record.
#[verifier::rlimit(100)]
pub proof fn lemma_parse_expense_round_trip(e: ExpenseView, rest: Seq<char>)
    requires
        is_rfc3339(e.date),
    ensures
        parse_expense(expense_json(e) + rest) == Some((e, rest)),
{
    reveal_strlit("{\"id\":");
    reveal_strlit(",\"amount\":");
    reveal_strlit(",\"category\":\"");
    reveal_strlit(",\"description\":\"");
    reveal_strlit(",\"date\":\"");
    reveal_strlit("}");
    let s10 = "}"@ + rest;
    let s9 = escape(e.date) + seq!['"'] + s10;
    let s8 = ",\"date\":\""@ + s9;
    let s7 = escape(e.description) + seq!['"'] + s8;
    let s6 = ",\"description\":\""@ + s7;
    let s5 = escape(cat_name(e.category)) + seq!['"'] + s6;
    let s4 = ",\"category\":\""@ + s5;
    let s3 = dec_chars(e.amount as nat) + s4;
    let s2 = ",\"amount\":"@ + s3;
    let s1 = dec_chars(e.id as nat) + s2;
    let s = "{\"id\":"@ + s1;
    assert(expense_json(e) + rest =~= s);
    lemma_expect_concat("{\"id\":"@, s1);
    assert(s2[0] == ',');
    lemma_parse_num_round_trip(e.id, s2);
    lemma_expect_concat(",\"amount\":"@, s3);
    assert(s4[0] == ',');
    lemma_parse_num_round_trip(e.amount, s4);
    lemma_expect_concat(",\"category\":\""@, s5);
    lemma_parse_escape_round_trip(cat_name(e.category), s6);
    lemma_cat_name_round_trip(e.category);
    lemma_expect_concat(",\"description\":\""@, s7);
    lemma_parse_escape_round_trip(e.description, s8);
    lemma_expect_concat(",\"date\":\""@, s9);
    lemma_parse_escape_round_trip(e.date, s10);
    lemma_expect_concat("}"@, rest);
    assert(parse_expense(s) == Some((e, rest)));
}

/// The records' stored text, followed by anything that does not begin
/// with a comma, reads back as those records.
#[verifier::rlimit(100)]
pub proof fn lemma_parse_items_round_trip(es: Seq<ExpenseView>, rest: Seq<char>)
    requires
        es.len() >= 1,
        dates_ok(es),
        rest.len() > 0,
        rest[0] != ',',
    ensures
        parse_items(items_json(es) + rest) == Some((es, rest)),
    decreases es.len(),
{
    if es.len() == 1 {
        lemma_parse_expense_round_trip(es[0], rest);
        assert(seq![es[0]] =~= es);
    } else {
        let tail = items_json(es.skip(1)) + rest;
        let rest1 = seq![','] + tail;
        lemma_parse_expense_round_trip(es[0], rest1);
        assert(items_json(es) + rest =~= expense_json(es[0]) + rest1);
        assert(rest1[0] == ',');
        assert(rest1.skip(1) =~= tail);
        assert(forall|i: int| 0 <= i < es.skip(1).len() ==> es.skip(1)[i] == es[i + 1]);
        lemma_parse_items_round_trip(es.skip(1), rest);
        assert(seq![es[0]] + es.skip(1) =~= es);
    }
}

/// A list's stored text reads back as that list.
#[verifier::rlimit(100)]
pub proof fn lemma_parse_list_round_trip(l: ListView)
    requires
        dates_ok(l.expenses),
    ensures
        parse_list(list_json(l)) == Some(l),
{
    reveal_strlit("{\"expenses\":[");
    reveal_strlit("],\"current_id\":");
    reveal_strlit("}");
    reveal_strlit("{\"id\":");
    let s3 = "}"@ + Seq::<char>::empty();
    let s2 = dec_chars(l.current_id as nat) + s3;
    let s1 = "],\"current_id\":"@ + s2;
    if l.expenses.len() == 0 {
        let s = "{\"expenses\":["@ + s1;
        assert(list_json(l) =~= s);
        lemma_expect_concat("{\"expenses\":["@, s1);
        assert(s1[0] == ']');
        lemma_expect_concat("],\"current_id\":"@, s2);
        assert(s3[0] == '}');
        assert(!is_digit('}'));
        lemma_parse_num_round_trip(l.current_id, s3);
        lemma_expect_concat("}"@, Seq::<char>::empty());
        assert(l.expenses =~= Seq::<ExpenseView>::empty());
        assert(parse_list(list_json(l)) == Some(l));
    } else {
        let si = items_json(l.expenses) + s1;
        let s = "{\"expenses\":["@ + si;
        assert(list_json(l) =~= s);
        lemma_expect_concat("{\"expenses\":["@, si);
        assert(s1[0] == ']');
        assert(si[0] == items_json(l.expenses)[0]) by {
            lemma_items_json_head(l.expenses);
        }
        assert(si[0] == '{');
        lemma_parse_items_round_trip(l.expenses, s1);
        lemma_expect_concat("],\"current_id\":"@, s2);
        assert(s3[0] == '}');
        lemma_parse_num_round_trip(l.current_id, s3);
        lemma_expect_concat("}"@, Seq::<char>::empty());
        assert(parse_list(list_json(l)) == Some(l));
    }
}

/// A record's stored text begins with an opening brace.
pub proof fn lemma_items_json_head(s: Seq<ExpenseView>)
    requires
        s.len() >= 1,
    ensures
        items_json(s).len() > 0,
        items_json(s)[0] == '{',
{
    reveal_strlit("{\"id\":");
    assert(expense_json(s[0])[0] == '{');
}

/// Appending one record to a nonempty run appends a comma and its text.
pub proof fn lemma_items_json_snoc(s: Seq<ExpenseView>, e: ExpenseView)
    ensures
        s.len() == 0 ==> items_json(s.push(e)) == expense_json(e),
        s.len() >= 1 ==> items_json(s.push(e)) == items_json(s) + seq![','] + expense_json(e),
    decreases s.len(),
{
    let p = s.push(e);
    if s.len() == 0 {
        assert(p.len() == 1);
        assert(p[0] == e);
    } else {
        assert(p[0] == s[0]);
        assert(p.skip(1) =~= s.skip(1).push(e));
        lemma_items_json_snoc(s.skip(1), e);
        if s.len() == 1 {
            assert(s.skip(1).len() == 0);
            assert(items_json(p) =~= expense_json(s[0]) + seq![','] + expense_json(e));
            assert(items_json(s) == expense_json(s[0]));
        } else {
            assert(items_json(p) =~= expense_json(s[0]) + seq![','] + (items_json(s.skip(1))
                + seq![','] + expense_json(e)));
            assert(items_json(s) + seq![','] + expense_json(e) =~= expense_json(s[0]) + seq![',']
                + (items_json(s.skip(1)) + seq![','] + expense_json(e)));
        }
    }
}

/// Appends the stored text of one record.
fn append_expense(out: &mut Vec<char>, e: &Expense)
    ensures
        final(out)@ == old(out)@ + expense_json(e@),
{
    let mut part = str_to_chars("{\"id\":");
    out.append(&mut part);
    let mut id_part = u32_to_chars(e.id);
    out.append(&mut id_part);
    let mut part2 = str_to_chars(",\"amount\":");
    out.append(&mut part2);
    let mut amount_part = u32_to_chars(e.amount);
    out.append(&mut amount_part);
    let mut part3 = str_to_chars(",\"category\":\"");
    out.append(&mut part3);
    let name = e.category.name();
    let name_chars = str_to_chars(name.as_str());
    append_escaped(out, &name_chars);
    out.push('"');
    let mut part4 = str_to_chars(",\"description\":\"");
    out.append(&mut part4);
    let desc_chars = str_to_chars(e.description.as_str());
    append_escaped(out, &desc_chars);
    out.push('"');
    let mut part5 = str_to_chars(",\"date\":\"");
    out.append(&mut part5);
    let date_chars = str_to_chars(e.date.as_str());
    append_escaped(out, &date_chars);
    out.push('"');
    let mut part6 = str_to_chars("}");
    out.append(&mut part6);
    proof {
        assert(final(out)@ =~= old(out)@ + expense_json(e@));
    }
}

/// The stored text of the whole list, ready to be written out.
pub fn save_string(list: &ExpenseList) -> (r: String)
    ensures
        r@ == list_json(list@),
{
    let ghost s = list@.expenses;
    let mut out: Vec<char> = str_to_chars("{\"expenses\":[");
    let mut m: usize = 0;
    while m < list.expenses.len()
        invariant
            0 <= m <= s.len(),
            s == list@.expenses,
            out@ == "{\"expenses\":["@ + items_json(s.take(m as int)),
        decreases s.len() - m,
    {
        if m > 0 {
            out.push(',');
        }
        append_expense(&mut out, &list.expenses[m]);
        proof {
            assert(s.take(m + 1) =~= s.take(m as int).push(s[m as int]));
            lemma_items_json_snoc(s.take(m as int), s[m as int]);
            assert(s[m as int] == list.expenses@[m as int]@);
            assert(out@ =~= "{\"expenses\":["@ + items_json(s.take(m + 1)));
        }
        m = m + 1;
    }
    proof {
        assert(s.take(s.len() as int) =~= s);
    }
    let mut tail = str_to_chars("],\"current_id\":");
    out.append(&mut tail);
    let mut cid = u32_to_chars(list.current_id);
    out.append(&mut cid);
    out.push('}');
    proof {
        reveal_strlit("}");
        assert(seq!['}'] =~= "}"@);
        assert(out@ =~= list_json(list@));
    }
    chars_to_string(&out)
}

/// Compares the characters of `v` with a literal.
fn chars_eq_str(v: &Vec<char>, t: &str) -> (r: bool)
    ensures
        r == (v@ == t@),
{
    let n = t.unicode_len();
    if v.len() != n {
        return false;
    }
    let mut m: usize = 0;
    while m < n
        invariant
            0 <= m <= n,
            n as nat == t@.len(),
            v@.len() == n as nat,
            forall|i: int| 0 <= i < m ==> v@[i] == t@[i],
        decreases n - m,
    {
        if v[m] != t.get_char(m) {
            return false;
        }
        m = m + 1;
    }
    proof {
        assert(v@ =~= t@);
    }
    true
}

/// The category whose symbolic name this text is, if any.
fn cat_from_chars(v: &Vec<char>) -> (r: Option<ExpenseCategory>)
    ensures
        r == cat_of_name(v@),
{
    if chars_eq_str(v, "FoodAndDining") {
        Some(ExpenseCategory::FoodAndDining)
    } else if chars_eq_str(v, "Transportation") {
        Some(ExpenseCategory::Transportation)
    } else if chars_eq_str(v, "Utilities") {
        Some(ExpenseCategory::Utilities)
    } else if chars_eq_str(v, "Housing") {
        Some(ExpenseCategory::Housing)
    } else if chars_eq_str(v, "Entertainment") {
        Some(ExpenseCategory::Entertainment)
    } else if chars_eq_str(v, "Healthcare") {
        Some(ExpenseCategory::Healthcare)
    } else if chars_eq_str(v, "ClothingAndPersonalCare") {
        Some(ExpenseCategory::ClothingAndPersonalCare)
    } else if chars_eq_str(v, "Travel") {
        Some(ExpenseCategory::Travel)
    } else if chars_eq_str(v, "Education") {
        Some(ExpenseCategory::Education)
    } else if chars_eq_str(v, "GiftsAndDonations") {
        Some(ExpenseCategory::GiftsAndDonations)
    } else if chars_eq_str(v, "SavingsAndInvestments") {
        Some(ExpenseCategory::SavingsAndInvestments)
    } else if chars_eq_str(v, "Miscellaneous") {
        Some(ExpenseCategory::Miscellaneous)
    } else {
        None
    }
}

/// Consumes the literal `t` at position `i`.
fn expect_at(v: &Vec<char>, i: usize, t: &str) -> (r: Option<usize>)
    requires
        i <= v@.len(),
    ensures
        match r {
            Some(j) => {
                &&& i <= j <= v@.len()
                &&& expect(v@.skip(i as int), t@) == Some(v@.skip(j as int))
            },
            None => expect(v@.skip(i as int), t@) is None,
        },
{
    let ghost s = v@.skip(i as int);
    let n = t.unicode_len();
    let vn = v.len();
    if vn - i < n {
        return None;
    }
    proof {
        assert(v@.len() <= usize::MAX);
    }
    let mut m: usize = 0;
    while m < n
        invariant
            0 <= m <= n,
            n as nat == t@.len(),
            i + n <= v@.len(),
            v@.len() <= usize::MAX,
            s == v@.skip(i as int),
            forall|k: int| 0 <= k < m ==> s[k] == t@[k],
        decreases n - m,
    {
        proof {
            assert(s[m as int] == v@[i + m]);
        }
        if v[i + m] != t.get_char(m) {
            proof {
                assert(s.take(n as int)[m as int] != t@[m as int]);
            }
            return None;
        }
        m = m + 1;
    }
    proof {
        assert(s.take(n as int) =~= t@);
        assert(s.skip(n as int) =~= v@.skip(i + n));
    }
    Some(i + n)
}

/// Reads one record's stored text at position `i`.
fn parse_expense_at(v: &Vec<char>, i: usize) -> (r: Option<(Expense, usize)>)
    requires
        i <= v@.len(),
    ensures
        match r {
            Some(p) => {
                &&& i < p.1 <= v@.len()
                &&& parse_expense(v@.skip(i as int)) == Some((p.0@, v@.skip(p.1 as int)))
            },
            None => parse_expense(v@.skip(i as int)) is None,
        },
{
    let j1 = match expect_at(v, i, "{\"id\":") {
        Some(j) => j,
        None => {
            return None;
        },
    };
    let (id, j2) = match parse_u32_at(v, j1) {
        Some(p) => p,
        None => {
            return None;
        },
    };
    let j3 = match expect_at(v, j2, ",\"amount\":") {
        Some(j) => j,
        None => {
            return None;
        },
    };
    let (amount, j4) = match parse_u32_at(v, j3) {
        Some(p) => p,
        None => {
            return None;
        },
    };
    let j5 = match expect_at(v, j4, ",\"category\":\"") {
        Some(j) => j,
        None => {
            return None;
        },
    };
    let (cname, j6) = match parse_string_at(v, j5) {
        Some(p) => p,
        None => {
            return None;
        },
    };
    let category = match cat_from_chars(&cname) {
        Some(c) => c,
        None => {
            return None;
        },
    };
    let j7 = match expect_at(v, j6, ",\"description\":\"") {
        Some(j) => j,
        None => {
            return None;
        },
    };
    let (description, j8) = match parse_string_at(v, j7) {
        Some(p) => p,
        None => {
            return None;
        },
    };
    let j9 = match expect_at(v, j8, ",\"date\":\"") {
        Some(j) => j,
        None => {
            return None;
        },
    };
    let (date, j10) = match parse_string_at(v, j9) {
        Some(p) => p,
        None => {
            return None;
        },
    };
    let date_string = chars_to_string(&date);
    if !check_rfc3339(date_string.as_str()) {
        return None;
    }
    let j11 = match expect_at(v, j10, "}") {
        Some(j) => j,
        None => {
            return None;
        },
    };
    let e = Expense {
        id,
        amount,
        category,
        description: chars_to_string(&description),
        date: date_string,
    };
    proof {
        assert(parse_expense(v@.skip(i as int)) == Some((e@, v@.skip(j11 as int))));
    }
    Some((e, j11))
}

/// Reads records set apart by commas, starting at `i`.
fn parse_items_at(v: &Vec<char>, i: usize) -> (r: Option<(Vec<Expense>, usize)>)
    requires
        i <= v@.len(),
    ensures
        match r {
            Some(p) => {
                &&& i < p.1 <= v@.len()
                &&& parse_items(v@.skip(i as int)) == Some((views_of(p.0@), v@.skip(p.1 as int)))
            },
            None => parse_items(v@.skip(i as int)) is None,
        },
    decreases v@.len() - i,
{
    let (e, j) = match parse_expense_at(v, i) {
        Some(p) => p,
        None => {
            return None;
        },
    };
    let ghost r0 = v@.skip(j as int);
    if j < v.len() && {
        let c = v[j];
        c == ','
    } {
        proof {
            assert(r0[0] == v@[j as int]);
            assert(r0.skip(1) =~= v@.skip(j + 1));
        }
        match parse_items_at(v, j + 1) {
            Some(p) => {
                let (mut es, j2) = p;
                let ghost es_before = views_of(es@);
                es.insert(0, e);
                proof {
                    assert(views_of(es@) =~= seq![e@] + es_before);
                }
                Some((es, j2))
            },
            None => None,
        }
    } else {
        proof {
            if r0.len() > 0 {
                assert(r0[0] == v@[j as int]);
            }
        }
        let mut es: Vec<Expense> = Vec::new();
        es.push(e);
        proof {
            assert(views_of(es@) =~= seq![e@]);
        }
        Some((es, j))
    }
}

/// Reads a whole stored document from its characters.
fn parse_list_chars(v: &Vec<char>) -> (r: Option<(Vec<Expense>, u32)>)
    ensures
        match r {
            Some(p) => parse_list(v@) == Some(
                ListView { expenses: views_of(p.0@), current_id: p.1 },
            ),
            None => parse_list(v@) is None,
        },
{
    proof {
        assert(v@.skip(0) =~= v@);
    }
    let j1 = match expect_at(v, 0, "{\"expenses\":[") {
        Some(j) => j,
        None => {
            return None;
        },
    };
    let ghost s1 = v@.skip(j1 as int);
    let (items, j2): (Vec<Expense>, usize) = if j1 < v.len() && {
        let c = v[j1];
        c == ']'
    } {
        proof {
            assert(s1[0] == v@[j1 as int]);
        }
        (Vec::new(), j1)
    } else {
        proof {
            if s1.len() > 0 {
                assert(s1[0] == v@[j1 as int]);
            }
        }
        match parse_items_at(v, j1) {
            Some(p) => p,
            None => {
                return None;
            },
        }
    };
    let j3 = match expect_at(v, j2, "],\"current_id\":") {
        Some(j) => j,
        None => {
            return None;
        },
    };
    let (cid, j4) = match parse_u32_at(v, j3) {
        Some(p) => p,
        None => {
            return None;
        },
    };
    let j5 = match expect_at(v, j4, "}") {
        Some(j) => j,
        None => {
            return None;
        },
    };
    if j5 != v.len() {
        proof {
            assert(v@.skip(j5 as int).len() > 0);
        }
        return None;
    }
    proof {
        assert(v@.skip(j5 as int).len() == 0);
        if views_of(items@).len() == 0 {
            assert(views_of(items@) =~= Seq::<ExpenseView>::empty());
        }
    }
    Some((items, cid))
}

/// Rebuilds a list from stored text. Text this format did not write —
/// malformed text — yields a fresh empty list with the counter at zero.
pub fn load_string(s: &str) -> (r: ExpenseList)
    ensures
        parse_list(s@) matches Some(l) ==> r@ == l,
        parse_list(s@) is None ==> r@.expenses.len() == 0 && r@.current_id == 0,
{
    let v = str_to_chars(s);
    match parse_list_chars(&v) {
        Some(p) => {
            let (items, cid) = p;
            ExpenseList::from_parts(items, cid)
        },
        None => ExpenseList::new(),
    }
}

} // verus!
