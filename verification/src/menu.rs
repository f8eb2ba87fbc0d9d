use vstd::prelude::*;
use vstd::string::*;
use crate::category::{ExpenseCategory, cat_label};
use crate::numbers::dec_chars;
use crate::text::{str_to_chars, chars_to_string};

verus! {

/// What the home menu does for each choice.
#[derive(Clone, Copy, Debug, PartialEq, Eq, Structural)]
pub enum MenuAction {
    AddExpense,
    ViewAll,
    CalculateTotal,
    DeleteExpense,
    Exit,
    Invalid,
}

/// The action behind each home-menu choice: records are added, shown,
/// summed or deleted; an explicit exit leaves cleanly; anything else is
/// invalid and leaves with a failure code.
pub fn menu_action(choice: u32) -> (r: MenuAction)
    ensures
        choice == 1 ==> r == MenuAction::AddExpense,
        choice == 2 ==> r == MenuAction::ViewAll,
        choice == 3 ==> r == MenuAction::CalculateTotal,
        choice == 4 ==> r == MenuAction::DeleteExpense,
        choice == 5 ==> r == MenuAction::Exit,
        !(1 <= choice <= 5) ==> r == MenuAction::Invalid,
{
    match choice {
        1 => MenuAction::AddExpense,
        2 => MenuAction::ViewAll,
        3 => MenuAction::CalculateTotal,
        4 => MenuAction::DeleteExpense,
        5 => MenuAction::Exit,
        _ => MenuAction::Invalid,
    }
}

/// One entry of the category menu: its one-based position and label.
pub open spec fn menu_entry(pos: nat, c: ExpenseCategory) -> Seq<char> {
    dec_chars(pos) + ": "@ + cat_label(c)
}

/// The separator after the entry at zero-based index `i` of twelve: a line
/// break after every third column start and after the last, else a blank.
pub open spec fn menu_sep(i: nat) -> Seq<char> {
    if i % 3 == 0 || i == 11 {
        "\n"@
    } else {
        " "@
    }
}

/// The text of the whole category menu, entries joined by their
/// separators.
pub open spec fn menu_text(cats: Seq<ExpenseCategory>) -> Seq<char>
    decreases cats.len(),
{
    if cats.len() == 0 {
        Seq::empty()
    } else {
        menu_text(cats.drop_last()) + menu_entry(cats.len(), cats.last()) + menu_sep(
            (cats.len() - 1) as nat,
        )
    }
}

/// The twelve categories in the order the menu offers them.
pub open spec fn all_categories() -> Seq<ExpenseCategory> {
    seq![
        ExpenseCategory::FoodAndDining,
        ExpenseCategory::Transportation,
        ExpenseCategory::Utilities,
        ExpenseCategory::Housing,
        ExpenseCategory::Entertainment,
        ExpenseCategory::Healthcare,
        ExpenseCategory::ClothingAndPersonalCare,
        ExpenseCategory::Travel,
        ExpenseCategory::Education,
        ExpenseCategory::GiftsAndDonations,
        ExpenseCategory::SavingsAndInvestments,
        ExpenseCategory::Miscellaneous,
    ]
}

/// The prompt text that lists the twelve categories for selection.
pub fn category_menu_text() -> (r: String)
    ensures
        r@ == menu_text(all_categories()),
{
    let cats: Vec<ExpenseCategory> = vec![
        ExpenseCategory::FoodAndDining,
        ExpenseCategory::Transportation,
        ExpenseCategory::Utilities,
        ExpenseCategory::Housing,
        ExpenseCategory::Entertainment,
        ExpenseCategory::Healthcare,
        ExpenseCategory::ClothingAndPersonalCare,
        ExpenseCategory::Travel,
        ExpenseCategory::Education,
        ExpenseCategory::GiftsAndDonations,
        ExpenseCategory::SavingsAndInvestments,
        ExpenseCategory::Miscellaneous,
    ];
    proof {
        assert(cats@ =~= all_categories());
    }
    let mut out: Vec<char> = Vec::new();
    let mut m: usize = 0;
    while m < cats.len()
        invariant
            0 <= m <= cats@.len(),
            cats@ == all_categories(),
            cats@.len() == 12,
            out@ == menu_text(cats@.take(m as int)),
        decreases cats@.len() - m,
    {
        let mut pos_part = crate::numbers::u32_to_chars((m + 1) as u32);
        out.append(&mut pos_part);
        let mut colon = str_to_chars(": ");
        out.append(&mut colon);
        let label = cats[m].label();
        let mut label_part = str_to_chars(label.as_str());
        out.append(&mut label_part);
        if m % 3 == 0 || m == 11 {
            let mut nl = str_to_chars("\n");
            out.append(&mut nl);
        } else {
            let mut sp = str_to_chars(" ");
            out.append(&mut sp);
        }
        proof {
            assert(cats@.take(m + 1).drop_last() =~= cats@.take(m as int));
            assert(cats@.take(m + 1).last() == cats@[m as int]);
            assert(out@ =~= menu_text(cats@.take(m + 1)));
        }
        m = m + 1;
    }
    proof {
        assert(cats@.take(cats@.len() as int) =~= cats@);
    }
    chars_to_string(&out)
}

} // verus!
