use vstd::prelude::*;
use vstd::string::*;

verus! {

/// The closed set of categories an expense can carry.
#[derive(Clone, Copy, Debug, PartialEq, Eq, Structural)]
pub enum ExpenseCategory {
    FoodAndDining,
    Transportation,
    Utilities,
    Housing,
    Entertainment,
    Healthcare,
    ClothingAndPersonalCare,
    Travel,
    Education,
    GiftsAndDonations,
    SavingsAndInvestments,
    Miscellaneous,
}

/// The symbolic variant name, as it appears in the stored document.
pub open spec fn cat_name(c: ExpenseCategory) -> Seq<char> {
    match c {
        ExpenseCategory::FoodAndDining => "FoodAndDining"@,
        ExpenseCategory::Transportation => "Transportation"@,
        ExpenseCategory::Utilities => "Utilities"@,
        ExpenseCategory::Housing => "Housing"@,
        ExpenseCategory::Entertainment => "Entertainment"@,
        ExpenseCategory::Healthcare => "Healthcare"@,
        ExpenseCategory::ClothingAndPersonalCare => "ClothingAndPersonalCare"@,
        ExpenseCategory::Travel => "Travel"@,
        ExpenseCategory::Education => "Education"@,
        ExpenseCategory::GiftsAndDonations => "GiftsAndDonations"@,
        ExpenseCategory::SavingsAndInvestments => "SavingsAndInvestments"@,
        ExpenseCategory::Miscellaneous => "Miscellaneous"@,
    }
}

/// The text shown to the user for a category.
pub open spec fn cat_label(c: ExpenseCategory) -> Seq<char> {
    match c {
        ExpenseCategory::FoodAndDining => "Food And Dining"@,
        ExpenseCategory::Transportation => "Transportation"@,
        ExpenseCategory::Utilities => "Utilities"@,
        ExpenseCategory::Housing => "Housing"@,
        ExpenseCategory::Entertainment => "Entertainment"@,
        ExpenseCategory::Healthcare => "Healthcare"@,
        ExpenseCategory::ClothingAndPersonalCare => "Clothing and Personal Care"@,
        ExpenseCategory::Travel => "Travel"@,
        ExpenseCategory::Education => "Education"@,
        ExpenseCategory::GiftsAndDonations => "Gifts and Donations"@,
        ExpenseCategory::SavingsAndInvestments => "Savings and Investments"@,
        ExpenseCategory::Miscellaneous => "Miscellaneous"@,
    }
}

/// The category whose symbolic name is `s`, if any.
pub open spec fn cat_of_name(s: Seq<char>) -> Option<ExpenseCategory> {
    if s == cat_name(ExpenseCategory::FoodAndDining) {
        Some(ExpenseCategory::FoodAndDining)
    } else if s == cat_name(ExpenseCategory::Transportation) {
        Some(ExpenseCategory::Transportation)
    } else if s == cat_name(ExpenseCategory::Utilities) {
        Some(ExpenseCategory::Utilities)
    } else if s == cat_name(ExpenseCategory::Housing) {
        Some(ExpenseCategory::Housing)
    } else if s == cat_name(ExpenseCategory::Entertainment) {
        Some(ExpenseCategory::Entertainment)
    } else if s == cat_name(ExpenseCategory::Healthcare) {
        Some(ExpenseCategory::Healthcare)
    } else if s == cat_name(ExpenseCategory::ClothingAndPersonalCare) {
        Some(ExpenseCategory::ClothingAndPersonalCare)
    } else if s == cat_name(ExpenseCategory::Travel) {
        Some(ExpenseCategory::Travel)
    } else if s == cat_name(ExpenseCategory::Education) {
        Some(ExpenseCategory::Education)
    } else if s == cat_name(ExpenseCategory::GiftsAndDonations) {
        Some(ExpenseCategory::GiftsAndDonations)
    } else if s == cat_name(ExpenseCategory::SavingsAndInvestments) {
        Some(ExpenseCategory::SavingsAndInvestments)
    } else if s == cat_name(ExpenseCategory::Miscellaneous) {
        Some(ExpenseCategory::Miscellaneous)
    } else {
        None
    }
}

impl ExpenseCategory {
    /// The symbolic variant name as an owned string.
    pub fn name(&self) -> (r: String)
        ensures
            r@ == cat_name(*self),
    {
        match self {
            ExpenseCategory::FoodAndDining => String::from_str("FoodAndDining"),
            ExpenseCategory::Transportation => String::from_str("Transportation"),
            ExpenseCategory::Utilities => String::from_str("Utilities"),
            ExpenseCategory::Housing => String::from_str("Housing"),
            ExpenseCategory::Entertainment => String::from_str("Entertainment"),
            ExpenseCategory::Healthcare => String::from_str("Healthcare"),
            ExpenseCategory::ClothingAndPersonalCare => String::from_str("ClothingAndPersonalCare"),
            ExpenseCategory::Travel => String::from_str("Travel"),
            ExpenseCategory::Education => String::from_str("Education"),
            ExpenseCategory::GiftsAndDonations => String::from_str("GiftsAndDonations"),
            ExpenseCategory::SavingsAndInvestments => String::from_str("SavingsAndInvestments"),
            ExpenseCategory::Miscellaneous => String::from_str("Miscellaneous"),
        }
    }

    /// The display label as an owned string.
    pub fn label(&self) -> (r: String)
        ensures
            r@ == cat_label(*self),
    {
        match self {
            ExpenseCategory::FoodAndDining => String::from_str("Food And Dining"),
            ExpenseCategory::Transportation => String::from_str("Transportation"),
            ExpenseCategory::Utilities => String::from_str("Utilities"),
            ExpenseCategory::Housing => String::from_str("Housing"),
            ExpenseCategory::Entertainment => String::from_str("Entertainment"),
            ExpenseCategory::Healthcare => String::from_str("Healthcare"),
            ExpenseCategory::ClothingAndPersonalCare => String::from_str("Clothing and Personal Care"),
            ExpenseCategory::Travel => String::from_str("Travel"),
            ExpenseCategory::Education => String::from_str("Education"),
            ExpenseCategory::GiftsAndDonations => String::from_str("Gifts and Donations"),
            ExpenseCategory::SavingsAndInvestments => String::from_str("Savings and Investments"),
            ExpenseCategory::Miscellaneous => String::from_str("Miscellaneous"),
        }
    }

    /// The category offered under menu position `n` (1 through 12);
    /// anything else falls back to `Miscellaneous`.
    pub fn from_number(n: u32) -> (r: ExpenseCategory)
        ensures
            n == 1 ==> r == ExpenseCategory::FoodAndDining,
            n == 2 ==> r == ExpenseCategory::Transportation,
            n == 3 ==> r == ExpenseCategory::Utilities,
            n == 4 ==> r == ExpenseCategory::Housing,
            n == 5 ==> r == ExpenseCategory::Entertainment,
            n == 6 ==> r == ExpenseCategory::Healthcare,
            n == 7 ==> r == ExpenseCategory::ClothingAndPersonalCare,
            n == 8 ==> r == ExpenseCategory::Travel,
            n == 9 ==> r == ExpenseCategory::Education,
            n == 10 ==> r == ExpenseCategory::GiftsAndDonations,
            n == 11 ==> r == ExpenseCategory::SavingsAndInvestments,
            !(1 <= n <= 11) ==> r == ExpenseCategory::Miscellaneous,
    {
        match n {
            1 => ExpenseCategory::FoodAndDining,
            2 => ExpenseCategory::Transportation,
            3 => ExpenseCategory::Utilities,
            4 => ExpenseCategory::Housing,
            5 => ExpenseCategory::Entertainment,
            6 => ExpenseCategory::Healthcare,
            7 => ExpenseCategory::ClothingAndPersonalCare,
            8 => ExpenseCategory::Travel,
            9 => ExpenseCategory::Education,
            10 => ExpenseCategory::GiftsAndDonations,
            11 => ExpenseCategory::SavingsAndInvestments,
            _ => ExpenseCategory::Miscellaneous,
        }
    }
}

/// Every symbolic name maps back to the category it came from.
pub proof fn lemma_cat_name_round_trip(c: ExpenseCategory)
    ensures
        cat_of_name(cat_name(c)) == Some(c),
{
    reveal_strlit("FoodAndDining");
    reveal_strlit("Transportation");
    reveal_strlit("Utilities");
    reveal_strlit("Housing");
    reveal_strlit("Entertainment");
    reveal_strlit("Healthcare");
    reveal_strlit("ClothingAndPersonalCare");
    reveal_strlit("Travel");
    reveal_strlit("Education");
    reveal_strlit("GiftsAndDonations");
    reveal_strlit("SavingsAndInvestments");
    reveal_strlit("Miscellaneous");
    assert("FoodAndDining"@.len() == 13);
    assert("Transportation"@.len() == 14);
    assert("Utilities"@.len() == 9);
    assert("Housing"@.len() == 7);
    assert("Entertainment"@.len() == 13);
    assert("Healthcare"@.len() == 10);
    assert("ClothingAndPersonalCare"@.len() == 23);
    assert("Travel"@.len() == 6);
    assert("Education"@.len() == 9);
    assert("GiftsAndDonations"@.len() == 17);
    assert("SavingsAndInvestments"@.len() == 21);
    assert("Miscellaneous"@.len() == 13);
    assert("FoodAndDining"@[0] == 'F');
    assert("Entertainment"@[0] == 'E');
    assert("Miscellaneous"@[0] == 'M');
    assert("Utilities"@[0] == 'U');
    assert("Education"@[0] == 'E');
    assert("Utilities"@[1] == 't');
    assert("Education"@[1] == 'd');
    match c {
        ExpenseCategory::FoodAndDining => {
            assert(cat_of_name(cat_name(c)) == Some(c));
        },
        ExpenseCategory::Transportation => {
            assert(cat_of_name(cat_name(c)) == Some(c));
        },
        ExpenseCategory::Utilities => {
            assert(cat_of_name(cat_name(c)) == Some(c));
        },
        ExpenseCategory::Housing => {
            assert(cat_of_name(cat_name(c)) == Some(c));
        },
        ExpenseCategory::Entertainment => {
            assert(cat_of_name(cat_name(c)) == Some(c));
        },
        ExpenseCategory::Healthcare => {
            assert(cat_of_name(cat_name(c)) == Some(c));
        },
        ExpenseCategory::ClothingAndPersonalCare => {
            assert(cat_of_name(cat_name(c)) == Some(c));
        },
        ExpenseCategory::Travel => {
            assert(cat_of_name(cat_name(c)) == Some(c));
        },
        ExpenseCategory::Education => {
            assert(cat_of_name(cat_name(c)) == Some(c));
        },
        ExpenseCategory::GiftsAndDonations => {
            assert(cat_of_name(cat_name(c)) == Some(c));
        },
        ExpenseCategory::SavingsAndInvestments => {
            assert(cat_of_name(cat_name(c)) == Some(c));
        },
        ExpenseCategory::Miscellaneous => {
            assert(cat_of_name(cat_name(c)) == Some(c));
        },
    }
}

} // verus!
