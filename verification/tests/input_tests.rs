use expense_tracker::category::ExpenseCategory;
use expense_tracker::menu::{category_menu_text, menu_action, MenuAction};
use expense_tracker::numbers::{parse_u32, validate_choice};

#[test]
fn test_valid_choice() {
    assert_eq!(validate_choice("5", 1, 10), Ok(true));
}

#[test]
fn test_invalid_choice() {
    assert_eq!(validate_choice("15", 1, 10), Ok(false));
}

#[test]
fn test_invalid_input() {
    assert!(validate_choice("abc", 1, 10).is_err());
}

#[test]
fn parse_u32_reads_plain_decimals() {
    assert_eq!(parse_u32("0"), Ok(0));
    assert_eq!(parse_u32("007"), Ok(7));
    assert_eq!(parse_u32("4294967295"), Ok(4294967295));
    assert!(parse_u32("4294967296").is_err());
    assert!(parse_u32("").is_err());
    assert!(parse_u32("12a").is_err());
    assert!(parse_u32("-3").is_err());
}

#[test]
fn parse_u32_accepts_one_leading_plus() {
    assert_eq!(parse_u32("+5"), Ok(5));
    assert_eq!(parse_u32("+0"), Ok(0));
    assert_eq!(validate_choice("+5", 1, 10), Ok(true));
    assert!(parse_u32("+").is_err());
    assert!(parse_u32("++5").is_err());
    assert!(parse_u32("5+").is_err());
}

#[test]
fn menu_choices_map_to_actions() {
    assert_eq!(menu_action(1), MenuAction::AddExpense);
    assert_eq!(menu_action(2), MenuAction::ViewAll);
    assert_eq!(menu_action(3), MenuAction::CalculateTotal);
    assert_eq!(menu_action(4), MenuAction::DeleteExpense);
    assert_eq!(menu_action(5), MenuAction::Exit);
    assert_eq!(menu_action(0), MenuAction::Invalid);
    assert_eq!(menu_action(6), MenuAction::Invalid);
}

#[test]
fn category_numbers_map_in_menu_order() {
    assert_eq!(ExpenseCategory::from_number(1), ExpenseCategory::FoodAndDining);
    assert_eq!(ExpenseCategory::from_number(7), ExpenseCategory::ClothingAndPersonalCare);
    assert_eq!(ExpenseCategory::from_number(12), ExpenseCategory::Miscellaneous);
    assert_eq!(ExpenseCategory::from_number(13), ExpenseCategory::Miscellaneous);
}

#[test]
fn category_labels_match_display_names() {
    assert_eq!(ExpenseCategory::FoodAndDining.label(), "Food And Dining");
    assert_eq!(ExpenseCategory::GiftsAndDonations.label(), "Gifts and Donations");
    assert_eq!(ExpenseCategory::Travel.name(), "Travel");
    assert_eq!(ExpenseCategory::SavingsAndInvestments.name(), "SavingsAndInvestments");
}

#[test]
fn category_menu_lists_all_twelve() {
    let text = category_menu_text();
    let expected = "1: Food And Dining\n2: Transportation 3: Utilities 4: Housing\n\
                    5: Entertainment 6: Healthcare 7: Clothing and Personal Care\n\
                    8: Travel 9: Education 10: Gifts and Donations\n\
                    11: Savings and Investments 12: Miscellaneous\n";
    assert_eq!(text, expected);
}
