use expense_tracker::category::ExpenseCategory;
use expense_tracker::expense::{Expense, ExpenseList};

#[test]
fn list_tests() {
    let mut expense_list = ExpenseList::new();
    expense_list.add(
        ExpenseCategory::FoodAndDining,
        200,
        String::from("Test Description"),
    );
    expense_list.add(
        ExpenseCategory::FoodAndDining,
        100,
        String::from("Test Description"),
    );

    expense_list.view_all();

    assert_eq!(expense_list.len(), 2);
    assert_eq!(expense_list.get_total_expense(), 300);

    // Removal goes by record id and ids are assigned from 1, so id 1 is
    // the first record; removing it leaves the second.
    expense_list.remove(1);
    assert_eq!(1, expense_list.len());
    assert_eq!(100, expense_list.get_total_expense());
    assert_eq!(2, expense_list.get_current_id());
}

#[test]
fn expense_new_test() {
    let expense = Expense::new(
        1,
        ExpenseCategory::FoodAndDining,
        100,
        String::from("Test Description"),
    );

    assert_eq!(100, expense.amount);
    assert_eq!(1, expense.id);
    assert_eq!("Test Description", expense.description);
}

#[test]
fn expense_display_test() {
    let expense = Expense::new(
        1,
        ExpenseCategory::FoodAndDining,
        100,
        String::from("Test Description"),
    );

    let time = chrono::Utc::now().format("%x %I:%M %P");
    let str = format!("\u{9f3}100 for Food And Dining on {time} (ID: 1)");
    assert_eq!(str, expense.formatted());
}

#[test]
fn two_adds_then_totals() {
    let mut list = ExpenseList::new();
    let id1 = list.add(ExpenseCategory::FoodAndDining, 200, String::from("lunch"));
    let id2 = list.add(ExpenseCategory::FoodAndDining, 100, String::from("coffee"));
    assert_eq!(id1, 1);
    assert_eq!(id2, 2);
    assert_eq!(list.len(), 2);
    assert_eq!(list.get_total_expense(), 300);
    assert_eq!(list.expenses[0].id, 1);
    assert_eq!(list.expenses[1].id, 2);
}

#[test]
fn remove_then_add_does_not_reuse_id() {
    let mut list = ExpenseList::new();
    list.add(ExpenseCategory::FoodAndDining, 200, String::from("lunch"));
    list.add(ExpenseCategory::FoodAndDining, 100, String::from("coffee"));
    let in_bounds = list.remove(1);
    assert!(in_bounds);
    assert_eq!(list.len(), 1);
    assert_eq!(list.get_total_expense(), 100);
    let id3 = list.add(ExpenseCategory::Travel, 50, String::from("bus"));
    assert_eq!(id3, 3);
}

#[test]
fn remove_out_of_bounds_reports_and_keeps_list() {
    let mut list = ExpenseList::new();
    list.add(ExpenseCategory::FoodAndDining, 200, String::from("lunch"));
    list.add(ExpenseCategory::FoodAndDining, 100, String::from("coffee"));
    let in_bounds = list.remove(999);
    assert!(!in_bounds);
    assert_eq!(list.len(), 2);
    assert_eq!(list.get_total_expense(), 300);
    assert_eq!(list.get_current_id(), 2);
}

#[test]
fn remove_absent_in_range_id_is_silent_no_op() {
    let mut list = ExpenseList::new();
    list.add(ExpenseCategory::FoodAndDining, 200, String::from("lunch"));
    list.add(ExpenseCategory::FoodAndDining, 100, String::from("coffee"));
    assert!(list.remove(1));
    assert!(list.remove(1));
    assert_eq!(list.len(), 1);
    assert_eq!(list.get_current_id(), 2);
}

#[test]
fn empty_list_total_is_zero() {
    let list = ExpenseList::new();
    assert_eq!(list.len(), 0);
    assert_eq!(list.get_total_expense(), 0);
    assert_eq!(list.get_current_id(), 0);
}

#[test]
fn view_all_lines() {
    let mut list = ExpenseList::new();
    list.add(ExpenseCategory::Travel, 42, String::from("train"));
    list.add(ExpenseCategory::Housing, 7, String::from("bulb"));
    let lines = list.view_all();
    assert_eq!(lines.len(), 2);
    assert!(lines[0].starts_with("1: \u{9f3}42 for Travel on "));
    assert!(lines[0].ends_with("(ID: 1)"));
    assert!(lines[1].starts_with("2: \u{9f3}7 for Housing on "));
    assert!(lines[1].ends_with("(ID: 2)"));
}

#[test]
fn formatted_falls_back_to_raw_date_text() {
    let expense = Expense {
        id: 4,
        amount: 12,
        category: ExpenseCategory::Education,
        description: String::from("book"),
        date: String::from("sometime"),
    };
    assert_eq!(expense.formatted(), "\u{9f3}12 for Education on sometime (ID: 4)");
}
