use expense_tracker::category::ExpenseCategory;
use expense_tracker::codec::{load_string, save_string};
use expense_tracker::expense::{Expense, ExpenseList};

fn fixed_expense(id: u32, amount: u32, category: ExpenseCategory, description: &str) -> Expense {
    Expense {
        id,
        amount,
        category,
        description: String::from(description),
        date: String::from("2024-01-02T03:04:05+00:00"),
    }
}

#[test]
fn save_empty_list_exact_text() {
    let list = ExpenseList::new();
    assert_eq!(save_string(&list), "{\"expenses\":[],\"current_id\":0}");
}

#[test]
fn save_one_record_exact_text() {
    let list = ExpenseList::from_parts(
        vec![fixed_expense(1, 200, ExpenseCategory::FoodAndDining, "lunch")],
        1,
    );
    assert_eq!(
        save_string(&list),
        "{\"expenses\":[{\"id\":1,\"amount\":200,\"category\":\"FoodAndDining\",\
         \"description\":\"lunch\",\"date\":\"2024-01-02T03:04:05+00:00\"}],\"current_id\":1}"
    );
}

#[test]
fn round_trip_reproduces_the_list() {
    let mut list = ExpenseList::new();
    list.add(ExpenseCategory::FoodAndDining, 200, String::from("lunch"));
    list.add(ExpenseCategory::Travel, 100, String::from("coffee \"to go\"\n"));
    list.remove(1);
    let text = save_string(&list);
    let back = load_string(&text);
    assert_eq!(back.len(), list.len());
    assert_eq!(back.get_current_id(), list.get_current_id());
    for (a, b) in list.expenses.iter().zip(back.expenses.iter()) {
        assert_eq!(a.id, b.id);
        assert_eq!(a.amount, b.amount);
        assert_eq!(a.category, b.category);
        assert_eq!(a.description, b.description);
        assert_eq!(a.date, b.date);
    }
}

#[test]
fn round_trip_with_escaped_description() {
    let list = ExpenseList::from_parts(
        vec![fixed_expense(
            3,
            9,
            ExpenseCategory::Miscellaneous,
            "a\"b\\c\nd\te\u{1}f",
        )],
        5,
    );
    let text = save_string(&list);
    let back = load_string(&text);
    assert_eq!(back.len(), 1);
    assert_eq!(back.get_current_id(), 5);
    assert_eq!(back.expenses[0].description, "a\"b\\c\nd\te\u{1}f");
}

#[test]
fn load_garbage_yields_empty_list() {
    let back = load_string("not json at all");
    assert_eq!(back.len(), 0);
    assert_eq!(back.get_current_id(), 0);
}

#[test]
fn load_empty_text_yields_empty_list() {
    let back = load_string("");
    assert_eq!(back.len(), 0);
    assert_eq!(back.get_current_id(), 0);
}

#[test]
fn load_wrong_shape_yields_empty_list() {
    let back = load_string("{\"expenses\":{},\"current_id\":1}");
    assert_eq!(back.len(), 0);
    assert_eq!(back.get_current_id(), 0);
}

#[test]
fn load_unknown_category_yields_empty_list() {
    let back = load_string(
        "{\"expenses\":[{\"id\":1,\"amount\":2,\"category\":\"Groceries\",\
         \"description\":\"x\",\"date\":\"2024-01-02T03:04:05+00:00\"}],\"current_id\":1}",
    );
    assert_eq!(back.len(), 0);
    assert_eq!(back.get_current_id(), 0);
}

#[test]
fn load_bad_date_yields_empty_list() {
    let back = load_string(
        "{\"expenses\":[{\"id\":1,\"amount\":2,\"category\":\"Travel\",\
         \"description\":\"x\",\"date\":\"yesterday\"}],\"current_id\":1}",
    );
    assert_eq!(back.len(), 0);
    assert_eq!(back.get_current_id(), 0);
}

#[test]
fn load_leading_zero_counter_yields_empty_list() {
    let back = load_string("{\"expenses\":[],\"current_id\":007}");
    assert_eq!(back.len(), 0);
    assert_eq!(back.get_current_id(), 0);
}

#[test]
fn load_oversized_number_yields_empty_list() {
    let back = load_string("{\"expenses\":[],\"current_id\":4294967296}");
    assert_eq!(back.len(), 0);
    assert_eq!(back.get_current_id(), 0);
}

#[test]
fn load_keeps_counter_of_empty_list() {
    let back = load_string("{\"expenses\":[],\"current_id\":7}");
    assert_eq!(back.len(), 0);
    assert_eq!(back.get_current_id(), 7);
}

#[test]
fn load_two_records() {
    let text = "{\"expenses\":[{\"id\":1,\"amount\":200,\"category\":\"FoodAndDining\",\
                \"description\":\"lunch\",\"date\":\"2024-01-02T03:04:05+00:00\"},\
                {\"id\":2,\"amount\":100,\"category\":\"Travel\",\
                \"description\":\"bus\",\"date\":\"2024-01-02T03:04:06+00:00\"}],\"current_id\":2}";
    let back = load_string(text);
    assert_eq!(back.len(), 2);
    assert_eq!(back.get_current_id(), 2);
    assert_eq!(back.expenses[0].amount, 200);
    assert_eq!(back.expenses[1].category, ExpenseCategory::Travel);
    assert_eq!(save_string(&back), text);
}
