use exercises::arith::{self, fibonacci_calc, max_value, swap};
use exercises::custom_sp::CustomSP;
use exercises::guess::{judge_guess, Verdict};
use exercises::lookup::{find_user, optional_number, user_id, Adult, PowerState};
use exercises::records::{database, Bill};
use exercises::stats::calc_mode;
use exercises::text::{match_this, optimized_transformer, same_text, str_concat, transformer};

#[test]
fn adds_two_numbers() {
    assert_eq!(arith::add(8, 9), 17);
    assert_eq!(arith::add(-8, 3), -5);
}

#[test]
fn fibonacci_values() {
    assert_eq!(fibonacci_calc(0), 0);
    assert_eq!(fibonacci_calc(1), 1);
    assert_eq!(fibonacci_calc(10), 55);
    assert_eq!(fibonacci_calc(20), 6765);
}

#[test]
fn swaps_two_places() {
    let mut a = 10;
    let mut b = 12;
    swap(&mut a, &mut b);
    assert_eq!((a, b), (12, 10));
}

#[test]
fn finds_largest_value() {
    assert_eq!(max_value(&[1, 2, 10, 3, 5, 6]), 10);
    assert_eq!(max_value(&[-3]), -3);
    assert_eq!(max_value(&[-3, -1, -2]), -1);
}

#[test]
fn mode_of_values() {
    assert_eq!(calc_mode(&[1, 2, 2, 3, 3, 3]), 3);
    assert_eq!(calc_mode(&[]), 0);
    assert_eq!(calc_mode(&[-5]), -5);
    assert_eq!(calc_mode(&[4, 7, 7, 4]), 4);
}

#[test]
fn pig_latin_in_place() {
    let mut w = String::from("first");
    transformer(&mut w);
    assert_eq!(w, "irst-fay");
    let mut v = String::from("Apple");
    transformer(&mut v);
    assert_eq!(v, "Apple-hay");
    let mut e = String::new();
    transformer(&mut e);
    assert_eq!(e, "");
}

#[test]
fn pig_latin_returned() {
    assert_eq!(optimized_transformer("first"), "irst-fay");
    assert_eq!(optimized_transformer("apple"), "apple-hay");
    assert_eq!(optimized_transformer(""), "");
    assert_eq!(optimized_transformer("b"), "-bay");
}

#[test]
fn joins_strings() {
    assert_eq!(str_concat("hello", " world"), "hello world");
    assert_eq!(str_concat("", ""), "");
}

#[test]
fn compares_text() {
    assert!(same_text("sam", "sam"));
    assert!(!same_text("sam", "Sam"));
    assert!(!same_text("sam", "samuel"));
}

#[test]
fn fixed_age_message() {
    assert_eq!(match_this(), "I really dont care");
}

#[test]
fn user_lookup() {
    assert_eq!(optional_number(), Some(18));
    assert_eq!(find_user("katie"), Some(9));
    assert_eq!(find_user("SAM"), Some(1));
    assert_eq!(find_user("Matt"), Some(6));
    assert_eq!(find_user("bob"), None);
    assert_eq!(user_id("Sam"), None);
    assert_eq!(user_id("sam"), Some(1));
}

#[test]
fn power_keywords() {
    assert_eq!(PowerState::new("  Reboot\n"), Some(PowerState::Reboot));
    assert_eq!(PowerState::new("SHUTDOWN"), Some(PowerState::Shutdown));
    assert_eq!(PowerState::new("off"), Some(PowerState::Off));
    assert_eq!(PowerState::new("nap"), None);
    assert_eq!(PowerState::from_keyword("Sleep"), None);
    assert_eq!(PowerState::Hibernate.message(), "Hibernating...");
}

#[test]
fn adults_only() {
    assert!(Adult::new("Sally".to_owned(), 21).is_ok());
    assert_eq!(
        Adult::new("Iyida".to_owned(), 17).unwrap_err(),
        "User Not an Adult"
    );
}

#[test]
fn records_hold_their_fields() {
    let b = Bill::new("rent".to_owned(), 900);
    assert_eq!(b.name(), "rent");
    assert_eq!(b.amount(), 900);
    let db = database();
    assert_eq!(db.len(), 1);
    assert!(db.contains_key(&1));
}

#[test]
fn guesses_are_judged() {
    assert_eq!(judge_guess(3, 50), Verdict::TooSmall);
    assert_eq!(judge_guess(70, 50), Verdict::TooLarge);
    assert_eq!(judge_guess(50, 50), Verdict::Correct);
    assert_eq!(Verdict::Correct.message(), "Correct! You Win!!!");
}

#[test]
fn smart_pointer_derefs_to_vector() {
    let mut p: CustomSP<u8> = CustomSP::new();
    assert!(p.is_empty());
    p.push(3);
    assert_eq!(p.len(), 1);
}
