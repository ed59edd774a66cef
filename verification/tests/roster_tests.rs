use textbatch::numbers::{check_guess, is_even};
use textbatch::roster::{Enrollment, ShowInfo, Student};

#[test]
fn student_keeps_name_and_changes_major() {
    let mut s = Student::new("Alice", "Computer Science");
    assert_eq!(s.name, "Alice");
    assert_eq!(s.get_major(), "Computer Science");
    s.set_major("Electrical Engineering");
    assert_eq!(s.get_major(), "Electrical Engineering");
    assert_eq!(s.name, "Alice");
}

#[test]
fn student_renders_name_and_major() {
    let s = Student::new("Bob", "Math");
    assert_eq!(s.show_info(), "Bob: Math");
}

#[test]
fn enrollment_shows_everyone_in_order() {
    let mut e = Enrollment::new();
    e.enroll(Student::new("Alice", "Computer Science"));
    e.enroll(Student::new("Bob", "Math"));
    assert_eq!(
        e.show_all(),
        "Alice: Computer Science\n\nBob: Math"
    );
}

#[test]
fn empty_enrollment_shows_nothing() {
    let e = Enrollment::new();
    assert_eq!(e.show_all(), "");
}

#[test]
fn parity_of_small_numbers() {
    assert!(is_even(12));
    assert!(is_even(0));
    assert!(is_even(-2));
    assert!(!is_even(3));
    assert!(!is_even(-7));
}

#[test]
fn guesses_compare_against_the_secret() {
    assert_eq!(check_guess(27, 27), 0);
    assert_eq!(check_guess(30, 27), 1);
    assert_eq!(check_guess(5, 27), -1);
}
