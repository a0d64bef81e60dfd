use rust_predictions::person::Person;

#[test]
fn new_keeps_the_given_fields() {
    let p = Person::new("Bob".to_string(), 25, "bob@example.com".to_string());
    assert_eq!(p.name, "Bob");
    assert_eq!(p.age, 25);
    assert_eq!(p.email, "bob@example.com");
}

#[test]
fn a_birthday_adds_one_year() {
    let mut p = Person::new("Alice".to_string(), 30, "alice@example.com".to_string());
    p.have_birthday();
    assert_eq!(p.age, 31);
    assert_eq!(p.name, "Alice");
    assert_eq!(p.email, "alice@example.com");
}
