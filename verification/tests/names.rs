use barley::NameCounter;

#[test]
fn test_counter() {
    let mut c = NameCounter::new();
    assert_eq!(c.next(), Some(String::from("1")));
    for _ in 0..3000 {
        c.next();
    }
    assert_eq!(c.next(), Some(String::from("2be")));
}

#[test]
fn counter_passes_from_digits_to_letters() {
    let mut c = NameCounter::new();
    let mut last = String::new();
    for _ in 0..10 {
        last = c.next().unwrap();
    }
    assert_eq!(last, "a");
    for _ in 0..26 {
        last = c.next().unwrap();
    }
    assert_eq!(last, "10");
}

#[test]
fn counter_names_grow_as_numbers() {
    let mut c = NameCounter::new();
    let mut previous: u64 = 0;
    for _ in 0..2000 {
        let name = c.next().unwrap();
        let value = u64::from_str_radix(&name, 36).unwrap();
        assert!(value > previous);
        assert!(!name.starts_with('0'));
        previous = value;
    }
}
