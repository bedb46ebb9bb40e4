use barley::{Data, Error, Image, Order, Task};

fn images(list: &[(&str, &str)]) -> Vec<Image> {
    list.iter().map(|(n, v)| Image::new(n, v)).collect()
}

#[test]
fn versions_are_ordered_by_day_and_then_by_number() {
    assert_eq!(Image::compare_versions("20230101", "20230101.1"), Some(Order::Less));
    assert_eq!(Image::compare_versions("20230101.1", "20230102"), Some(Order::Less));
    assert_eq!(Image::compare_versions("20230101", "20230102"), Some(Order::Less));
    assert_eq!(Image::compare_versions("20230102", "20230101.1"), Some(Order::Greater));
    assert_eq!(Image::compare_versions("20230101.3", "20230101.3"), Some(Order::Equal));
    assert_eq!(Image::compare_versions("20230101.9", "20230101.10"), Some(Order::Less));
}

#[test]
fn a_text_without_a_number_is_no_version() {
    assert_eq!(Image::compare_versions("beta", "20230101"), None);
    assert_eq!(Image::compare_versions("20230101", "beta"), None);
}

#[test]
fn a_new_version_on_a_day_that_has_versions_takes_the_next_number() {
    let store = images(&[("base", "20230101"), ("base", "20230101.3"), ("other", "20230101.7")]);
    assert_eq!(Image::generate_version_on("base", "20230101", &store), "20230101.4");
}

#[test]
fn a_new_version_is_the_day_itself_where_the_day_has_none() {
    let store = images(&[("base", "20221231"), ("other", "20230101")]);
    assert_eq!(Image::generate_version_on("base", "20230101", &store), "20230101");
    assert_eq!(Image::generate_version_on("base", "20230101", &Vec::new()), "20230101");
}

#[test]
fn a_new_version_after_the_day_itself_is_its_first_addition() {
    let store = images(&[("base", "20230101")]);
    assert_eq!(Image::generate_version_on("base", "20230101", &store), "20230101.1");
}

#[test]
fn a_new_version_counts_numbers_as_numbers() {
    let store = images(&[("base", "20230101"), ("base", "20230101.9"), ("base", "20230101.10")]);
    assert_eq!(Image::generate_version_on("base", "20230101", &store), "20230101.11");
    let store = images(&[("base", "20230101.10"), ("base", "20230101.9")]);
    assert_eq!(Image::generate_version_on("base", "20230101", &store), "20230101.11");
    let store = images(&[("base", "20230101.3")]);
    assert_eq!(Image::generate_version_on("base", "20230101", &store), "20230101.4");
    let store = images(&[("base", "20230101.007"), ("base", "20230101.0")]);
    assert_eq!(Image::generate_version_on("base", "20230101", &store), "20230101.8");
    let store = images(&[("base", "20230101.99"), ("base", "20230101.0100")]);
    assert_eq!(Image::generate_version_on("base", "20230101", &store), "20230101.101");
}

#[test]
fn a_new_version_counts_beyond_any_machine_number() {
    let store = images(&[
        ("base", "20230101.18446744073709551615"),
        ("base", "20230101.340282366920938463463374607431768211455"),
        ("base", "20230101.99999999999999999999"),
    ]);
    assert_eq!(
        Image::generate_version_on("base", "20230101", &store),
        "20230101.340282366920938463463374607431768211456"
    );
    let store = images(&[("base", "20230101.999999999999999999999999999999999999999999")]);
    assert_eq!(
        Image::generate_version_on("base", "20230101", &store),
        "20230101.1000000000000000000000000000000000000000000"
    );
}

#[test]
fn versions_without_a_number_of_the_day_do_not_count() {
    let store = images(&[
        ("base", "20230101-rc"),
        ("base", "20230101.x"),
        ("base", "20230101."),
        ("base", "20230101.1.2"),
        ("base", "20230101.-5"),
        ("base", "202301011"),
        ("base", "2023010"),
    ]);
    assert_eq!(Image::generate_version_on("base", "20230101", &store), "20230101");
}

#[test]
fn a_new_version_is_none_that_the_store_holds() {
    let mut store = Vec::new();
    for _ in 0..25 {
        let version = Image::generate_version_on("base", "20230101", &store);
        assert!(!store.contains(&Image::new("base", &version)));
        store.push(Image::new("base", &version));
    }
    assert_eq!(store[0].version, "20230101");
    assert_eq!(store[24].version, "20230101.24");
}

#[test]
fn generate_version_today_is_the_day_or_an_addition_to_it() {
    let none = Image::generate_version("base", &Vec::new());
    assert!(!none.is_empty());
    let store = images(&[("base", none.as_str())]);
    assert_eq!(Image::generate_version("base", &store), format!("{}.1", none));
}

#[test]
fn a_version_without_an_addition_comes_before_the_same_with_one() {
    assert_eq!(Image::compare_versions("20230101", "20230101.0"), Some(Order::Less));
    assert_eq!(Image::compare_versions("20230101.0", "20230101"), Some(Order::Greater));
    assert_eq!(Image::compare_versions("20230101", "20230101"), Some(Order::Equal));
    assert_eq!(Image::compare_versions("20230101.0", "20230101.0.0"), Some(Order::Equal));
    assert_eq!(Image::compare_versions("1", "1.0"), Some(Order::Less));
}

#[test]
fn file_names_are_names_with_versions() {
    assert_eq!(Image::from_metadata(true, "base_20230101.tar.zst"), Some(Image::new("base", "20230101")));
    assert_eq!(Image::from_metadata(true, "base.tar.zst"), Some(Image::new("base", "")));
    assert_eq!(Image::from_metadata(true, "my_base_1.2.tar.zst"), Some(Image::new("my", "base_1.2")));
    assert_eq!(Image::from_metadata(true, ".tar.zst"), Some(Image::new("", "")));
    assert_eq!(Image::from_metadata(true, "base_1.tar.gz"), None);
    assert_eq!(Image::from_metadata(true, "base_1"), None);
    assert_eq!(Image::from_metadata(false, "base_1.tar.zst"), None);
    assert_eq!(Image::new("base", "20230101").file_name(), "base_20230101.tar.zst");
    assert_eq!(
        Image::new("base", "1").path(&Data::new("/home/op/.barley/images")),
        "/home/op/.barley/images/base_1.tar.zst"
    );
}

#[test]
fn latest_is_the_greatest_version_of_the_name() {
    let store = images(&[
        ("base", "20230101"),
        ("other", "20240101"),
        ("base", "20230102"),
        ("base", "20230101.1"),
    ]);
    assert_eq!(Image::latest(&store, "base"), Ok(Some(Image::new("base", "20230102"))));
    assert_eq!(Image::latest(&store, "other"), Ok(Some(Image::new("other", "20240101"))));
    assert_eq!(Image::latest(&store, "none"), Ok(None));
    assert_eq!(Image::latest(&Vec::new(), "base"), Ok(None));
}

#[test]
fn latest_of_equal_versions_is_the_last() {
    let store = images(&[("base", "1.0"), ("base", "1.0.0")]);
    assert_eq!(Image::latest(&store, "base"), Ok(Some(Image::new("base", "1.0.0"))));
    let store = images(&[("base", "1.0"), ("base", "1")]);
    assert_eq!(Image::latest(&store, "base"), Ok(Some(Image::new("base", "1.0"))));
    let store = images(&[("base", "20230101"), ("base", "20230101.0")]);
    assert_eq!(Image::latest(&store, "base"), Ok(Some(Image::new("base", "20230101.0"))));
}

#[test]
fn latest_fails_on_versions_that_cannot_be_compared() {
    let store = images(&[("base", "20230101"), ("base", "beta")]);
    assert_eq!(
        Image::latest(&store, "base"),
        Err(Error::DataError("Versions of base cannot be compared".to_string()))
    );
}

#[test]
fn import_refuses_what_is_no_image() {
    let home = Data::new("/img");
    let store = images(&[("base", "1")]);
    assert_eq!(
        Image::import_on("/tmp/base_2.zip", true, "base_2.zip", "20230101", &store, &home),
        Err(Error::DataError("/tmp/base_2.zip is not a valid image file".to_string()))
    );
    assert_eq!(
        Image::import_on("/tmp/base_2.tar.zst", false, "base_2.tar.zst", "20230101", &store, &home),
        Err(Error::DataError("/tmp/base_2.tar.zst is not a valid image file".to_string()))
    );
}

#[test]
fn import_refuses_a_version_that_exists() {
    let home = Data::new("/img");
    let store = images(&[("base", "1"), ("base", "2")]);
    assert_eq!(
        Image::import_on("/tmp/base_2.tar.zst", true, "base_2.tar.zst", "20230101", &store, &home),
        Err(Error::DataError("Image version 2 already exists".to_string()))
    );
}

#[test]
fn import_without_a_version_finds_a_free_one() {
    let home = Data::new("/img");
    let store = images(&[("n", "20230101"), ("n", "20230101.9"), ("n", "20230101.10")]);
    assert_eq!(
        Image::import_on("/tmp/n.tar.zst", true, "n.tar.zst", "20230101", &store, &home),
        Ok((
            Image::new("n", "20230101.11"),
            Task::Link("/tmp/n.tar.zst".to_string(), "/img/n_20230101.11.tar.zst".to_string())
        ))
    );
}

#[test]
fn import_links_the_file_into_the_store() {
    let home = Data::new("/img");
    let store = images(&[("base", "1"), ("base", "20230101")]);
    assert_eq!(
        Image::import_on("/tmp/base_3.tar.zst", true, "base_3.tar.zst", "20230101", &store, &home),
        Ok((
            Image::new("base", "3"),
            Task::Link("/tmp/base_3.tar.zst".to_string(), "/img/base_3.tar.zst".to_string())
        ))
    );
    assert_eq!(
        Image::import_on("/tmp/base.tar.zst", true, "base.tar.zst", "20230101", &store, &home),
        Ok((
            Image::new("base", "20230101.1"),
            Task::Link("/tmp/base.tar.zst".to_string(), "/img/base_20230101.1.tar.zst".to_string())
        ))
    );
    assert_eq!(
        Image::import_on("/tmp/new.tar.zst", true, "new.tar.zst", "20230101", &store, &home),
        Ok((
            Image::new("new", "20230101"),
            Task::Link("/tmp/new.tar.zst".to_string(), "/img/new_20230101.tar.zst".to_string())
        ))
    );
}

#[test]
fn import_today_refuses_what_is_no_image() {
    let home = Data::new("/img");
    assert_eq!(
        Image::import("/tmp/x.txt", true, "x.txt", &Vec::new(), &home),
        Err(Error::DataError("/tmp/x.txt is not a valid image file".to_string()))
    );
}
