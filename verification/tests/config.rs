use barley::ssh::{has_seed_settings, update_config};
use barley::{Error, Reply, Script, Step, Task};

#[test]
fn settings_for_seeds_are_found_by_their_first_line() {
    let cases = [
        "",
        "Host seed-*",
        "Host seed-*\n",
        "Host seed-*\r\n\tUser root\r\n",
        "Host seed-*\r",
        "Host other\nHost seed-*\n\tUser root\n",
        "Host other\n Host seed-*\n",
        "Host other\nHost seed-* \n",
        "Host other\nHost seed-*x\nlast",
        "Host other\n\nHost seed-*",
        "# Host seed-*\n",
        "Host seed-*\r\r\n",
        "\nHost seed-*\r\nrest",
    ];
    for config in cases {
        let expected = config.lines().any(|line| line == "Host seed-*");
        assert_eq!(has_seed_settings(config), expected, "{:?}", config);
    }
}

#[test]
fn a_configuration_with_the_settings_is_left_alone() {
    assert_eq!(update_config("/c", "/b", "Host seed-*\n\tUser root\n"), Vec::new());
}

#[test]
fn a_configuration_without_the_settings_is_copied_and_extended() {
    let complaint =
        "SSH config is missing a 'Host seed-*' line, but backup already exists.".to_string();
    assert_eq!(
        update_config("/h/.ssh/config", "/h/.ssh/config.barley-backup", "Host a\n\tUser b"),
        vec![
            Task::Vacant("/h/.ssh/config.barley-backup".to_string(), complaint.clone()),
            Task::Copy("/h/.ssh/config".to_string(), "/h/.ssh/config.barley-backup".to_string()),
            Task::Write(
                "/h/.ssh/config".to_string(),
                "Host a\n\tUser b\nHost seed-*\n\tUser root\n\tStrictHostKeyChecking yes\n"
                    .to_string()
            ),
        ]
    );
    assert_eq!(
        update_config("/c", "/b", "Host a\n")[2],
        Task::Write(
            "/c".to_string(),
            "Host a\nHost seed-*\n\tUser root\n\tStrictHostKeyChecking yes\n".to_string()
        )
    );
}

#[test]
fn an_empty_configuration_needs_no_copy() {
    assert_eq!(
        update_config("/c", "/b", ""),
        vec![Task::Write(
            "/c".to_string(),
            "\nHost seed-*\n\tUser root\n\tStrictHostKeyChecking yes\n".to_string()
        )]
    );
}

#[test]
fn a_copy_that_exists_stops_the_update() {
    let script = Script::new(update_config("/c", "/b", "x"));
    let (_, step) = script.resume(Reply::NotDirectory);
    assert_eq!(
        step,
        Step::Failed(Error::DataError(
            "SSH config is missing a 'Host seed-*' line, but backup already exists.".to_string()
        ))
    );
}
