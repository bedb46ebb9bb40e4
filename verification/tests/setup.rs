use barley::{Error, Layout, Reply, Request, Setup, Step};

fn ask(step: Step) -> Request {
    match step {
        Step::Ask(request) => request,
        other => panic!("{:?}", other),
    }
}

#[test]
fn nothing_is_set_up_without_the_directory_of_keys() {
    let setup = Setup::new(&Layout::new("/home/op"));
    assert_eq!(ask(setup.begin()), Request::Probe("/home/op/.ssh".to_string()));
    let (setup, step) = setup.resume(Reply::Absent);
    assert_eq!(
        step,
        Step::Failed(Error::DataError("Missing ~/.ssh. Run ssh-keygen -t ed25519.".to_string()))
    );
    let (_, step) = setup.resume(Reply::Writable);
    assert_eq!(step, Step::Failed(Error::IoError("no request is outstanding".to_string())));
}

#[test]
fn a_configuration_with_the_settings_leaves_the_stores_to_do() {
    let setup = Setup::new(&Layout::new("/home/op"));
    let (setup, step) = setup.resume(Reply::Writable);
    assert_eq!(ask(step), Request::Read("/home/op/.ssh/config".to_string()));
    let (setup, step) = setup.resume(Reply::Text("Host seed-*\n\tUser root\n".to_string()));
    assert_eq!(ask(step), Request::Probe("/home/op/.barley".to_string()));
    let (setup, step) = setup.resume(Reply::Absent);
    assert_eq!(ask(step), Request::CreateDir("/home/op/.barley".to_string()));
    let (setup, step) = setup.resume(Reply::Done);
    assert_eq!(ask(step), Request::Probe("/home/op/.barley/fields".to_string()));
    let (setup, step) = setup.resume(Reply::Writable);
    assert_eq!(ask(step), Request::Probe("/home/op/.barley/images".to_string()));
    let (_, step) = setup.resume(Reply::Writable);
    assert_eq!(step, Step::Finished);
}

#[test]
fn a_configuration_that_is_missing_is_written() {
    let setup = Setup::new(&Layout::new("/home/op"));
    let (setup, _) = setup.resume(Reply::ReadOnly);
    let (setup, step) = setup.resume(Reply::Failed("No such file or directory".to_string()));
    assert_eq!(
        ask(step),
        Request::Write(
            "/home/op/.ssh/config".to_string(),
            "\nHost seed-*\n\tUser root\n\tStrictHostKeyChecking yes\n".to_string()
        )
    );
    let (_, step) = setup.resume(Reply::Done);
    assert_eq!(ask(step), Request::Probe("/home/op/.barley".to_string()));
}

#[test]
fn a_configuration_without_the_settings_is_copied_first() {
    let setup = Setup::new(&Layout::new("/home/op"));
    let (setup, _) = setup.resume(Reply::Writable);
    let (setup, step) = setup.resume(Reply::Text("Host a\n".to_string()));
    assert_eq!(ask(step), Request::Probe("/home/op/.ssh/config.barley-backup".to_string()));
    let (setup, step) = setup.resume(Reply::Absent);
    assert_eq!(
        ask(step),
        Request::Copy(
            "/home/op/.ssh/config".to_string(),
            "/home/op/.ssh/config.barley-backup".to_string()
        )
    );
    let (_, step) = setup.resume(Reply::Done);
    assert_eq!(
        ask(step),
        Request::Write(
            "/home/op/.ssh/config".to_string(),
            "Host a\nHost seed-*\n\tUser root\n\tStrictHostKeyChecking yes\n".to_string()
        )
    );
    assert_eq!(Layout::new("/home/op").default_key(), "/home/op/.ssh/id_ed25519.pub");
}
