use barley::{Data, Error, Reply, Request, Step};
use std::collections::HashSet;

#[test]
fn test_data() {
    let data = Data::new("/tmp");
    assert_eq!(data.file("foo"), "/tmp/foo");
}

#[test]
fn file_joins_as_paths_are_joined() {
    assert_eq!(Data::new("/tmp/").file("foo"), "/tmp/foo");
    assert_eq!(Data::new("/tmp").file("/etc/passwd"), "/etc/passwd");
    assert_eq!(Data::new("").file("foo"), "foo");
    assert_eq!(Data::new("/tmp").file(""), "/tmp/");
    assert_eq!(Data::new("rel/dir").file("a/b"), "rel/dir/a/b");
}

#[test]
fn read_write_and_ensure_name_the_path() {
    let data = Data::new("/srv/barley");
    assert_eq!(data.ensure(), barley::Task::Ensure("/srv/barley".to_string()));
    assert_eq!(data.read("otp"), barley::Task::Read("/srv/barley/otp".to_string()));
    assert_eq!(
        data.write("ip", "10.0.0.1"),
        barley::Task::Write("/srv/barley/ip".to_string(), "10.0.0.1".to_string())
    );
}

fn create(taken: &mut HashSet<String>, request: &Request) -> Reply {
    match request {
        Request::CreateDir(path) => {
            if taken.insert(path.clone()) {
                Reply::Done
            } else {
                Reply::Exists
            }
        }
        other => panic!("unexpected request {:?}", other),
    }
}

fn reserve(data: &Data, prefix: &str, taken: &mut HashSet<String>) -> String {
    let mut run = data.reserve(prefix);
    let mut step = run.begin();
    loop {
        match step {
            Step::Ask(request) => {
                let reply = create(taken, &request);
                let (next, said) = run.resume(reply);
                run = next;
                step = said;
            }
            Step::Finished => return run.name().unwrap(),
            Step::Failed(e) => panic!("{:?}", e),
        }
    }
}

#[test]
fn reserve_takes_the_first_free_name() {
    let data = Data::new("/d");
    let mut taken = HashSet::new();
    assert_eq!(reserve(&data, "seed", &mut taken), "seed-1");
    assert_eq!(reserve(&data, "seed", &mut taken), "seed-2");
    taken.insert("/d/seed-3".to_string());
    taken.insert("/d/seed-4".to_string());
    assert_eq!(reserve(&data, "seed", &mut taken), "seed-5");
    assert_eq!(reserve(&data, "node", &mut taken), "node-1");
    assert!(taken.contains("/d/seed-5"));
}

#[test]
fn reserve_asks_for_one_directory_at_a_time() {
    let data = Data::new("/d");
    let run = data.reserve("seed");
    assert_eq!(run.name(), None);
    assert_eq!(run.begin(), Step::Ask(Request::CreateDir("/d/seed-1".to_string())));
    let (run, step) = run.resume(Reply::Exists);
    assert_eq!(step, Step::Ask(Request::CreateDir("/d/seed-2".to_string())));
    let (run, step) = run.resume(Reply::Done);
    assert_eq!(step, Step::Finished);
    assert_eq!(run.name(), Some("seed-2".to_string()));
    let (run, step) = run.resume(Reply::Exists);
    assert_eq!(step, Step::Finished);
    assert_eq!(run.name(), Some("seed-2".to_string()));
}

#[test]
fn reserve_fails_at_once_on_any_other_failure() {
    let data = Data::new("/d");
    let run = data.reserve("seed");
    let (run, step) = run.resume(Reply::Failed("Permission denied".to_string()));
    assert_eq!(
        step,
        Step::Failed(Error::DataError("Failed to create /d/seed-1: Permission denied".to_string()))
    );
    assert_eq!(run.name(), None);
    let (_, step) = run.resume(Reply::Done);
    assert_eq!(step, Step::Failed(Error::IoError("no request is outstanding".to_string())));
}

#[test]
fn reservations_that_take_turns_end_with_different_names() {
    let data = Data::new("/d");
    let mut taken = HashSet::new();
    taken.insert("/d/seed-2".to_string());
    let n = 7;
    let mut runs: Vec<Option<barley::Reservation>> = (0..n).map(|_| Some(data.reserve("seed"))).collect();
    let mut names: Vec<String> = Vec::new();
    let mut turn = 0usize;
    while names.len() < n {
        let k = (turn * 5 + turn / 3) % n;
        turn += 1;
        let run = match runs[k].take() {
            Some(run) => run,
            None => continue,
        };
        match run.begin() {
            Step::Ask(request) => {
                let reply = create(&mut taken, &request);
                let (next, _) = run.resume(reply);
                runs[k] = Some(next);
            }
            Step::Finished => names.push(run.name().unwrap()),
            Step::Failed(e) => panic!("{:?}", e),
        }
    }
    let distinct: HashSet<&String> = names.iter().collect();
    assert_eq!(distinct.len(), n);
    assert!(!names.contains(&"seed-2".to_string()));
}
