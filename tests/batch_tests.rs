use batch_fetch::batch::{success_rate_tenths, Batch, TaskState};
use batch_fetch::failure::Failure;
use batch_fetch::naming::{destination_name, last_segment, task_destination};

#[test]
fn active_never_exceeds_limit() {
    for n in 0..9usize {
        for k in 1..5usize {
            let mut b = Batch::new(n, k);
            let mut started = vec![0u32; n];
            let mut running: Vec<usize> = Vec::new();
            loop {
                while let Some(i) = b.start_next() {
                    started[i] += 1;
                    running.push(i);
                    assert!(b.active_count() <= k);
                }
                assert!(b.active_count() <= k);
                match running.pop() {
                    Some(i) => assert!(b.complete(i, Ok(()))),
                    None => break,
                }
            }
            assert!(b.is_finished());
            assert!(started.iter().all(|&c| c == 1));
        }
    }
}

#[test]
fn start_respects_slots() {
    let mut b = Batch::new(5, 2);
    assert_eq!(b.start_next(), Some(0));
    assert_eq!(b.start_next(), Some(1));
    assert_eq!(b.start_next(), None);
    assert_eq!(b.active_count(), 2);
    assert!(b.complete(1, Err(Failure::Transfer("reset".to_string()))));
    assert_eq!(b.start_next(), Some(2));
    assert_eq!(b.state(0), TaskState::Running);
    assert_eq!(b.state(1), TaskState::Failed);
    assert_eq!(b.state(3), TaskState::Queued);
}

#[test]
fn task_ends_once() {
    let mut b = Batch::new(2, 1);
    assert!(!b.complete(0, Ok(())));
    assert_eq!(b.start_next(), Some(0));
    assert!(b.complete(0, Ok(())));
    assert!(!b.complete(0, Err(Failure::Configuration)));
    assert!(!b.complete(7, Ok(())));
    assert_eq!(b.state(0), TaskState::Done);
    assert_eq!(b.completed_count(), 1);
}

#[test]
fn one_failure_among_three() {
    let mut b = Batch::new(3, 10);
    assert_eq!(b.start_next(), Some(0));
    assert_eq!(b.start_next(), Some(1));
    assert_eq!(b.start_next(), Some(2));
    assert!(b.complete(1, Err(Failure::ProbeStatus(404))));
    assert!(b.complete(2, Ok(())));
    assert!(b.complete(0, Ok(())));
    assert_eq!(b.state(0), TaskState::Done);
    assert_eq!(b.state(2), TaskState::Done);
    let t = b.into_tally().ok().unwrap();
    assert_eq!(t.success_count, 2);
    assert_eq!(t.failure_count, 1);
    assert_eq!(t.failures.len(), 1);
    assert_eq!(t.failures[0].0, 1);
    assert!(matches!(t.failures[0].1, Failure::ProbeStatus(404)));
    assert_eq!(t.success_rate_tenths(), 667);
}

#[test]
fn tally_waits_for_all_tasks() {
    let mut b = Batch::new(2, 2);
    b.start_next();
    let b = match b.into_tally() {
        Ok(_) => panic!("tally before the end"),
        Err(b) => b,
    };
    assert_eq!(b.total(), 2);
}

#[test]
fn snapshot_counts_terminal_tasks() {
    let mut b = Batch::new(4, 2);
    assert_eq!(b.snapshot().completed_count, 0);
    b.start_next();
    b.start_next();
    assert!(b.record_progress(0, 512, Some(1024)));
    assert!(!b.record_progress(3, 1, None));
    let s = b.snapshot();
    assert_eq!(s.completed_count, 0);
    assert_eq!(s.total_count, 4);
    assert_eq!(s.entries[0].bytes_written, 512);
    assert_eq!(s.entries[0].expected_size, Some(1024));
    assert_eq!(s.entries[1].bytes_written, 0);
    b.complete(0, Ok(()));
    assert_eq!(b.snapshot().completed_count, 1);
    b.complete(1, Err(Failure::Filesystem("denied".to_string())));
    assert_eq!(b.snapshot().completed_count, 2);
    assert!(!b.record_progress(1, 9, None));
}

#[test]
fn success_rate_values() {
    assert_eq!(success_rate_tenths(0, 0), 0);
    assert_eq!(success_rate_tenths(3, 0), 1000);
    assert_eq!(success_rate_tenths(0, 3), 0);
    assert_eq!(success_rate_tenths(1, 1), 500);
    assert_eq!(success_rate_tenths(2, 1), 667);
    assert_eq!(success_rate_tenths(1, 2), 333);
    assert_eq!(success_rate_tenths(u64::MAX, u64::MAX), 500);
}

#[test]
fn empty_batch_is_finished() {
    let b = Batch::new(0, 1);
    assert!(b.is_finished());
    let t = b.into_tally().ok().unwrap();
    assert_eq!(t.success_count, 0);
    assert_eq!(t.success_rate_tenths(), 0);
}

#[test]
fn destination_from_locator_path() {
    let n = task_destination("https://example.com/pub/archive.tar.gz?x=1", 0, 2, None).unwrap();
    assert_eq!(n, "archive.tar.gz");
    let n = task_destination("https://example.com/dir/", 0, 1, None).unwrap();
    assert_eq!(n, "");
    let n = task_destination("mailto:someone@example.com", 4, 5, None).unwrap();
    assert_eq!(n, "file_5");
}

#[test]
fn destination_from_chosen_name() {
    assert_eq!(task_destination("https://example.com/a.bin", 0, 1, Some("out.bin")).unwrap(), "out.bin");
    assert_eq!(task_destination("https://example.com/a.bin", 1, 3, Some("out")).unwrap(), "out_2");
}

#[test]
fn malformed_locator_is_configuration_failure() {
    assert!(matches!(task_destination("not a locator", 0, 1, None), Err(Failure::Configuration)));
    assert!(matches!(task_destination("", 0, 1, Some("x")), Err(Failure::Configuration)));
}

#[test]
fn last_segment_values() {
    assert_eq!(last_segment("/a/b/c.txt"), Some("c.txt".to_string()));
    assert_eq!(last_segment("/"), Some(String::new()));
    assert_eq!(last_segment("/only"), Some("only".to_string()));
    assert_eq!(last_segment("no-slash"), None);
    assert_eq!(last_segment(""), None);
}

#[test]
fn destination_name_values() {
    assert_eq!(destination_name(0, 1, None, Some("x.iso".to_string())), "x.iso");
    assert_eq!(destination_name(2, 3, None, None), "file_3");
    assert_eq!(destination_name(9, 12, Some("part"), Some("ignored".to_string())), "part_10");
}
