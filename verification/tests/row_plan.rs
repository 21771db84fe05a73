use brush::row_plan::{row_plan, row_read, RowOutcome, RowRead, RowSchedule};

#[test]
fn row_read_decisions() {
    assert_eq!(row_read(3, Some(2), None), RowRead::Skip);
    assert_eq!(row_read(4, Some(2), None), RowRead::Read { chunk: None });
    assert_eq!(row_read(300, None, Some(2)), RowRead::Read { chunk: Some(1) });
    assert_eq!(row_read(512, None, Some(2)), RowRead::MissingChunk);
    assert_eq!(row_read(513, Some(2), Some(2)), RowRead::Skip);
}

#[test]
fn row_plan_sends_every_twentieth_and_at_the_end() {
    let finite = vec![true; 40];
    let (outs, stopped) = row_plan(40, None, None, &finite);
    assert!(!stopped);
    let sends: Vec<usize> = outs
        .iter()
        .enumerate()
        .filter(|(_, o)| **o == RowOutcome::Kept { emit: true })
        .map(|(i, _)| i)
        .collect();
    let expected: Vec<usize> = (1..20).map(|k| 2 * k).chain(std::iter::once(39)).collect();
    assert_eq!(sends, expected);
}

#[test]
fn row_plan_skips_drops_and_stops() {
    let finite = vec![true, false, true, true];
    let (outs, stopped) = row_plan(4, Some(2), None, &finite);
    assert!(!stopped);
    assert_eq!(
        outs,
        vec![
            RowOutcome::Kept { emit: false },
            RowOutcome::Skipped,
            RowOutcome::Kept { emit: true },
            RowOutcome::Skipped,
        ]
    );
    let finite = vec![true; 300];
    let (outs, stopped) = row_plan(300, None, Some(1), &finite);
    assert!(stopped);
    assert_eq!(outs.len(), 256);
}

#[test]
fn row_schedule_after_read() {
    let mut s = RowSchedule::new(100);
    assert_eq!(s.every, 5);
    assert!(!s.after_read(3, true));
    assert!(!s.after_read(5, false));
    assert!(s.after_read(5, true));
    assert_eq!(s.last_update, 5);
    assert!(s.after_read(99, true));
}
