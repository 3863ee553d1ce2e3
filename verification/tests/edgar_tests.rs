use momentum::edgar::{
    add_submissions, assemble_backfill, find_submission, group_targets, sec_retry, SubmissionEntry,
    SEC_INITIAL_BACKOFF_MS,
};

fn s(x: &str) -> String {
    x.to_string()
}

fn strings(xs: &[&str]) -> Vec<String> {
    xs.iter().map(|x| x.to_string()).collect()
}

#[test]
fn targets_group_by_cik_sorted_and_deduplicated() {
    let pairs = vec![
        (s("0000320193"), s("0000320193-23-000006")),
        (s("0000002488"), s("0000002488-22-000016")),
        (s("0000320193"), s("0000320193-22-000108")),
        (s("0000320193"), s("0000320193-23-000006")),
    ];
    let groups = group_targets(&pairs);
    assert_eq!(
        groups,
        vec![
            (s("0000002488"), strings(&["0000002488-22-000016"])),
            (s("0000320193"), strings(&["0000320193-22-000108", "0000320193-23-000006"])),
        ]
    );
    assert_eq!(group_targets(&vec![]), Vec::<(String, Vec<String>)>::new());
}

#[test]
fn listing_columns_are_zipped_and_later_entries_win() {
    let mut entries: Vec<SubmissionEntry> = Vec::new();
    add_submissions(
        &mut entries,
        &strings(&["A-1", "A-2", "A-3"]),
        &strings(&["2023-02-03T18:01:14.000Z", "not a time", "2023-05-01T12:00:00Z"]),
        &strings(&["10-Q", "8-K"]),
    );
    assert_eq!(entries.len(), 1, "A-2 has no parseable time and A-3 has no form column entry");
    assert_eq!(entries[0].accession, "A-1");
    assert_eq!(entries[0].acceptance_ns, 1_675_447_274_000_000_000);
    assert_eq!(entries[0].form.as_deref(), Some("10-Q"));

    add_submissions(&mut entries, &strings(&["A-1"]), &strings(&["2023-02-03T18:01:15Z"]), &strings(&["10-Q/A"]));
    let e = find_submission(&entries, "A-1").unwrap();
    assert_eq!(e.acceptance_ns, 1_675_447_275_000_000_000);
    assert_eq!(e.form.as_deref(), Some("10-Q/A"));
    assert!(find_submission(&entries, "A-9").is_none());
}

#[test]
fn backfill_rows_follow_the_needed_order() {
    let listing = vec![
        SubmissionEntry { accession: s("X-1"), acceptance_ns: 10, form: Some(s("10-K")) },
        SubmissionEntry { accession: s("X-2"), acceptance_ns: 20, form: None },
    ];
    let needed = vec![
        (s("111"), strings(&["X-1", "X-3", "X-2"])),
        (s("222"), strings(&["Y-1"])),
    ];
    let fetched = vec![(s("111"), listing)];
    let b = assemble_backfill(&needed, &fetched);
    assert_eq!(b.found, 2);
    assert_eq!(b.missing, 2);
    assert_eq!(b.rows.len(), 2);
    assert_eq!((b.rows[0].cik.as_str(), b.rows[0].accession_number.as_str(), b.rows[0].acceptance_datetime_ns), ("111", "X-1", 10));
    assert_eq!(b.rows[0].form.as_deref(), Some("10-K"));
    assert_eq!(b.rows[1].accession_number, "X-2");
    assert_eq!(b.rows[1].form, None);
    assert!(b.rows.iter().all(|r| r.source == "sec_edgar_submissions"));
}

#[test]
fn sec_throttling_backs_off_five_times() {
    let mut backoff = SEC_INITIAL_BACKOFF_MS;
    let mut waits = Vec::new();
    while let Some((wait, next)) = sec_retry(429, backoff) {
        waits.push(wait);
        backoff = next;
    }
    assert_eq!(waits, vec![1_000, 2_000, 4_000, 8_000, 16_000]);
    assert_eq!(sec_retry(500, 1_000), None);
}
