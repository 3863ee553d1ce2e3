use momentum::flat_files::{first_lines, gunzip_first_lines};
use std::io::Write;

fn gz(text: &str) -> Vec<u8> {
    let mut enc = flate2::write::GzEncoder::new(Vec::new(), flate2::Compression::default());
    enc.write_all(text.as_bytes()).unwrap();
    enc.finish().unwrap()
}

#[test]
fn first_lines_splits_like_str_lines() {
    assert_eq!(first_lines("a\r\nb\nc", 5), vec!["a", "b", "c"]);
    assert_eq!(first_lines("a\n\nb\n", 5), vec!["a", "", "b"]);
    assert_eq!(first_lines("x\r", 1), vec!["x\r"]);
    assert_eq!(first_lines("", 3), Vec::<String>::new());
    let text = "l1\nl2\nl3\nl4\n";
    assert_eq!(first_lines(text, 2), text.lines().take(2).collect::<Vec<_>>());
    assert_eq!(first_lines(text, 0), Vec::<String>::new());
}

#[test]
fn gunzip_first_lines_reads_the_csv_header() {
    let csv = "ticker,volume,open,close,high,low,window_start,transactions\nA,100,1,2,3,0.5,1700000000000000000,4\nB,5,1,1,1,1,1700000000000000000,1\n";
    let lines = gunzip_first_lines(&gz(csv), 2).unwrap();
    assert_eq!(lines, vec!["ticker,volume,open,close,high,low,window_start,transactions", "A,100,1,2,3,0.5,1700000000000000000,4"]);
    assert_eq!(gunzip_first_lines(&gz(csv), 10).unwrap().len(), 3);
}

#[test]
fn gunzip_first_lines_rejects_non_gzip_bytes() {
    assert_eq!(gunzip_first_lines(b"not gzip at all", 5), None);
}
