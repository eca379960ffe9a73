//! The last lines of a log, read in pieces from its end.
use slurm_async_runner::sbatch::tail::{last_lines, TailReader, TailStep, TAIL_READ_CHUNK};

/// Reads the last lines of a file held in memory, and says how many pieces were read.
fn tail(file: &[u8], n: usize) -> (Vec<String>, usize) {
    let mut pieces = 0;
    let mut step = TailReader::start(file.len() as u64, n);
    loop {
        match step {
            TailStep::Read { pos, len, reader } => {
                assert!(len <= TAIL_READ_CHUNK);
                assert_eq!(pos + len, reader.remaining());
                pieces += 1;
                let chunk = file[pos as usize..(pos + len) as usize].to_vec();
                step = reader.feed(chunk);
            }
            TailStep::Done(lines) => return (lines, pieces),
        }
    }
}

#[test]
fn read_last_lines_small_file_matches_naive_tail() {
    let file = b"a\nb\nc\nd\n";
    assert_eq!(tail(file, 2), (vec!["c".to_string(), "d".to_string()], 1));
    assert_eq!(tail(file, 10).0, vec!["a", "b", "c", "d"]);
    assert_eq!(tail(file, 0), (Vec::new(), 0));
}

#[test]
fn read_last_lines_large_file_returns_exact_tail() {
    let mut content = String::new();
    for i in 0..2000 {
        content.push_str(&format!("line-{i:05} {}\n", "x".repeat(90)));
    }
    let (lines, pieces) = tail(content.as_bytes(), 3);
    assert_eq!(lines.len(), 3);
    assert!(lines[0].starts_with("line-01997"));
    assert!(lines[2].starts_with("line-01999"));
    assert_eq!(pieces, 1, "the end of the file is enough");
}

#[test]
fn read_last_lines_includes_unterminated_final_line() {
    let file = b"first\nsecond\nno-newline-tail";
    assert_eq!(tail(file, 2).0, vec!["second", "no-newline-tail"]);
}

#[test]
fn read_last_lines_multibyte_content_across_chunks() {
    let mut content = String::new();
    for i in 0..2000 {
        content.push_str(&format!(
            "\u{884c}{i:05}-\u{65e5}\u{672c}\u{8a9e}{}\n",
            "\u{3042}".repeat(30)
        ));
    }
    for n in [2, 100, 500] {
        let (lines, _) = tail(content.as_bytes(), n);
        let all: Vec<&str> = content.lines().collect();
        assert_eq!(lines, all[all.len() - n..]);
        assert!(!lines[0].contains('\u{FFFD}'));
    }
}

#[test]
fn read_last_lines_empty_file_returns_empty() {
    assert_eq!(tail(b"", 5), (Vec::new(), 0));
}

#[test]
fn bytes_that_are_not_utf8_are_replaced() {
    assert_eq!(tail(b"ok\n\xff\n", 5).0, vec!["ok", "\u{FFFD}"]);
}

#[test]
fn what_stands_before_the_tail_makes_no_difference() {
    let part = "x\nb\r\nc\n";
    for before in ["", "a", "a\n", "a\nq\r\n"] {
        let whole = format!("{before}{part}");
        assert_eq!(last_lines(&whole, 2), last_lines(part, 2));
    }
    assert_eq!(last_lines(part, 2), vec!["b", "c"]);
}

#[test]
fn damaged_bytes_in_a_long_log_are_those_of_the_whole() {
    let mut file: Vec<u8> = Vec::new();
    for i in 0..3000u32 {
        file.extend_from_slice(b"\xe3\x81 \xff\xe3");
        file.extend_from_slice(i.to_string().as_bytes());
        file.extend_from_slice(b"\xe3\x81\r\n");
    }
    let whole = String::from_utf8_lossy(&file).into_owned();
    let all: Vec<&str> = whole.lines().collect();
    for n in [1, 7, 500, 2999, 3000, 4000] {
        let from = all.len().saturating_sub(n);
        assert_eq!(tail(&file, n).0, all[from..]);
    }
}
