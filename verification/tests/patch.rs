use turbocommit::headers::{check_hunk_marks, check_targets, chars_of, is_parse_safe};
use turbocommit::patch::{parse_records, ParseFault, PatchError};

const TWO_FILES: &str = "diff --git a/a.txt b/a.txt
index 1111111..2222222 100644
--- a/a.txt
+++ b/a.txt
@@ -1,2 +1,2 @@
 one
-two
+three
diff --git a/b.txt b/b.txt
index 3333333..4444444 100644
--- a/b.txt
+++ b/b.txt
@@ -1 +1 @@ fn main
-x
+y
";

const FRAGMENT_A: &str = "--- a/a.txt\n+++ b/a.txt\n@@ -1,2 +1,2 @@ \n one\n-two\n+three";
const FRAGMENT_B: &str = "--- a/b.txt\n+++ b/b.txt\n@@ -1,1 +1,1 @@ fn main\n-x\n+y";

fn chars(text: &str) -> Vec<char> {
    text.chars().collect()
}

#[test]
fn parses_the_files_in_their_order() {
    let records = parse_records(TWO_FILES).unwrap();
    assert_eq!(records.len(), 2);
    assert_eq!(records[0].source_file, "a/a.txt");
    assert_eq!(records[0].target_file, "b/a.txt");
    assert_eq!(records[1].source_file, "a/b.txt");
    assert_eq!(records[1].target_file, "b/b.txt");
}

#[test]
fn renders_each_file_to_its_own_fragment() {
    let records = parse_records(TWO_FILES).unwrap();
    assert_eq!(records[0].fragment, FRAGMENT_A);
    assert_eq!(records[1].fragment, FRAGMENT_B);
    assert_ne!(records[0].fragment, TWO_FILES);
}

#[test]
fn text_without_headers_has_no_files() {
    assert!(parse_records("").unwrap().is_empty());
    assert!(parse_records("nothing to see\nhere\n").unwrap().is_empty());
}

#[test]
fn added_file_names_dev_null_as_source() {
    let text = "--- /dev/null\n+++ b/new.txt\n@@ -0,0 +1,2 @@\n+first\n+second\n";
    let records = parse_records(text).unwrap();
    assert_eq!(records.len(), 1);
    assert_eq!(records[0].source_file, "/dev/null");
    assert_eq!(records[0].target_file, "b/new.txt");
    assert_eq!(
        records[0].fragment,
        "--- /dev/null\n+++ b/new.txt\n@@ -0,0 +1,2 @@ \n+first\n+second"
    );
}

#[test]
fn target_before_any_source_is_refused() {
    for text in ["+++ b/x\n", "+++ b/x", "text\n+++ b/x\n--- a/x\n", "--- \tstamp\n+++ b/x\n"] {
        assert!(matches!(parse_records(text), Err(PatchError::TargetBeforeSource)), "{text:?}");
        assert!(!check_targets(&chars(text)));
        assert!(!is_parse_safe(text));
    }
}

#[test]
fn target_after_a_source_is_let_through() {
    for text in ["--- a/x\n+++ b/x\n", "+++ \tstamp\n", "+++\n", " +++ b/x\n", "x\n--- a\ny\n+++ b"] {
        assert!(check_targets(&chars(text)), "{text:?}");
    }
}

#[test]
fn malformed_hunk_header_is_refused() {
    for header in [
        "@@ -",
        "@@ -1",
        "@@ -1 +1",
        "@@ -1 +1 @",
        "@@ -x +1 @@",
        "@@ -1, +1 @@",
        "@@ -1,2 +1,y @@",
        "@@ -1,2 +,1 @@",
        "@@ -1,2  +1 @@",
        "@@ -1,2 -1 @@",
        "@@ -1234567890 +1 @@",
        "@@ -1 +1,1234567890 @@",
        "@@ -\u{663} +1 @@",
        "@@ -1\u{663} +1 @@",
    ] {
        let text = format!("--- a/x\n+++ b/x\n{header}\n x\n");
        assert!(matches!(parse_records(&text), Err(PatchError::MalformedHunkHeader)), "{header:?}");
        assert!(!check_hunk_marks(&chars(&text)));
        assert!(check_targets(&chars(&text)));
        assert!(!is_parse_safe(&text));
    }
}

#[test]
fn well_formed_hunk_headers_are_let_through() {
    for header in [
        "@@ -1 +1 @@",
        "@@ -1,2 +3,4 @@",
        "@@ -0,0 +1 @@ section",
        "@@ -123456789,987654321 +999999999,1 @@",
        "@@ -1 +1 @@@@ -",
        "@@@ -1 -1 +1 @@@",
        " @@ -",
        "@@-1",
    ] {
        let text = format!("--- a/x\n+++ b/x\n{header}\n x\n");
        assert!(check_hunk_marks(&chars(&text)), "{header:?}");
        assert!(is_parse_safe(&text));
        assert!(parse_records(&text).is_ok());
    }
}

#[test]
fn the_earlier_violation_names_the_error() {
    let text = "+++ b/x\n@@ -bad\n";
    assert!(matches!(parse_records(text), Err(PatchError::TargetBeforeSource)));
}

#[test]
fn hunk_without_a_file_is_rejected_by_the_parser() {
    let text = "@@ -1 +1 @@\n x\n";
    assert!(is_parse_safe(text));
    match parse_records(text) {
        Err(PatchError::Rejected(ParseFault::UnexpectedHunk(line))) => {
            assert_eq!(line, "@@ -1 +1 @@")
        },
        other => panic!("{other:?}"),
    }
}

#[test]
fn second_target_is_rejected_by_the_parser() {
    let text = "--- a/x\n+++ b/x\n+++ b/y\n";
    assert!(is_parse_safe(text));
    match parse_records(text) {
        Err(PatchError::Rejected(ParseFault::TargetWithoutSource(line))) => {
            assert_eq!(line, "+++ b/y")
        },
        other => panic!("{other:?}"),
    }
}

#[test]
fn chars_of_gives_every_character() {
    assert_eq!(chars_of(""), Vec::<char>::new());
    assert_eq!(chars_of("a\u{301}\n+"), vec!['a', '\u{301}', '\n', '+']);
}

#[test]
fn every_refusal_has_a_message() {
    assert_eq!(
        PatchError::TargetBeforeSource.message(),
        "Target header before any source header"
    );
    assert_eq!(PatchError::MalformedHunkHeader.message(), "Malformed hunk header");
    assert_eq!(
        ParseFault::TargetWithoutSource("+++ b/y".to_string()).message(),
        "Target without source: +++ b/y"
    );
    assert_eq!(
        ParseFault::UnexpectedHunk("@@ -1 +1 @@".to_string()).message(),
        "Unexpected hunk found: @@ -1 +1 @@"
    );
    assert_eq!(ParseFault::ExpectLine("x".to_string()).message(), "Hunk line expected: x");
    assert_eq!(
        PatchError::Rejected(ParseFault::ExpectLine(String::new())).message(),
        "Hunk line expected: "
    );
}

#[test]
fn parser_faults_read_like_the_parser_errors() {
    let text = "--- a/x\n+++ b/x\n+++ b/y\n";
    let theirs = text.parse::<unidiff::PatchSet>().unwrap_err().to_string();
    match parse_records(text) {
        Err(error) => assert_eq!(error.message(), theirs),
        Ok(_) => panic!("parsed"),
    }
    let text = "@@ -1 +1 @@\n";
    let theirs = text.parse::<unidiff::PatchSet>().unwrap_err().to_string();
    match parse_records(text) {
        Err(error) => assert_eq!(error.message(), theirs),
        Ok(_) => panic!("parsed"),
    }
}

#[test]
fn records_agree_with_the_parser() {
    let patch = TWO_FILES.parse::<unidiff::PatchSet>().unwrap();
    let records = parse_records(TWO_FILES).unwrap();
    assert_eq!(records.len(), patch.len());
    for (record, file) in records.iter().zip(patch.files()) {
        assert_eq!(record.source_file, file.source_file);
        assert_eq!(record.target_file, file.target_file);
        assert_eq!(record.fragment, file.to_string());
    }
}

const PIECES: [&str; 26] = [
    "--- ", "+++ ", "@@ -", "@@ ", "--- a", "+++ b", "1", "12", "999999999", "9999999999", ",",
    " +", " @@", " ", "a", "\t", "\r", "\r\n", "\n", "\n", "\n", "\u{663}", "-", "+", "\\", "\u{e9}",
];

fn generated(seed: u64, count: usize) -> Vec<String> {
    let mut state = seed;
    let mut draw = move |below: u64| {
        state = state.wrapping_mul(6364136223846793005).wrapping_add(1442695040888963407);
        (state >> 33) % below
    };
    let mut texts = Vec::new();
    for _ in 0..count {
        let pieces = 1 + draw(14);
        let mut text = String::new();
        for _ in 0..pieces {
            text.push_str(PIECES[draw(PIECES.len() as u64) as usize]);
        }
        texts.push(text);
    }
    texts
}

#[test]
fn parser_comes_back_on_every_text_that_is_let_through() {
    let mut parsed = 0;
    let mut refused = 0;
    for text in generated(1, 40000) {
        let safe = is_parse_safe(&text);
        match parse_records(&text) {
            Ok(records) => {
                assert!(safe, "{text:?}");
                let patch = text.parse::<unidiff::PatchSet>().unwrap();
                assert_eq!(records.len(), patch.len(), "{text:?}");
                parsed += 1;
            },
            Err(PatchError::TargetBeforeSource) => {
                assert!(!check_targets(&chars(&text)), "{text:?}");
                refused += 1;
            },
            Err(PatchError::MalformedHunkHeader) => {
                assert!(check_targets(&chars(&text)), "{text:?}");
                assert!(!check_hunk_marks(&chars(&text)), "{text:?}");
                refused += 1;
            },
            Err(PatchError::Rejected(_)) => {
                assert!(safe, "{text:?}");
                assert!(text.parse::<unidiff::PatchSet>().is_err(), "{text:?}");
            },
        }
    }
    assert!(parsed > 1000);
    assert!(refused > 1000);
}

#[test]
fn hunks_with_large_numbers_are_parsed() {
    let mut state = 7u64;
    for _ in 0..2000 {
        let mut numbers = [0u64; 4];
        for number in numbers.iter_mut() {
            state = state.wrapping_mul(6364136223846793005).wrapping_add(1442695040888963407);
            *number = (state >> 33) % 1_000_000_000;
        }
        let text = format!(
            "--- a/x\n+++ b/x\n@@ -{},{} +{},{} @@\n one\n-two\n+three\n",
            numbers[0], numbers[1], numbers[2], numbers[3]
        );
        let records = parse_records(&text).unwrap();
        assert_eq!(records.len(), 1);
    }
    let text = "--- a/x\n+++ b/x\n@@ -999999999,999999999 +999999999,999999999 @@\n one\n+two\n";
    assert_eq!(parse_records(text).unwrap().len(), 1);
}
