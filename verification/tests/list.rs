use expurgator::cli::Args;
use expurgator::decision::{allow_one_more, confirm, Decision};
use expurgator::error::PackError;
use expurgator::list::{parse_csv, select_column};

#[test]
fn test_parse_csv_file() {
    let file = "1,2,some/path,4\n1,2,some/other/path,4".as_bytes();
    let output = parse_csv(file, 3, false).unwrap();
    assert_eq!(output.len(), 2);
    assert_eq!(output[0].as_str(), "some/path");
    assert_eq!(output[1].as_str(), "some/other/path");

    let output = parse_csv(file, 3, true).unwrap();
    assert_eq!(output.len(), 1);
    assert_eq!(output[0].as_str(), "some/other/path");

    assert!(parse_csv(file, 5, false).is_err());
}

#[test]
fn missing_column_is_named() {
    let file = "a,b\nc,d".as_bytes();
    assert!(matches!(parse_csv(file, 3, false), Err(PackError::FilterColumnNotFound(3))));
    assert!(matches!(parse_csv(file, 0, false), Err(PackError::FilterColumnNotFound(0))));
    assert_eq!(parse_csv(file, 2, false).unwrap(), vec!["b", "d"]);
    assert_eq!(parse_csv(b"", 1, false).unwrap(), Vec::<String>::new());
    assert_eq!(parse_csv(b"", 0, false).unwrap(), Vec::<String>::new());
}

#[test]
fn ragged_list_is_unreadable() {
    let file = "a,b\nc\nd,e".as_bytes();
    assert!(matches!(parse_csv(file, 1, false), Err(PackError::FilterListUnreadable)));
    let file = "a\nb,c".as_bytes();
    assert!(matches!(parse_csv(file, 2, false), Err(PackError::FilterColumnNotFound(2))));
}

#[test]
fn answers_decide_whether_the_run_goes_on() {
    assert_eq!(Decision::from_answer(true), Decision::Accept);
    assert_eq!(Decision::from_answer(false), Decision::Reject);
    assert!(confirm(Decision::Accept).is_ok());
    assert!(matches!(confirm(Decision::Reject), Err(PackError::UserCancelled)));
    assert_eq!(allow_one_more(Decision::Accept, 2).unwrap(), 3);
    assert_eq!(allow_one_more(Decision::Accept, usize::MAX).unwrap(), usize::MAX);
    assert!(matches!(allow_one_more(Decision::Reject, 2), Err(PackError::UserCancelled)));
}

fn given(output: Option<&str>) -> Args {
    Args {
        input: String::from("in.tar.gz"),
        filter: String::from("list.csv"),
        index: 2,
        with_headers: true,
        output: output.map(String::from),
        compression: 6,
    }
}

#[test]
fn output_defaults_to_the_input() {
    let args = Args::from(given(None));
    assert_eq!(args.output.as_deref(), Some("in.tar.gz"));
    assert_eq!(args.input, "in.tar.gz");
    assert_eq!(args.filter, "list.csv");
    assert_eq!(args.index, 2);
    assert!(args.with_headers);
    assert_eq!(args.compression, 6);
}

#[test]
fn given_output_is_kept() {
    let args = Args::from(given(Some("out.tar.gz")));
    assert_eq!(args.output.as_deref(), Some("out.tar.gz"));
    assert_eq!(args.input, "in.tar.gz");
}

#[test]
fn column_is_taken_from_rows() {
    let row = |fields: &[&str]| Some(fields.iter().map(|f| String::from(*f)).collect::<Vec<_>>());
    let rows = vec![row(&["a", "b"]), row(&["c", "d", "e"])];
    assert_eq!(select_column(&rows, 2).unwrap(), vec!["b", "d"]);
    assert!(matches!(select_column(&rows, 3), Err(PackError::FilterColumnNotFound(3))));
    let rows = vec![row(&["a"]), None, row(&[])];
    assert!(matches!(select_column(&rows, 1), Err(PackError::FilterListUnreadable)));
    assert_eq!(select_column(&Vec::new(), 1).unwrap(), Vec::<String>::new());
}
