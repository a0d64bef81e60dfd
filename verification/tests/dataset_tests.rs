use rust_predictions::dataset::{process_dataset, DatasetError};
use rust_predictions::record::RecordError;

fn player_row(name: &str, goals: &str) -> Vec<(String, String)> {
    vec![
        ("Player".to_string(), name.to_string()),
        ("Dominance Quotient".to_string(), "1.2".to_string()),
        ("Avg Score".to_string(), "300".to_string()),
        ("Goals Per Game".to_string(), goals.to_string()),
        ("Assists Per Game".to_string(), "0.3".to_string()),
        ("Saves Per Game".to_string(), "2.0".to_string()),
        ("Shots Per Game".to_string(), "3.0".to_string()),
        ("Shooting %".to_string(), "25.0".to_string()),
        ("Demos Inf. Per Game".to_string(), "0.4".to_string()),
        ("Demos Taken Per Game".to_string(), "0.2".to_string()),
    ]
}

#[test]
fn empty_dataset_yields_empty_output() {
    let rows: Vec<Vec<(String, String)>> = Vec::new();
    let out = process_dataset(&rows).expect("empty dataset should succeed");
    assert!(out.is_empty());
}

#[test]
fn keeps_rows_in_source_order() {
    let rows = vec![
        player_row("Alice", "0.5"),
        player_row("Bob", "1.0"),
        player_row("Cara", "0"),
    ];
    let out = process_dataset(&rows).expect("dataset should succeed");
    assert_eq!(out.len(), 3);
    assert_eq!(out[0].0.name, "Alice");
    assert_eq!(out[1].0.name, "Bob");
    assert_eq!(out[2].0.name, "Cara");
    assert_eq!(out[0].1.mantissa, 1_320_000_000);
    assert_eq!(out[1].1.mantissa, 1_570_000_000);
}

#[test]
fn fails_fast_on_the_first_bad_row() {
    let bad: Vec<(String, String)> = player_row("Dan", "0.5")
        .into_iter()
        .filter(|(k, _)| k != "Saves Per Game")
        .collect();
    let rows = vec![
        player_row("Alice", "0.5"),
        player_row("Bob", "1.0"),
        player_row("Cara", "0"),
        bad,
    ];
    let err = process_dataset(&rows).expect_err("dataset should fail");
    assert_eq!(
        err,
        DatasetError::RowFailed {
            index: 3,
            cause: RecordError::MalformedRecord { column: "Saves Per Game".to_string() },
        }
    );
}

#[test]
fn reports_only_the_first_of_several_bad_rows() {
    let mut bad_numeric = player_row("Eve", "oops");
    bad_numeric[3].1 = "oops".to_string();
    let missing: Vec<(String, String)> = player_row("Fay", "1")
        .into_iter()
        .filter(|(k, _)| k != "Player")
        .collect();
    let rows = vec![player_row("Alice", "0.5"), bad_numeric, missing];
    let err = process_dataset(&rows).expect_err("dataset should fail");
    assert_eq!(
        err,
        DatasetError::RowFailed {
            index: 1,
            cause: RecordError::NumericConversionError {
                column: "Goals Per Game".to_string(),
                text: "oops".to_string(),
            },
        }
    );
}
