use rust_predictions::record::{parse_record, RecordError};

fn alice_row() -> Vec<(String, String)> {
    vec![
        ("Player".to_string(), "Alice".to_string()),
        ("Dominance Quotient".to_string(), "1.2".to_string()),
        ("Avg Score".to_string(), "300".to_string()),
        ("Goals Per Game".to_string(), "0.5".to_string()),
        ("Assists Per Game".to_string(), "0.3".to_string()),
        ("Saves Per Game".to_string(), "2.0".to_string()),
        ("Shots Per Game".to_string(), "3.0".to_string()),
        ("Shooting %".to_string(), "25.0".to_string()),
        ("Demos Inf. Per Game".to_string(), "0.4".to_string()),
        ("Demos Taken Per Game".to_string(), "0.2".to_string()),
    ]
}

#[test]
fn round_trips_every_field() {
    let rec = parse_record(&alice_row()).expect("row should parse");
    assert_eq!(rec.name, "Alice");
    assert_eq!(rec.dominance_quotient.mantissa, 1_200_000);
    assert_eq!(rec.avg_score.mantissa, 300_000_000);
    assert_eq!(rec.goals_per_game.mantissa, 500_000);
    assert_eq!(rec.assists_per_game.mantissa, 300_000);
    assert_eq!(rec.saves_per_game.mantissa, 2_000_000);
    assert_eq!(rec.shots_per_game.mantissa, 3_000_000);
    assert_eq!(rec.shooting_percentage.mantissa, 25_000_000);
    assert_eq!(rec.demos_inf_per_game.mantissa, 400_000);
    assert_eq!(rec.demos_taken_per_game.mantissa, 200_000);
}

#[test]
fn missing_column_is_malformed_record() {
    let row: Vec<(String, String)> = alice_row()
        .into_iter()
        .filter(|(k, _)| k != "Saves Per Game")
        .collect();
    let err = parse_record(&row).expect_err("row should fail");
    assert_eq!(
        err,
        RecordError::MalformedRecord { column: "Saves Per Game".to_string() }
    );
}

#[test]
fn missing_player_is_malformed_record() {
    let row: Vec<(String, String)> = alice_row()
        .into_iter()
        .filter(|(k, _)| k != "Player")
        .collect();
    let err = parse_record(&row).expect_err("row should fail");
    assert_eq!(err, RecordError::MalformedRecord { column: "Player".to_string() });
}

#[test]
fn non_numeric_text_is_conversion_error() {
    let mut row = alice_row();
    row[2].1 = "abc".to_string();
    let err = parse_record(&row).expect_err("row should fail");
    assert_eq!(
        err,
        RecordError::NumericConversionError {
            column: "Avg Score".to_string(),
            text: "abc".to_string(),
        }
    );
}

#[test]
fn first_offending_column_in_schema_order_wins() {
    let mut row: Vec<(String, String)> = alice_row()
        .into_iter()
        .filter(|(k, _)| k != "Dominance Quotient")
        .collect();
    row[1].1 = "not a number".to_string(); // Avg Score is also bad
    let err = parse_record(&row).expect_err("row should fail");
    assert_eq!(
        err,
        RecordError::MalformedRecord { column: "Dominance Quotient".to_string() }
    );
}

#[test]
fn first_occurrence_of_a_duplicate_column_is_used() {
    let mut row = alice_row();
    row.push(("Avg Score".to_string(), "999".to_string()));
    let rec = parse_record(&row).expect("row should parse");
    assert_eq!(rec.avg_score.mantissa, 300_000_000);
}

#[test]
fn extra_columns_are_ignored() {
    let mut row = alice_row();
    row.push(("Team".to_string(), "Blue".to_string()));
    let rec = parse_record(&row).expect("row should parse");
    assert_eq!(rec.name, "Alice");
}

#[test]
fn column_order_does_not_matter() {
    let mut row = alice_row();
    row.reverse();
    let rec = parse_record(&row).expect("row should parse");
    assert_eq!(rec.goals_per_game.mantissa, 500_000);
}
