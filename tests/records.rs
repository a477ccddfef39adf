use csv_tools::schema::{lookup, SchemaError};
use csv_tools::header::validate_header;
use csv_tools::validate::{extract_key, record_errors, validate_record, FieldFailure};
use csv_tools::scan::validate_records;

fn row(v: &[&str]) -> Vec<String> {
    v.iter().map(|s| s.to_string()).collect()
}

fn failure(column: &str, value: &str) -> FieldFailure {
    FieldFailure { column: column.to_string(), value: value.to_string() }
}

fn morosos_row() -> Vec<String> {
    row(&[
        "20123456789", "55", "12345678", "PEREZ JUAN", "7", "3", "ACME", "1144445555", "CABA",
        "A", "202401", "9", "2024-01-01 00:00:00", "loader",
    ])
}

#[test]
fn empleadores_end_to_end() {
    let s = lookup("siisa_empleadores").unwrap();
    let header = row(&["Cuit", "RazonSocial", "Domicilio", "CodPostal", "Localidad", "NombreProvincia", "Telefono"]);
    assert_eq!(validate_header(&header, &s), Ok(()));
    let record = row(&["30711884562", "ACME SA", "", "", "", "", ""]);
    let o = validate_record(&record, &s);
    assert!(o.column_count_matches);
    assert!(o.failures.is_empty());
    assert_eq!(o.key, Some("{Cuit=30711884562}".to_string()));
}

#[test]
fn relaciones_calendar_values_pass_shape_check() {
    let s = lookup("siisa_empleadores_relaciones").unwrap();
    let record = row(&["20123456789", "30711884562", "2020-01-01", "2024-13-40"]);
    let o = validate_record(&record, &s);
    assert!(o.failures.is_empty());
    assert_eq!(o.key, Some("{Cuil=20123456789,Cuit=30711884562}".to_string()));
}

#[test]
fn relaciones_malformed_date_rejected() {
    let s = lookup("siisa_empleadores_relaciones").unwrap();
    let record = row(&["20123456789", "30711884562", "01/02/2020", "2024-1-40"]);
    let o = validate_record(&record, &s);
    assert_eq!(o.failures, vec![failure("FechaIngreso", "01/02/2020"), failure("FechaBaja", "2024-1-40")]);
    let empty_dates = row(&["20123456789", "30711884562", "", " "]);
    assert!(validate_record(&empty_dates, &s).failures.is_empty());
}

#[test]
fn well_formed_record_has_no_failures() {
    let s = lookup("siisa_morosos").unwrap();
    let o = validate_record(&morosos_row(), &s);
    assert!(o.column_count_matches);
    assert!(o.failures.is_empty());
    assert_eq!(o.key, Some("{Cuil=20123456789,IdTransmit=55}".to_string()));
}

#[test]
fn every_failing_field_is_reported() {
    let s = lookup("siisa_morosos").unwrap();
    let mut r = morosos_row();
    r[0] = " 20-12 ".to_string();
    r[2] = "".to_string();
    r[10] = "+202401".to_string();
    let o = validate_record(&r, &s);
    assert!(o.column_count_matches);
    assert_eq!(
        o.failures,
        vec![failure("Cuil", "20-12"), failure("NroDoc", ""), failure("Periodo", "+202401")]
    );
    assert_eq!(o.key, Some("{Cuil= 20-12 ,IdTransmit=55}".to_string()));
}

#[test]
fn numeric_field_is_trimmed_before_check() {
    let s = lookup("siisa_empleadores").unwrap();
    let record = row(&["  30711884562\t", "ACME SA", "", "", "", "", ""]);
    let o = validate_record(&record, &s);
    assert!(o.failures.is_empty());
    assert_eq!(o.key, Some("{Cuit=  30711884562\t}".to_string()));
}

#[test]
fn short_record_still_gets_key() {
    let s = lookup("siisa_morosos").unwrap();
    let mut r = morosos_row();
    r.pop();
    let o = validate_record(&r, &s);
    assert!(!o.column_count_matches);
    assert!(o.failures.is_empty());
    assert_eq!(o.key, Some("{Cuil=20123456789,IdTransmit=55}".to_string()));
}

#[test]
fn short_record_cannot_reach_key() {
    let s = lookup("siisa_empleadores_relaciones").unwrap();
    let r = row(&["20123456789"]);
    assert_eq!(extract_key(&r, &s), Err(SchemaError::ExtractionError { needed: 2, found: 1 }));
    let o = validate_record(&r, &s);
    assert!(!o.column_count_matches);
    assert_eq!(o.key, None);
    assert_eq!(o.failures, vec![failure("Cuit", "")]);
    let empty: Vec<String> = vec![];
    assert_eq!(extract_key(&empty, &lookup("siisa_empleadores").unwrap()),
        Err(SchemaError::ExtractionError { needed: 1, found: 0 }));
}

#[test]
fn key_uses_raw_values() {
    let s = lookup("personas_telefonos").unwrap();
    let r = row(&["abc", " 9 "]);
    assert_eq!(extract_key(&r, &s), Ok("{IdCliente=abc,IdTransmit= 9 }".to_string()));
}

#[test]
fn record_errors_lists_each_kind() {
    let s = lookup("siisa_empleadores_relaciones").unwrap();
    let r = row(&["x"]);
    assert_eq!(
        record_errors(&r, &s),
        vec![
            SchemaError::ColumnCountMismatch { expected: 4, found: 1 },
            SchemaError::FieldInvalid { column: "Cuil".to_string(), value: "x".to_string() },
            SchemaError::FieldInvalid { column: "Cuit".to_string(), value: "".to_string() },
            SchemaError::ExtractionError { needed: 2, found: 1 },
        ]
    );
    let ok = row(&["1", "2", "", ""]);
    assert!(record_errors(&ok, &s).is_empty());
}

#[test]
fn scan_without_limit_checks_every_record() {
    let s = lookup("siisa_empleadores").unwrap();
    let records = vec![
        row(&["1", "a", "", "", "", "", ""]),
        row(&["x", "a", "", "", "", "", ""]),
        row(&["2", "a"]),
    ];
    let out = validate_records(&records, &s, None);
    assert_eq!(out.len(), 3);
    assert!(out[0].failures.is_empty() && out[0].column_count_matches);
    assert_eq!(out[1].failures, vec![failure("Cuit", "x")]);
    assert!(!out[2].column_count_matches);
    assert_eq!(out[2].key, Some("{Cuit=2}".to_string()));
}

#[test]
fn scan_twice_gives_same_outcomes() {
    let s = lookup("siisa_morosos").unwrap();
    let mut bad = morosos_row();
    bad[4] = "7a".to_string();
    let records = vec![morosos_row(), bad, row(&["1"])];
    assert_eq!(validate_records(&records, &s, None), validate_records(&records, &s, None));
    assert_eq!(validate_records(&records, &s, Some(1)), validate_records(&records, &s, Some(1)));
}

#[test]
fn scan_stops_at_error_limit() {
    let s = lookup("siisa_empleadores").unwrap();
    let records = vec![
        row(&["x", "a", "", "", "", "", ""]),
        row(&["1", "a", "", "", "", "", ""]),
        row(&["y", "a"]),
        row(&["z", "a", "", "", "", "", ""]),
    ];
    assert_eq!(validate_records(&records, &s, Some(0)).len(), 0);
    assert_eq!(validate_records(&records, &s, Some(1)).len(), 1);
    assert_eq!(validate_records(&records, &s, Some(2)).len(), 3);
    assert_eq!(validate_records(&records, &s, Some(3)).len(), 3);
    assert_eq!(validate_records(&records, &s, Some(4)).len(), 4);
    assert_eq!(validate_records(&records, &s, Some(100)).len(), 4);
}
