use csv_tools::dedup::{
    dynamodb_row_key, header_position, keep_first_by_key, keep_last_by_key, key_fields, number_keys,
    RowKeyError,
};
use csv_tools::lines::comma_field_count;

fn row(v: &[&str]) -> Vec<String> {
    v.iter().map(|s| s.to_string()).collect()
}

#[test]
fn key_fields_keep_values_apart() {
    let r = row(&["20111", "7", "x"]);
    assert_eq!(key_fields(&r, 0, Some(1)), row(&["20111", "7"]));
    assert_eq!(key_fields(&r, 0, None), row(&["20111"]));
    assert_eq!(key_fields(&r, 2, Some(5)), row(&["x", ""]));
    assert_eq!(key_fields(&r, 9, None), row(&[""]));
}

#[test]
fn row_keys_and_their_errors() {
    let r = row(&["20111", "7", "x"]);
    assert_eq!(dynamodb_row_key(&r, 3, 0, Some(1)), Ok(row(&["20111", "7"])));
    assert_eq!(dynamodb_row_key(&r, 3, 0, None), Ok(row(&["20111"])));
    assert_eq!(
        dynamodb_row_key(&r, 4, 0, Some(1)),
        Err(RowKeyError::LengthMismatch { expected: 4, found: 3 })
    );
    let empty_sort = row(&["20111", "", "x"]);
    assert_eq!(dynamodb_row_key(&empty_sort, 3, 0, Some(1)), Err(RowKeyError::EmptyKey));
    let empty_partition = row(&["", "7", "x"]);
    assert_eq!(dynamodb_row_key(&empty_partition, 3, 0, None), Err(RowKeyError::EmptyKey));
}

#[test]
fn header_positions() {
    let h = row(&["Cuil", "Cuit", "Cuil"]);
    assert_eq!(header_position(&h, &"Cuil".to_string()), Some(0));
    assert_eq!(header_position(&h, &"Cuit".to_string()), Some(1));
    assert_eq!(header_position(&h, &"cuit".to_string()), None);
}

#[test]
fn comma_fields() {
    assert_eq!(comma_field_count(""), 1);
    assert_eq!(comma_field_count("a"), 1);
    assert_eq!(comma_field_count("a,b,,c"), 4);
    assert_eq!(comma_field_count("\"a,b\",c"), 3);
    assert_eq!(comma_field_count(",,,"), 4);
}

#[test]
fn pairs_with_separator_inside_stay_distinct() {
    let a = dynamodb_row_key(&row(&["a#b", "c"]), 2, 0, Some(1)).unwrap();
    let b = dynamodb_row_key(&row(&["a", "b#c"]), 2, 0, Some(1)).unwrap();
    assert_ne!(a, b);
    assert_eq!(keep_last_by_key(&vec![a.clone(), b.clone()]), vec![0, 1]);
    assert_eq!(keep_last_by_key(&vec![a.clone(), b, a]), vec![1, 2]);
}

#[test]
fn numbers_follow_key_equality() {
    let keys = vec![row(&["a", "1"]), row(&["b"]), row(&["a", "1"]), row(&["a,1"]), row(&["b"])];
    let n = number_keys(&keys);
    assert_eq!(n.len(), 5);
    for i in 0..5 {
        for j in 0..5 {
            assert_eq!(n[i] == n[j], keys[i] == keys[j]);
        }
    }
    assert_eq!(keep_first_by_key(&keys), vec![0, 1, 3]);
    assert_eq!(keep_last_by_key(&keys), vec![2, 3, 4]);
}
