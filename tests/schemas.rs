use csv_tools::schema::{get_numeric_fields_local, lookup, DynamoModel, SchemaError};
use csv_tools::header::validate_header;

fn names(v: &[&str]) -> Vec<String> {
    v.iter().map(|s| s.to_string()).collect()
}

#[test]
fn lookup_column_counts() {
    assert_eq!(lookup("siisa_morosos").unwrap().columns.len(), 14);
    assert_eq!(lookup("personas_telefonos").unwrap().columns.len(), 13);
    assert_eq!(lookup("siisa_empleadores").unwrap().columns.len(), 7);
    assert_eq!(lookup("siisa_empleadores_relaciones").unwrap().columns.len(), 4);
}

#[test]
fn lookup_unknown_and_case_sensitive() {
    assert_eq!(lookup("unknown_model").err(), Some(SchemaError::NotFound));
    assert_eq!(lookup("SIISA_MOROSOS").err(), Some(SchemaError::NotFound));
    assert_eq!(lookup("").err(), Some(SchemaError::NotFound));
    assert_eq!(DynamoModel::from_name("siisa_morosos"), Some(DynamoModel::TablaMorosos));
    assert_eq!(DynamoModel::from_name("siisa_morosos "), None);
}

#[test]
fn lookup_keys_and_numeric_columns() {
    let s = lookup("siisa_morosos").unwrap();
    assert_eq!(s.name, "siisa_morosos");
    assert_eq!(s.partition_key, "Cuil");
    assert_eq!(s.sort_key, Some("IdTransmit".to_string()));
    assert_eq!(s.columns[13], "CreateUser");
    assert_eq!(
        s.numeric_columns,
        names(&["Cuil", "IdTransmit", "NroDoc", "IdCliente", "IdRegion", "Periodo", "IdEntidad"])
    );
    let e = lookup("siisa_empleadores").unwrap();
    assert_eq!(e.partition_key, "Cuit");
    assert_eq!(e.sort_key, None);
    let r = lookup("siisa_empleadores_relaciones").unwrap();
    assert_eq!(r.sort_key, Some("Cuit".to_string()));
    assert_eq!(r.date_columns, names(&["FechaIngreso", "FechaBaja"]));
    let p = lookup("personas_telefonos").unwrap();
    assert_eq!(p.partition_key, "IdCliente");
    assert_eq!(p.numeric_columns, names(&["IdCliente", "IdTransmit", "NroDoc", "NroTelefono", "IdEntidad"]));
}

#[test]
fn schemas_are_self_consistent() {
    for name in ["siisa_morosos", "personas_telefonos", "siisa_empleadores", "siisa_empleadores_relaciones"] {
        let s = lookup(name).unwrap();
        assert!(s.columns.contains(&s.partition_key));
        if let Some(k) = &s.sort_key {
            assert!(s.columns.contains(k));
        }
        for n in s.numeric_columns.iter().chain(s.date_columns.iter()) {
            assert!(s.columns.contains(n));
        }
        let mut sorted = s.columns.clone();
        sorted.sort();
        sorted.dedup();
        assert_eq!(sorted.len(), s.columns.len());
    }
}

#[test]
fn numeric_fields_by_model() {
    assert_eq!(get_numeric_fields_local("siisa_empleadores").unwrap(), names(&["Cuit"]));
    assert_eq!(get_numeric_fields_local("siisa_empleadores_relaciones").unwrap(), names(&["Cuil", "Cuit"]));
    assert_eq!(get_numeric_fields_local("nope").err(), Some(SchemaError::NotFound));
}

#[test]
fn header_any_order_passes() {
    let s = lookup("siisa_empleadores").unwrap();
    let header = names(&["Cuit", "RazonSocial", "Domicilio", "CodPostal", "Localidad", "NombreProvincia", "Telefono"]);
    assert_eq!(validate_header(&header, &s), Ok(()));
    let shuffled = names(&["Telefono", "Localidad", "Cuit", "NombreProvincia", "RazonSocial", "CodPostal", "Domicilio"]);
    assert_eq!(validate_header(&shuffled, &s), Ok(()));
}

#[test]
fn header_one_renamed_column() {
    let s = lookup("siisa_empleadores_relaciones").unwrap();
    let header = names(&["Cuil", "CUIT", "FechaIngreso", "FechaBaja"]);
    assert_eq!(
        validate_header(&header, &s),
        Err(SchemaError::HeaderMismatch { missing: names(&["Cuit"]), extra: names(&["CUIT"]) })
    );
}

#[test]
fn header_missing_and_extra_reported_apart() {
    let s = lookup("siisa_empleadores_relaciones").unwrap();
    let short = names(&["Cuil", "Cuit", "FechaIngreso"]);
    assert_eq!(
        validate_header(&short, &s),
        Err(SchemaError::HeaderMismatch { missing: names(&["FechaBaja"]), extra: vec![] })
    );
    let long = names(&["Cuil", "Cuit", "FechaIngreso", "FechaBaja", "Extra"]);
    assert_eq!(
        validate_header(&long, &s),
        Err(SchemaError::HeaderMismatch { missing: vec![], extra: names(&["Extra"]) })
    );
}
