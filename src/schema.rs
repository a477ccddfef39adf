use vstd::prelude::*;

verus! {

/// The supported table models.
#[derive(Clone, Copy, Debug, PartialEq, Eq, Structural)]
pub enum DynamoModel {
    /// `siisa_morosos`
    TablaMorosos,
    /// `personas_telefonos`
    PersonasTelefonos,
    /// `siisa_empleadores`
    Empleadores,
    /// `siisa_empleadores_relaciones`
    EmpleadoresRelaciones,
}

/// The model registered under `name`, if any (names are case-sensitive).
pub open spec fn model_named(name: Seq<char>) -> Option<DynamoModel> {
    if name == "siisa_morosos"@ {
        Some(DynamoModel::TablaMorosos)
    } else if name == "personas_telefonos"@ {
        Some(DynamoModel::PersonasTelefonos)
    } else if name == "siisa_empleadores"@ {
        Some(DynamoModel::Empleadores)
    } else if name == "siisa_empleadores_relaciones"@ {
        Some(DynamoModel::EmpleadoresRelaciones)
    } else {
        None
    }
}

/// The registered name of a model.
pub open spec fn model_name(m: DynamoModel) -> Seq<char> {
    match m {
        DynamoModel::TablaMorosos => "siisa_morosos"@,
        DynamoModel::PersonasTelefonos => "personas_telefonos"@,
        DynamoModel::Empleadores => "siisa_empleadores"@,
        DynamoModel::EmpleadoresRelaciones => "siisa_empleadores_relaciones"@,
    }
}

/// The columns of a model, in their fixed order.
pub open spec fn model_columns(m: DynamoModel) -> Seq<Seq<char>> {
    match m {
        DynamoModel::TablaMorosos => seq![
            "Cuil"@, "IdTransmit"@, "NroDoc"@, "ApellidoNombre"@, "IdCliente"@, "IdRegion"@,
            "RazonSocial"@, "Telefono"@, "NombreRegion"@, "NombreCategoria"@, "Periodo"@,
            "IdEntidad"@, "CreateDate"@, "CreateUser"@,
        ],
        DynamoModel::PersonasTelefonos => seq![
            "IdCliente"@, "IdTransmit"@, "NroDoc"@, "NroTelefono"@, "ApellidoNombre"@,
            "RazonSocial"@, "NombreRegion"@, "Direccion"@, "DireccionAfip"@, "Mail"@,
            "IdEntidad"@, "CreateDate"@, "CreateUser"@,
        ],
        DynamoModel::Empleadores => seq![
            "Cuit"@, "RazonSocial"@, "Domicilio"@, "CodPostal"@, "Localidad"@,
            "NombreProvincia"@, "Telefono"@,
        ],
        DynamoModel::EmpleadoresRelaciones => seq![
            "Cuil"@, "Cuit"@, "FechaIngreso"@, "FechaBaja"@,
        ],
    }
}

/// The partition key column of a model.
pub open spec fn model_partition_key(m: DynamoModel) -> Seq<char> {
    match m {
        DynamoModel::TablaMorosos => "Cuil"@,
        DynamoModel::PersonasTelefonos => "IdCliente"@,
        DynamoModel::Empleadores => "Cuit"@,
        DynamoModel::EmpleadoresRelaciones => "Cuil"@,
    }
}

/// The sort key column of a model, if it has one.
pub open spec fn model_sort_key(m: DynamoModel) -> Option<Seq<char>> {
    match m {
        DynamoModel::TablaMorosos => Some("IdTransmit"@),
        DynamoModel::PersonasTelefonos => Some("IdTransmit"@),
        DynamoModel::Empleadores => None,
        DynamoModel::EmpleadoresRelaciones => Some("Cuit"@),
    }
}

/// The columns of a model whose values must be numbers.
pub open spec fn model_numeric_columns(m: DynamoModel) -> Seq<Seq<char>> {
    match m {
        DynamoModel::TablaMorosos => seq![
            "Cuil"@, "IdTransmit"@, "NroDoc"@, "IdCliente"@, "IdRegion"@, "Periodo"@,
            "IdEntidad"@,
        ],
        DynamoModel::PersonasTelefonos => seq![
            "IdCliente"@, "IdTransmit"@, "NroDoc"@, "NroTelefono"@, "IdEntidad"@,
        ],
        DynamoModel::Empleadores => seq!["Cuit"@],
        DynamoModel::EmpleadoresRelaciones => seq!["Cuil"@, "Cuit"@],
    }
}

/// The optional date columns of a model: empty, or a date with an optional time.
pub open spec fn model_date_columns(m: DynamoModel) -> Seq<Seq<char>> {
    match m {
        DynamoModel::EmpleadoresRelaciones => seq!["FechaIngreso"@, "FechaBaja"@],
        _ => Seq::empty(),
    }
}

/// The views of a list of strings.
pub open spec fn names_of(v: Seq<String>) -> Seq<Seq<char>> {
    v.map_values(|s: String| s@)
}

/// A named record layout: ordered columns, key columns, numeric columns and
/// optional date columns.
pub struct SchemaModel {
    pub name: String,
    pub columns: Vec<String>,
    pub partition_key: String,
    pub sort_key: Option<String>,
    pub numeric_columns: Vec<String>,
    pub date_columns: Vec<String>,
}

impl SchemaModel {
    pub open spec fn column_names(&self) -> Seq<Seq<char>> {
        names_of(self.columns@)
    }

    pub open spec fn numeric_names(&self) -> Seq<Seq<char>> {
        names_of(self.numeric_columns@)
    }

    pub open spec fn date_names(&self) -> Seq<Seq<char>> {
        names_of(self.date_columns@)
    }

    pub open spec fn sort_key_name(&self) -> Option<Seq<char>> {
        match self.sort_key {
            Some(k) => Some(k@),
            None => None,
        }
    }

    /// The schema's invariant: distinct column names, and every key, numeric
    /// and date column among them.
    pub open spec fn wf(&self) -> bool {
        &&& self.column_names().no_duplicates()
        &&& self.column_names().contains(self.partition_key@)
        &&& (self.sort_key_name() matches Some(k) ==> self.column_names().contains(k))
        &&& forall|i: int|
            0 <= i < self.numeric_names().len() ==> self.column_names().contains(
                #[trigger] self.numeric_names()[i],
            )
        &&& forall|i: int|
            0 <= i < self.date_names().len() ==> self.column_names().contains(
                #[trigger] self.date_names()[i],
            )
    }

    /// This value is the registered schema of `m`.
    pub open spec fn describes(&self, m: DynamoModel) -> bool {
        &&& self.name@ == model_name(m)
        &&& self.column_names() == model_columns(m)
        &&& self.partition_key@ == model_partition_key(m)
        &&& self.sort_key_name() == model_sort_key(m)
        &&& self.numeric_names() == model_numeric_columns(m)
        &&& self.date_names() == model_date_columns(m)
    }
}

proof fn lemma_push_distinct(s: Seq<Seq<char>>, x: Seq<char>)
    requires
        s.no_duplicates(),
        !s.contains(x),
    ensures
        s.push(x).no_duplicates(),
{
    let t = s.push(x);
    assert forall|i: int, j: int| 0 <= i < t.len() && 0 <= j < t.len() && i != j implies t[i]
        != t[j] by {
        if i == s.len() as int {
            assert(s[j] == t[j]);
        } else if j == s.len() as int {
            assert(s[i] == t[i]);
        } else {
            assert(s[i] == t[i] && s[j] == t[j]);
        }
    }
}

/// Every registered schema is self-consistent: its column names are distinct,
/// and its keys, numeric columns and date columns are among its columns.
pub proof fn lemma_model_consistent(m: DynamoModel)
    ensures
        model_columns(m).no_duplicates(),
        model_columns(m).contains(model_partition_key(m)),
        model_sort_key(m) matches Some(k) ==> model_columns(m).contains(k),
        forall|i: int|
            0 <= i < model_numeric_columns(m).len() ==> model_columns(m).contains(
                #[trigger] model_numeric_columns(m)[i],
            ),
        forall|i: int|
            0 <= i < model_date_columns(m).len() ==> model_columns(m).contains(
                #[trigger] model_date_columns(m)[i],
            ),
{
    broadcast use vstd::seq_lib::lemma_seq_contains_after_push, vstd::string::group_string_axioms;

    // Distinctness is built one column at a time: names of different lengths
    // differ, and each pair of equal length differs at the character noted.
    let c = model_columns(m);
    let e = Seq::<Seq<char>>::empty();
    assert(e.no_duplicates());
    match m {
        DynamoModel::TablaMorosos => {
            reveal_strlit("Cuil");
            reveal_strlit("IdTransmit");
            reveal_strlit("NroDoc");
            reveal_strlit("ApellidoNombre");
            reveal_strlit("IdCliente");
            reveal_strlit("IdRegion");
            reveal_strlit("RazonSocial");
            reveal_strlit("Telefono");
            reveal_strlit("NombreRegion");
            reveal_strlit("NombreCategoria");
            reveal_strlit("Periodo");
            reveal_strlit("IdEntidad");
            reveal_strlit("CreateDate");
            reveal_strlit("CreateUser");
            assert("Cuil"@.len() == 4);
            assert("IdTransmit"@.len() == 10);
            assert("NroDoc"@.len() == 6);
            assert("ApellidoNombre"@.len() == 14);
            assert("IdCliente"@.len() == 9);
            assert("IdRegion"@.len() == 8);
            assert("RazonSocial"@.len() == 11);
            assert("Telefono"@.len() == 8);
            assert("NombreRegion"@.len() == 12);
            assert("NombreCategoria"@.len() == 15);
            assert("Periodo"@.len() == 7);
            assert("IdEntidad"@.len() == 9);
            assert("CreateDate"@.len() == 10);
            assert("CreateUser"@.len() == 10);
            assert("IdTransmit"@[0] != "CreateDate"@[0]);
            assert("IdTransmit"@[0] != "CreateUser"@[0]);
            assert("IdCliente"@[2] != "IdEntidad"@[2]);
            assert("IdRegion"@[0] != "Telefono"@[0]);
            assert("CreateDate"@[6] != "CreateUser"@[6]);
            lemma_push_distinct(e, "Cuil"@);
            let s1 = e.push("Cuil"@);
            lemma_push_distinct(s1, "IdTransmit"@);
            let s2 = s1.push("IdTransmit"@);
            lemma_push_distinct(s2, "NroDoc"@);
            let s3 = s2.push("NroDoc"@);
            lemma_push_distinct(s3, "ApellidoNombre"@);
            let s4 = s3.push("ApellidoNombre"@);
            lemma_push_distinct(s4, "IdCliente"@);
            let s5 = s4.push("IdCliente"@);
            lemma_push_distinct(s5, "IdRegion"@);
            let s6 = s5.push("IdRegion"@);
            lemma_push_distinct(s6, "RazonSocial"@);
            let s7 = s6.push("RazonSocial"@);
            lemma_push_distinct(s7, "Telefono"@);
            let s8 = s7.push("Telefono"@);
            lemma_push_distinct(s8, "NombreRegion"@);
            let s9 = s8.push("NombreRegion"@);
            lemma_push_distinct(s9, "NombreCategoria"@);
            let s10 = s9.push("NombreCategoria"@);
            lemma_push_distinct(s10, "Periodo"@);
            let s11 = s10.push("Periodo"@);
            lemma_push_distinct(s11, "IdEntidad"@);
            let s12 = s11.push("IdEntidad"@);
            lemma_push_distinct(s12, "CreateDate"@);
            let s13 = s12.push("CreateDate"@);
            lemma_push_distinct(s13, "CreateUser"@);
            let s14 = s13.push("CreateUser"@);
            assert(c =~= s14);
            assert(c.no_duplicates());
            assert(c[0] == "Cuil"@);
            assert(c[1] == "IdTransmit"@);
            assert(c[2] == "NroDoc"@);
            assert(c[4] == "IdCliente"@);
            assert(c[5] == "IdRegion"@);
            assert(c[10] == "Periodo"@);
            assert(c[11] == "IdEntidad"@);
        },
        DynamoModel::PersonasTelefonos => {
            reveal_strlit("IdCliente");
            reveal_strlit("IdTransmit");
            reveal_strlit("NroDoc");
            reveal_strlit("NroTelefono");
            reveal_strlit("ApellidoNombre");
            reveal_strlit("RazonSocial");
            reveal_strlit("NombreRegion");
            reveal_strlit("Direccion");
            reveal_strlit("DireccionAfip");
            reveal_strlit("Mail");
            reveal_strlit("IdEntidad");
            reveal_strlit("CreateDate");
            reveal_strlit("CreateUser");
            assert("IdCliente"@.len() == 9);
            assert("IdTransmit"@.len() == 10);
            assert("NroDoc"@.len() == 6);
            assert("NroTelefono"@.len() == 11);
            assert("ApellidoNombre"@.len() == 14);
            assert("RazonSocial"@.len() == 11);
            assert("NombreRegion"@.len() == 12);
            assert("Direccion"@.len() == 9);
            assert("DireccionAfip"@.len() == 13);
            assert("Mail"@.len() == 4);
            assert("IdEntidad"@.len() == 9);
            assert("CreateDate"@.len() == 10);
            assert("CreateUser"@.len() == 10);
            assert("IdCliente"@[0] != "Direccion"@[0]);
            assert("IdCliente"@[2] != "IdEntidad"@[2]);
            assert("IdTransmit"@[0] != "CreateDate"@[0]);
            assert("IdTransmit"@[0] != "CreateUser"@[0]);
            assert("NroTelefono"@[0] != "RazonSocial"@[0]);
            assert("Direccion"@[0] != "IdEntidad"@[0]);
            assert("CreateDate"@[6] != "CreateUser"@[6]);
            lemma_push_distinct(e, "IdCliente"@);
            let s1 = e.push("IdCliente"@);
            lemma_push_distinct(s1, "IdTransmit"@);
            let s2 = s1.push("IdTransmit"@);
            lemma_push_distinct(s2, "NroDoc"@);
            let s3 = s2.push("NroDoc"@);
            lemma_push_distinct(s3, "NroTelefono"@);
            let s4 = s3.push("NroTelefono"@);
            lemma_push_distinct(s4, "ApellidoNombre"@);
            let s5 = s4.push("ApellidoNombre"@);
            lemma_push_distinct(s5, "RazonSocial"@);
            let s6 = s5.push("RazonSocial"@);
            lemma_push_distinct(s6, "NombreRegion"@);
            let s7 = s6.push("NombreRegion"@);
            lemma_push_distinct(s7, "Direccion"@);
            let s8 = s7.push("Direccion"@);
            lemma_push_distinct(s8, "DireccionAfip"@);
            let s9 = s8.push("DireccionAfip"@);
            lemma_push_distinct(s9, "Mail"@);
            let s10 = s9.push("Mail"@);
            lemma_push_distinct(s10, "IdEntidad"@);
            let s11 = s10.push("IdEntidad"@);
            lemma_push_distinct(s11, "CreateDate"@);
            let s12 = s11.push("CreateDate"@);
            lemma_push_distinct(s12, "CreateUser"@);
            let s13 = s12.push("CreateUser"@);
            assert(c =~= s13);
            assert(c.no_duplicates());
            assert(c[0] == "IdCliente"@);
            assert(c[1] == "IdTransmit"@);
            assert(c[2] == "NroDoc"@);
            assert(c[3] == "NroTelefono"@);
            assert(c[10] == "IdEntidad"@);
        },
        DynamoModel::Empleadores => {
            reveal_strlit("Cuit");
            reveal_strlit("RazonSocial");
            reveal_strlit("Domicilio");
            reveal_strlit("CodPostal");
            reveal_strlit("Localidad");
            reveal_strlit("NombreProvincia");
            reveal_strlit("Telefono");
            assert("Cuit"@.len() == 4);
            assert("RazonSocial"@.len() == 11);
            assert("Domicilio"@.len() == 9);
            assert("CodPostal"@.len() == 9);
            assert("Localidad"@.len() == 9);
            assert("NombreProvincia"@.len() == 15);
            assert("Telefono"@.len() == 8);
            assert("Domicilio"@[0] != "CodPostal"@[0]);
            assert("Domicilio"@[0] != "Localidad"@[0]);
            assert("CodPostal"@[0] != "Localidad"@[0]);
            lemma_push_distinct(e, "Cuit"@);
            let s1 = e.push("Cuit"@);
            lemma_push_distinct(s1, "RazonSocial"@);
            let s2 = s1.push("RazonSocial"@);
            lemma_push_distinct(s2, "Domicilio"@);
            let s3 = s2.push("Domicilio"@);
            lemma_push_distinct(s3, "CodPostal"@);
            let s4 = s3.push("CodPostal"@);
            lemma_push_distinct(s4, "Localidad"@);
            let s5 = s4.push("Localidad"@);
            lemma_push_distinct(s5, "NombreProvincia"@);
            let s6 = s5.push("NombreProvincia"@);
            lemma_push_distinct(s6, "Telefono"@);
            let s7 = s6.push("Telefono"@);
            assert(c =~= s7);
            assert(c.no_duplicates());
            assert(c[0] == "Cuit"@);
        },
        DynamoModel::EmpleadoresRelaciones => {
            reveal_strlit("Cuil");
            reveal_strlit("Cuit");
            reveal_strlit("FechaIngreso");
            reveal_strlit("FechaBaja");
            assert("Cuil"@.len() == 4);
            assert("Cuit"@.len() == 4);
            assert("FechaIngreso"@.len() == 12);
            assert("FechaBaja"@.len() == 9);
            assert("Cuil"@[3] != "Cuit"@[3]);
            lemma_push_distinct(e, "Cuil"@);
            let s1 = e.push("Cuil"@);
            lemma_push_distinct(s1, "Cuit"@);
            let s2 = s1.push("Cuit"@);
            lemma_push_distinct(s2, "FechaIngreso"@);
            let s3 = s2.push("FechaIngreso"@);
            lemma_push_distinct(s3, "FechaBaja"@);
            let s4 = s3.push("FechaBaja"@);
            assert(c =~= s4);
            assert(c.no_duplicates());
            assert(c[0] == "Cuil"@);
            assert(c[1] == "Cuit"@);
            assert(c[2] == "FechaIngreso"@);
            assert(c[3] == "FechaBaja"@);
        },
    }
}

/// Why a schema operation failed.
#[derive(Debug, PartialEq, Eq)]
pub enum SchemaError {
    /// No model is registered under the name.
    NotFound,
    /// A header's column names differ from the schema's, as sets.
    HeaderMismatch { missing: Vec<String>, extra: Vec<String> },
    /// A record does not have the schema's number of columns.
    ColumnCountMismatch { expected: usize, found: usize },
    /// A field's value breaks its column's grammar.
    FieldInvalid { column: String, value: String },
    /// A record is too short to reach its key columns.
    ExtractionError { needed: usize, found: usize },
}

impl DynamoModel {
    /// The model registered under `name`, if any.
    pub fn from_name(name: &str) -> (r: Option<DynamoModel>)
        ensures
            r == model_named(name@),
    {
        let n = String::from_str(name);
        if n == String::from_str("siisa_morosos") {
            Some(DynamoModel::TablaMorosos)
        } else if n == String::from_str("personas_telefonos") {
            Some(DynamoModel::PersonasTelefonos)
        } else if n == String::from_str("siisa_empleadores") {
            Some(DynamoModel::Empleadores)
        } else if n == String::from_str("siisa_empleadores_relaciones") {
            Some(DynamoModel::EmpleadoresRelaciones)
        } else {
            None
        }
    }

    /// The registered schema of this model.
    pub fn schema(&self) -> (r: SchemaModel)
        ensures
            r.describes(*self),
            r.wf(),
    {
        let r = match self {
            DynamoModel::TablaMorosos => SchemaModel {
                name: String::from_str("siisa_morosos"),
                columns: vec![String::from_str("Cuil"), String::from_str("IdTransmit"), String::from_str("NroDoc"), String::from_str("ApellidoNombre"), String::from_str("IdCliente"), String::from_str("IdRegion"), String::from_str("RazonSocial"), String::from_str("Telefono"), String::from_str("NombreRegion"), String::from_str("NombreCategoria"), String::from_str("Periodo"), String::from_str("IdEntidad"), String::from_str("CreateDate"), String::from_str("CreateUser")],
                partition_key: String::from_str("Cuil"),
                sort_key: Some(String::from_str("IdTransmit")),
                numeric_columns: vec![String::from_str("Cuil"), String::from_str("IdTransmit"), String::from_str("NroDoc"), String::from_str("IdCliente"), String::from_str("IdRegion"), String::from_str("Periodo"), String::from_str("IdEntidad")],
                date_columns: Vec::new(),
            },
            DynamoModel::PersonasTelefonos => SchemaModel {
                name: String::from_str("personas_telefonos"),
                columns: vec![String::from_str("IdCliente"), String::from_str("IdTransmit"), String::from_str("NroDoc"), String::from_str("NroTelefono"), String::from_str("ApellidoNombre"), String::from_str("RazonSocial"), String::from_str("NombreRegion"), String::from_str("Direccion"), String::from_str("DireccionAfip"), String::from_str("Mail"), String::from_str("IdEntidad"), String::from_str("CreateDate"), String::from_str("CreateUser")],
                partition_key: String::from_str("IdCliente"),
                sort_key: Some(String::from_str("IdTransmit")),
                numeric_columns: vec![String::from_str("IdCliente"), String::from_str("IdTransmit"), String::from_str("NroDoc"), String::from_str("NroTelefono"), String::from_str("IdEntidad")],
                date_columns: Vec::new(),
            },
            DynamoModel::Empleadores => SchemaModel {
                name: String::from_str("siisa_empleadores"),
                columns: vec![String::from_str("Cuit"), String::from_str("RazonSocial"), String::from_str("Domicilio"), String::from_str("CodPostal"), String::from_str("Localidad"), String::from_str("NombreProvincia"), String::from_str("Telefono")],
                partition_key: String::from_str("Cuit"),
                sort_key: None,
                numeric_columns: vec![String::from_str("Cuit")],
                date_columns: Vec::new(),
            },
            DynamoModel::EmpleadoresRelaciones => SchemaModel {
                name: String::from_str("siisa_empleadores_relaciones"),
                columns: vec![String::from_str("Cuil"), String::from_str("Cuit"), String::from_str("FechaIngreso"), String::from_str("FechaBaja")],
                partition_key: String::from_str("Cuil"),
                sort_key: Some(String::from_str("Cuit")),
                numeric_columns: vec![String::from_str("Cuil"), String::from_str("Cuit")],
                date_columns: vec![String::from_str("FechaIngreso"), String::from_str("FechaBaja")],
            },
        };
        proof {
            assert(r.column_names() =~= model_columns(*self));
            assert(r.numeric_names() =~= model_numeric_columns(*self));
            assert(r.date_names() =~= model_date_columns(*self));
            lemma_model_consistent(*self);
        }
        r
    }
}

/// The schema registered under `name`, or `NotFound`.
pub fn lookup(name: &str) -> (r: Result<SchemaModel, SchemaError>)
    ensures
        match model_named(name@) {
            Some(m) => r matches Ok(s) && s.describes(m) && s.wf(),
            None => r == Err::<SchemaModel, SchemaError>(SchemaError::NotFound),
        },
{
    match DynamoModel::from_name(name) {
        Some(m) => Ok(m.schema()),
        None => Err(SchemaError::NotFound),
    }
}

/// The numeric columns of the model registered under `model_type`, in order.
pub fn get_numeric_fields_local(model_type: &str) -> (r: Result<Vec<String>, SchemaError>)
    ensures
        match model_named(model_type@) {
            Some(m) => r matches Ok(v) && names_of(v@) == model_numeric_columns(m),
            None => r == Err::<Vec<String>, SchemaError>(SchemaError::NotFound),
        },
{
    match lookup(model_type) {
        Ok(schema) => Ok(schema.numeric_columns),
        Err(e) => Err(e),
    }
}

} // verus!
