//! The columnar schema model.
//!
//! A table schema is an ordered sequence of typed fields.  Field 0 is
//! always the identifier column (a non-nullable 64-bit integer named
//! "label"); somewhere after it stands a fixed-width list of 32-bit
//! floats holding the vectors, whose width is the index's dimension;
//! any remaining fields are caller-defined extra columns.
//!
//! The model keeps exactly what the manager's decisions read: field
//! names, nullability, and the column types that can appear in a
//! table, with a fixed-width float list carrying the name and
//! nullability of its element field (backends differ in how they name
//! it, which is what the ingestion cast has to reconcile).

use vstd::prelude::*;

use crate::errors::Error;

verus! {

/// The ghost image of a column type.
#[verifier::ext_equal]
pub enum TypeModel {
    Int64,
    Int32,
    Float32,
    Float64,
    Utf8,
    Boolean,
    FixedSizeList { item_name: Seq<char>, item_nullable: bool, width: nat },
}

/// The ghost image of a field.
#[verifier::ext_equal]
pub struct FieldModel {
    pub name: Seq<char>,
    pub dtype: TypeModel,
    pub nullable: bool,
}

/// A column type.  The fixed-width list variant is always a list of
/// 32-bit floats; `item_name` and `item_nullable` describe its element
/// field and `width` its length, the vector dimension.
#[derive(Debug)]
pub enum DataType {
    Int64,
    Int32,
    Float32,
    Float64,
    Utf8,
    Boolean,
    FixedSizeList { item_name: String, item_nullable: bool, width: usize },
}

impl View for DataType {
    type V = TypeModel;

    open spec fn view(&self) -> TypeModel {
        match self {
            DataType::Int64 => TypeModel::Int64,
            DataType::Int32 => TypeModel::Int32,
            DataType::Float32 => TypeModel::Float32,
            DataType::Float64 => TypeModel::Float64,
            DataType::Utf8 => TypeModel::Utf8,
            DataType::Boolean => TypeModel::Boolean,
            DataType::FixedSizeList { item_name, item_nullable, width } => (
            TypeModel::FixedSizeList {
                item_name: item_name@,
                item_nullable: *item_nullable,
                width: *width as nat,
            }),
        }
    }
}

/// One typed, named column.
#[derive(Debug)]
pub struct Field {
    pub name: String,
    pub dtype: DataType,
    pub nullable: bool,
}

impl View for Field {
    type V = FieldModel;

    open spec fn view(&self) -> FieldModel {
        FieldModel { name: self.name@, dtype: self.dtype@, nullable: self.nullable }
    }
}

/// An ordered sequence of fields.
#[derive(Debug)]
pub struct Schema {
    pub fields: Vec<Field>,
}

impl View for Schema {
    type V = Seq<FieldModel>;

    open spec fn view(&self) -> Seq<FieldModel> {
        self.fields@.map_values(|f: Field| f@)
    }
}

/// Whether a type is the fixed-width float-list type.
pub open spec fn is_fixed_list(t: TypeModel) -> bool {
    t is FixedSizeList
}

/// The width of a fixed-width list type, its vector dimension.
pub open spec fn list_width(t: TypeModel) -> nat {
    t->width
}

/// The identifier field that opens every table schema.
pub open spec fn label_field_model() -> FieldModel {
    FieldModel { name: "label"@, dtype: TypeModel::Int64, nullable: false }
}

/// The vector field of a vector-only schema: a non-nullable
/// fixed-width float list named "vector" whose element field carries
/// the canonical name.
pub open spec fn vector_field_model(dim: nat) -> FieldModel {
    FieldModel {
        name: "vector"@,
        dtype: TypeModel::FixedSizeList { item_name: "item"@, item_nullable: true, width: dim },
        nullable: false,
    }
}

/// A field as it is written into a table schema: fixed-width lists get
/// their element field renamed to the canonical name, everything else
/// is kept verbatim.
pub open spec fn canonical_field(f: FieldModel) -> FieldModel {
    if is_fixed_list(f.dtype) {
        FieldModel {
            name: f.name,
            dtype: TypeModel::FixedSizeList {
                item_name: "item"@,
                item_nullable: true,
                width: list_width(f.dtype),
            },
            nullable: f.nullable,
        }
    } else {
        f
    }
}

/// The index of the first fixed-width list field, or `-1` if there is
/// none; the dimension of a table is the width found there.
pub open spec fn first_fixed_list(fields: Seq<FieldModel>) -> int
    decreases fields.len(),
{
    if fields.len() == 0 {
        -1int
    } else if is_fixed_list(fields[0].dtype) {
        0int
    } else {
        let rest = first_fixed_list(fields.drop_first());
        if rest == -1 {
            -1int
        } else {
            rest + 1
        }
    }
}

/// What `first_fixed_list` finds: a fixed-width list field before
/// which there is none, or the absence of any.
pub proof fn lemma_first_fixed_list(fields: Seq<FieldModel>)
    ensures
        first_fixed_list(fields) >= -1,
        first_fixed_list(fields) == -1 ==> forall|i: int|
            0 <= i < fields.len() ==> !is_fixed_list(fields[i].dtype),
        first_fixed_list(fields) >= 0 ==> {
            &&& first_fixed_list(fields) < fields.len()
            &&& is_fixed_list(fields[first_fixed_list(fields)].dtype)
            &&& forall|i: int|
                0 <= i < first_fixed_list(fields) ==> !is_fixed_list(fields[i].dtype)
        },
    decreases fields.len(),
{
    if fields.len() > 0 && !is_fixed_list(fields[0].dtype) {
        lemma_first_fixed_list(fields.drop_first());
        if first_fixed_list(fields) == -1 {
            assert(first_fixed_list(fields.drop_first()) == -1);
            assert forall|i: int|
                0 <= i < fields.len() implies !is_fixed_list(fields[i].dtype) by {
                if i >= 1 {
                    assert(fields.drop_first()[i - 1] == fields[i]);
                }
            }
        } else {
            assert forall|i: int|
                0 <= i < first_fixed_list(fields) implies !is_fixed_list(fields[i].dtype) by {
                if i >= 1 {
                    assert(fields.drop_first()[i - 1] == fields[i]);
                }
            }
        }
    }
}

/// The schema shape the manager maintains: the identifier field
/// stands first and nothing else carries its name, and a fixed-width
/// list field of positive width is present to hold the vectors.
pub open spec fn schema_wf(s: Seq<FieldModel>) -> bool {
    &&& s.len() >= 2
    &&& s[0] == label_field_model()
    &&& forall|i: int| 1 <= i < s.len() ==> s[i].name != "label"@
    &&& first_fixed_list(s) >= 1
    &&& schema_dimension(s) >= 1
}

/// The dimension a schema determines: the width of its first
/// fixed-width list field.
pub open spec fn schema_dimension(s: Seq<FieldModel>) -> nat {
    list_width(s[first_fixed_list(s)].dtype)
}

/// Whether an externally authored schema can determine a dimension:
/// it has a fixed-width list field and the first one has positive
/// width.
pub open spec fn external_usable(s: Seq<FieldModel>) -> bool {
    &&& first_fixed_list(s) >= 0
    &&& list_width(s[first_fixed_list(s)].dtype) >= 1
}

/// Whether the identifier field stands first and no other field
/// carries its name.
pub open spec fn label_shape(s: Seq<FieldModel>) -> bool {
    &&& s.len() >= 1
    &&& s[0] == label_field_model()
    &&& forall|i: int| 1 <= i < s.len() ==> s[i].name != "label"@
}

impl Schema {
    /// The vector-only schema for a given dimension: the identifier
    /// field followed by the canonical vector field.
    pub fn build_vector_schema(dimension: usize) -> (r: Schema)
        requires
            1 <= dimension,
        ensures
            r@ =~= seq![label_field_model(), vector_field_model(dimension as nat)],
            schema_wf(r@),
            schema_dimension(r@) == dimension as nat,
    {
        let label = Field {
            name: label_name(),
            dtype: DataType::Int64,
            nullable: false,
        };
        let vector = Field {
            name: vector_name(),
            dtype: DataType::FixedSizeList {
                item_name: item_name(),
                item_nullable: true,
                width: dimension,
            },
            nullable: false,
        };
        let fields = vec![label, vector];
        let r = Schema { fields };
        proof {
            reveal_strlit("label");
            reveal_strlit("vector");
            assert(r@[0] =~= label_field_model());
            assert(r@[1] =~= vector_field_model(dimension as nat));
            assert(r@ =~= seq![label_field_model(), vector_field_model(dimension as nat)]);
            assert(r@.drop_first() =~= seq![vector_field_model(dimension as nat)]);
            assert(first_fixed_list(r@.drop_first()) == 0);
            assert(first_fixed_list(r@) == 1);
            assert("vector"@.len() != "label"@.len());
        }
        r
    }

    /// How many fields the schema has.
    pub fn len(&self) -> (r: usize)
        ensures
            r == self@.len(),
    {
        self.fields.len()
    }

    /// Whether the schema has extra columns beyond the mandatory
    /// identifier and vector fields.
    pub fn has_extra_columns(&self) -> (r: bool)
        ensures
            r == (self@.len() > 2),
    {
        self.fields.len() > 2
    }

    /// Whether the identifier field stands first and nothing else
    /// carries its name.
    pub fn is_table_shape(&self) -> (r: bool)
        ensures
            r == label_shape(self@),
    {
        if self.fields.len() == 0 {
            return false;
        }
        let lbl = label_name();
        if !(self.fields[0].name == lbl) {
            return false;
        }
        if !self.fields[0].dtype.matches(&DataType::Int64) {
            return false;
        }
        if self.fields[0].nullable {
            return false;
        }
        proof {
            assert(self@[0] =~= label_field_model());
        }
        let n = self.fields.len();
        let mut i: usize = 1;
        while i < n
            invariant
                1 <= i <= n,
                n == self@.len(),
                lbl@ == "label"@,
                self@[0] == label_field_model(),
                forall|j: int| 1 <= j < i ==> self@[j].name != "label"@,
            decreases n - i,
        {
            if self.fields[i].name == lbl {
                proof {
                    assert(self@[i as int].name == "label"@);
                }
                return false;
            }
            i = i + 1;
        }
        true
    }

    /// The width of the first fixed-width list field, the dimension of
    /// the vectors this schema stores; `NoVectorColumn` exactly when no
    /// such field exists, which makes the schema unusable as an index.
    pub fn derive_dimension(&self) -> (r: Result<usize, Error>)
        ensures
            first_fixed_list(self@) >= 0 ==> (r matches Ok(d) && d as nat == schema_dimension(
                self@,
            )),
            first_fixed_list(self@) == -1 ==> (r matches Err(e) && e == Error::NoVectorColumn),
    {
        let n = self.fields.len();
        let mut i: usize = 0;
        while i < n
            invariant
                0 <= i <= n,
                n == self@.len(),
                forall|j: int| 0 <= j < i ==> !is_fixed_list(self@[j].dtype),
            decreases n - i,
        {
            match &self.fields[i].dtype {
                DataType::FixedSizeList { width, .. } => {
                    proof {
                        lemma_first_fixed_list_found(self@, i as int);
                    }
                    return Ok(*width);
                },
                _ => {
                },
            }
            i = i + 1;
        }
        proof {
            lemma_first_fixed_list_none(self@);
        }
        Err(Error::NoVectorColumn)
    }
}

/// If everything before `i` is not a fixed-width list and `i` is one,
/// then `i` is the first.
proof fn lemma_first_fixed_list_found(fields: Seq<FieldModel>, i: int)
    requires
        0 <= i < fields.len(),
        is_fixed_list(fields[i].dtype),
        forall|j: int| 0 <= j < i ==> !is_fixed_list(fields[j].dtype),
    ensures
        first_fixed_list(fields) == i,
    decreases i,
{
    if i == 0 {
    } else {
        assert(forall|j: int|
            0 <= j < i - 1 ==> fields.drop_first()[j] == fields[j + 1]);
        lemma_first_fixed_list_found(fields.drop_first(), i - 1);
    }
}

/// If no field is a fixed-width list, there is no first one.
proof fn lemma_first_fixed_list_none(fields: Seq<FieldModel>)
    requires
        forall|j: int| 0 <= j < fields.len() ==> !is_fixed_list(fields[j].dtype),
    ensures
        first_fixed_list(fields) == -1,
    decreases fields.len(),
{
    if fields.len() > 0 {
        assert(forall|j: int|
            0 <= j < fields.drop_first().len() ==> fields.drop_first()[j] == fields[j + 1]);
        lemma_first_fixed_list_none(fields.drop_first());
    }
}

impl DataType {
    /// An identical copy.
    pub fn duplicate(&self) -> (r: DataType)
        ensures
            r@ == self@,
    {
        match self {
            DataType::Int64 => DataType::Int64,
            DataType::Int32 => DataType::Int32,
            DataType::Float32 => DataType::Float32,
            DataType::Float64 => DataType::Float64,
            DataType::Utf8 => DataType::Utf8,
            DataType::Boolean => DataType::Boolean,
            DataType::FixedSizeList { item_name, item_nullable, width } => (
            DataType::FixedSizeList {
                item_name: item_name.clone(),
                item_nullable: *item_nullable,
                width: *width,
            }),
        }
    }

    /// Whether two column types are equal.
    pub fn matches(&self, other: &DataType) -> (r: bool)
        ensures
            r == (self@ == other@),
    {
        match (self, other) {
            (DataType::Int64, DataType::Int64) => true,
            (DataType::Int32, DataType::Int32) => true,
            (DataType::Float32, DataType::Float32) => true,
            (DataType::Float64, DataType::Float64) => true,
            (DataType::Utf8, DataType::Utf8) => true,
            (DataType::Boolean, DataType::Boolean) => true,
            (
                DataType::FixedSizeList { item_name: n1, item_nullable: u1, width: w1 },
                DataType::FixedSizeList { item_name: n2, item_nullable: u2, width: w2 },
            ) => {
                let r = *n1 == *n2 && *u1 == *u2 && *w1 == *w2;
                proof {
                    assert(self@ == (TypeModel::FixedSizeList {
                        item_name: n1@,
                        item_nullable: *u1,
                        width: *w1 as nat,
                    }));
                    assert(other@ == (TypeModel::FixedSizeList {
                        item_name: n2@,
                        item_nullable: *u2,
                        width: *w2 as nat,
                    }));
                    if r {
                        assert(self@ =~= other@);
                    }
                }
                r
            },
            _ => false,
        }
    }

    /// Whether a stored value of this type can be reconciled with
    /// the target type by the engine's cast: two fixed-width lists
    /// cast exactly when their widths agree (the element naming is
    /// reconciled); a one-wide list casts to and from any scalar;
    /// and any two of the scalar types here cast to each other
    /// (numeric conversions, parsing and printing).
    pub fn castable_to(&self, target: &DataType) -> (r: bool)
        ensures
            r == castable(self@, target@),
    {
        match (self, target) {
            (
                DataType::FixedSizeList { width: w1, .. },
                DataType::FixedSizeList { width: w2, .. },
            ) => *w1 == *w2,
            (DataType::FixedSizeList { width: w1, .. }, _) => *w1 == 1,
            (_, DataType::FixedSizeList { width: w2, .. }) => *w2 == 1,
            _ => true,
        }
    }
}

/// When the engine's cast reconciles a stored column of type `from`
/// with `to`: fixed-width lists of equal width, a one-wide list with
/// any scalar, and any pair of the scalar types here.
pub open spec fn castable(from: TypeModel, to: TypeModel) -> bool {
    if is_fixed_list(from) && is_fixed_list(to) {
        list_width(from) == list_width(to)
    } else if is_fixed_list(from) {
        list_width(from) == 1
    } else if is_fixed_list(to) {
        list_width(to) == 1
    } else {
        true
    }
}

impl Field {
    /// An identical copy.
    pub fn duplicate(&self) -> (r: Field)
        ensures
            r@ == self@,
    {
        let r = Field {
            name: self.name.clone(),
            dtype: self.dtype.duplicate(),
            nullable: self.nullable,
        };
        proof {
            assert(r@ =~= self@);
        }
        r
    }

    /// The field as it is written into a table schema: a fixed-width
    /// list gets its element field renamed to the canonical name,
    /// anything else is kept verbatim.
    pub fn canonicalize(&self) -> (r: Field)
        ensures
            r@ == canonical_field(self@),
    {
        match &self.dtype {
            DataType::FixedSizeList { width, .. } => {
                let r = Field {
                    name: self.name.clone(),
                    dtype: DataType::FixedSizeList {
                        item_name: item_name(),
                        item_nullable: true,
                        width: *width,
                    },
                    nullable: self.nullable,
                };
                proof {
                    assert(r@ =~= canonical_field(self@));
                }
                r
            },
            _ => self.duplicate(),
        }
    }
}

impl Schema {
    /// The table schema derived from an externally authored schema:
    /// the identifier field, then every external field in its original
    /// order, fixed-width lists canonicalized.  The width of the first
    /// fixed-width list is the returned dimension.
    ///
    /// Fails with `NoVectorColumn` when the external schema holds no
    /// fixed-width list, and with `SchemaMismatch` when one of its
    /// fields already carries the identifier column's name, which
    /// would leave the table with two columns named "label".
    pub fn from_external(external: &Schema) -> (r: Result<(Schema, usize), Error>)
        ensures
            !external_usable(external@) ==> (r matches Err(e) && e == Error::NoVectorColumn),
            external_usable(external@) && (exists|i: int|
                0 <= i < external@.len() && external@[i].name == "label"@) ==> (r matches Err(e)
                && e == Error::SchemaMismatch),
            external_usable(external@) && (forall|i: int|
                0 <= i < external@.len() ==> external@[i].name != "label"@) ==> (r matches Ok(p)
                && {
                let (s, dim) = p;
                &&& s@.len() == external@.len() + 1
                &&& s@[0] == label_field_model()
                &&& forall|i: int|
                    0 <= i < external@.len() ==> s@[i + 1] == canonical_field(external@[i])
                &&& dim as nat == list_width(external@[first_fixed_list(external@)].dtype)
                &&& schema_wf(s@)
                &&& schema_dimension(s@) == dim as nat
            }),
    {
        let dim = match external.derive_dimension() {
            Ok(d) => d,
            Err(e) => {
                proof {
                    lemma_first_fixed_list(external@);
                }
                return Err(e);
            },
        };
        if dim == 0 {
            return Err(Error::NoVectorColumn);
        }
        proof {
            lemma_first_fixed_list(external@);
        }
        let lbl = label_name();
        let n = external.fields.len();
        let mut i: usize = 0;
        while i < n
            invariant
                0 <= i <= n,
                n == external@.len(),
                lbl@ == "label"@,
                external_usable(external@),
                forall|j: int| 0 <= j < i ==> external@[j].name != "label"@,
            decreases n - i,
        {
            if external.fields[i].name == lbl {
                proof {
                    assert(external@[i as int].name == "label"@);
                    assert(first_fixed_list(external@) >= 0);
                }
                return Err(Error::SchemaMismatch);
            }
            i = i + 1;
        }

        let mut fields: Vec<Field> = Vec::new();
        fields.push(Field { name: lbl, dtype: DataType::Int64, nullable: false });
        proof {
            assert(fields@.map_values(|f: Field| f@)[0] =~= label_field_model());
        }
        let mut i: usize = 0;
        while i < n
            invariant
                0 <= i <= n,
                n == external@.len(),
                fields@.len() == i + 1,
                fields@.map_values(|f: Field| f@)[0] == label_field_model(),
                forall|j: int|
                    0 <= j < i ==> fields@.map_values(|f: Field| f@)[j + 1] == canonical_field(
                        external@[j],
                    ),
            decreases n - i,
        {
            fields.push(external.fields[i].canonicalize());
            proof {
                assert(fields@.map_values(|f: Field| f@)[i as int + 1] == canonical_field(
                    external@[i as int],
                ));
            }
            i = i + 1;
        }
        let s = Schema { fields };
        proof {
            let ext = external@;
            let fi = first_fixed_list(ext);
            assert(s@.len() == ext.len() + 1);
            assert(s@[0] == label_field_model());
            assert(canonical_field(ext[fi]).dtype is FixedSizeList);
            assert(is_fixed_list(s@[fi + 1].dtype));
            assert forall|j: int| 0 <= j < fi + 1 implies !is_fixed_list(s@[j].dtype) by {
                if j >= 1 {
                    assert(s@[j] == canonical_field(ext[j - 1]));
                }
            }
            lemma_first_fixed_list_found(s@, fi + 1);
            assert forall|j: int| 1 <= j < s@.len() implies s@[j].name != "label"@ by {
                assert(s@[j] == canonical_field(ext[j - 1]));
                assert(canonical_field(ext[j - 1]).name == ext[j - 1].name);
            }
            assert(schema_wf(s@));
            assert(list_width(canonical_field(ext[fi]).dtype) == list_width(ext[fi].dtype));
            assert(schema_dimension(s@) == list_width(ext[fi].dtype));
        }
        Ok((s, dim))
    }
}

/// The canonical name of the identifier column.
pub fn label_name() -> (r: String)
    ensures
        r@ == "label"@,
{
    let r = String::from_str("label");
    r
}

/// The canonical name of the vector column in a vector-only schema.
pub fn vector_name() -> (r: String)
    ensures
        r@ == "vector"@,
{
    let r = String::from_str("vector");
    r
}

/// The canonical name of a fixed-width list's element field.
pub fn item_name() -> (r: String)
    ensures
        r@ == "item"@,
{
    let r = String::from_str("item");
    r
}

} // verus!
