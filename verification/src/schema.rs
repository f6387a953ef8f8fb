//! Table schemas: data types, fields and column names.

use crate::text::same_text;
use std::sync::Arc;
use vstd::prelude::*;

verus! {

/// A data type without parts.
#[derive(Debug, Clone, Copy, PartialEq, Eq, Structural)]
pub enum PrimitiveType {
    String,
    Long,
    Integer,
    Short,
    Byte,
    Float,
    Double,
    Boolean,
    Binary,
    Date,
    Timestamp,
    TimestampNtz,
    Decimal { precision: u8, scale: u8 },
}

/// The data type of a column or of a part of one.
#[derive(Debug)]
pub enum DataType {
    Primitive(PrimitiveType),
    Array(Box<ArrayType>),
    Struct(Box<StructType>),
    Mapping(Box<MapType>),
}

/// Lists of elements of one type.
#[derive(Debug)]
pub struct ArrayType {
    pub element_type: DataType,
    pub contains_null: bool,
}

/// Maps from keys of one type to values of one type.
#[derive(Debug)]
pub struct MapType {
    pub key_type: DataType,
    pub value_type: DataType,
    pub value_contains_null: bool,
}

/// A named column or part of a struct.
#[derive(Debug)]
pub struct StructField {
    pub name: String,
    pub data_type: DataType,
    pub nullable: bool,
}

/// A sequence of fields.
#[derive(Debug)]
pub struct StructType {
    pub fields: Vec<StructField>,
}

/// A shared schema.
pub type SchemaRef = Arc<StructType>;

/// Whether two data types are equal, part by part.
pub open spec fn same_type(a: DataType, b: DataType) -> bool
    decreases a,
{
    match (a, b) {
        (DataType::Primitive(x), DataType::Primitive(y)) => x == y,
        (DataType::Array(x), DataType::Array(y)) => {
            &&& same_type(x.element_type, y.element_type)
            &&& x.contains_null == y.contains_null
        },
        (DataType::Struct(x), DataType::Struct(y)) => same_struct(*x, *y),
        (DataType::Mapping(x), DataType::Mapping(y)) => {
            &&& same_type(x.key_type, y.key_type)
            &&& same_type(x.value_type, y.value_type)
            &&& x.value_contains_null == y.value_contains_null
        },
        _ => false,
    }
}

/// Whether two structs have equal fields in the same order.
pub open spec fn same_struct(a: StructType, b: StructType) -> bool
    decreases a,
{
    &&& a.fields@.len() == b.fields@.len()
    &&& forall|i: int|
        #![trigger a.fields@[i]]
        0 <= i < a.fields@.len() ==> {
            &&& a.fields@[i].name@ == b.fields@[i].name@
            &&& same_type(a.fields@[i].data_type, b.fields@[i].data_type)
            &&& a.fields@[i].nullable == b.fields@[i].nullable
        }
}

/// Whether a data type is `target` or holds it at any depth.
pub open spec fn type_contains(d: DataType, target: DataType) -> bool
    decreases d,
{
    ||| same_type(d, target)
    ||| match d {
        DataType::Primitive(_) => false,
        DataType::Array(a) => type_contains(a.element_type, target),
        DataType::Struct(s) => struct_contains(*s, target),
        DataType::Mapping(m) => {
            ||| type_contains(m.key_type, target)
            ||| type_contains(m.value_type, target)
        },
    }
}

/// Whether a field of the struct has the type `target` or holds it at any depth.
pub open spec fn struct_contains(s: StructType, target: DataType) -> bool
    decreases s,
{
    exists|i: int|
        0 <= i < s.fields@.len() && type_contains(#[trigger] s.fields@[i].data_type, target)
}

impl DataType {
    /// Whether two data types are equal.
    pub fn same(&self, other: &DataType) -> (r: bool)
        ensures
            r == same_type(*self, *other),
        decreases self,
    {
        match (self, other) {
            (DataType::Primitive(x), DataType::Primitive(y)) => *x == *y,
            (DataType::Array(x), DataType::Array(y)) => {
                x.element_type.same(&y.element_type) && x.contains_null == y.contains_null
            },
            (DataType::Struct(x), DataType::Struct(y)) => x.same(y),
            (DataType::Mapping(x), DataType::Mapping(y)) => {
                x.key_type.same(&y.key_type) && x.value_type.same(&y.value_type)
                    && x.value_contains_null == y.value_contains_null
            },
            _ => false,
        }
    }
}

/// Whether the struct has a field with this name.
pub open spec fn has_field(s: StructType, name: Seq<char>) -> bool {
    exists|i: int| 0 <= i < s.fields@.len() && #[trigger] s.fields@[i].name@ == name
}

impl StructField {
    /// A field with a name and a type.
    pub fn new(name: &str, data_type: DataType, nullable: bool) -> (r: StructField)
        ensures
            r.name@ == name@,
            r.data_type == data_type,
            r.nullable == nullable,
    {
        StructField { name: name.to_owned(), data_type, nullable }
    }
}

impl StructType {
    /// A struct of the given fields; their names are not checked.
    pub fn new_unchecked(fields: Vec<StructField>) -> (r: StructType)
        ensures
            r.fields == fields,
    {
        StructType { fields }
    }

    /// The first field with the given name.
    pub fn field(&self, name: &str) -> (r: Option<&StructField>)
        ensures
            match r {
                Some(f) => exists|i: int|
                    0 <= i < self.fields@.len() && f == #[trigger] self.fields@[i] && f.name@
                        == name@ && forall|j: int|
                        0 <= j < i ==> #[trigger] self.fields@[j].name@ != name@,
                None => !has_field(*self, name@),
            },
            r is Some <==> has_field(*self, name@),
    {
        let mut i: usize = 0;
        while i < self.fields.len()
            invariant
                i <= self.fields@.len(),
                forall|j: int| 0 <= j < i ==> #[trigger] self.fields@[j].name@ != name@,
            decreases self.fields@.len() - i,
        {
            if same_text(self.fields[i].name.as_str(), name) {
                return Some(&self.fields[i]);
            }
            i = i + 1;
        }
        None
    }

    /// Whether two structs are equal.
    pub fn same(&self, other: &StructType) -> (r: bool)
        ensures
            r == same_struct(*self, *other),
        decreases self,
    {
        if self.fields.len() != other.fields.len() {
            return false;
        }
        let mut i: usize = 0;
        while i < self.fields.len()
            invariant
                self.fields@.len() == other.fields@.len(),
                i <= self.fields@.len(),
                forall|j: int|
                    #![trigger self.fields@[j]]
                    0 <= j < i ==> {
                        &&& self.fields@[j].name@ == other.fields@[j].name@
                        &&& same_type(self.fields@[j].data_type, other.fields@[j].data_type)
                        &&& self.fields@[j].nullable == other.fields@[j].nullable
                    },
            decreases self.fields@.len() - i,
        {
            let a = &self.fields[i];
            let b = &other.fields[i];
            if !(same_text(a.name.as_str(), b.name.as_str()) && a.data_type.same(&b.data_type)
                && a.nullable == b.nullable) {
                return false;
            }
            i = i + 1;
        }
        true
    }
}

/// The name of a column: the field names that lead to it from the top of the schema.
#[derive(Debug)]
pub struct ColumnName {
    path: Vec<String>,
}

/// The texts of a vector of strings.
pub open spec fn texts(strings: Seq<String>) -> Seq<Seq<char>> {
    strings.map_values(|s: String| s@)
}

impl View for ColumnName {
    type V = Seq<Seq<char>>;

    closed spec fn view(&self) -> Seq<Seq<char>> {
        texts(self.path@)
    }
}

/// The paths of a sequence of columns.
pub open spec fn paths(columns: Seq<ColumnName>) -> Seq<Seq<Seq<char>>> {
    columns.map_values(|c: ColumnName| c@)
}

/// A character that a field name may show without quoting.
pub open spec fn is_simple_char(c: char) -> bool {
    'a' <= c <= 'z' || 'A' <= c <= 'Z' || '0' <= c <= '9' || c == '_'
}

/// A field name that can be shown without quoting: not empty, no digit in front, and simple
/// characters only.
pub open spec fn is_plain_name(name: Seq<char>) -> bool {
    &&& name.len() > 0
    &&& !('0' <= name[0] <= '9')
    &&& forall|i: int| 0 <= i < name.len() ==> is_simple_char(#[trigger] name[i])
}

/// A text with each backtick doubled.
pub open spec fn double_backticks(s: Seq<char>) -> Seq<char>
    decreases s.len(),
{
    if s.len() == 0 {
        s
    } else {
        let front = double_backticks(s.drop_last());
        if s.last() == '`' {
            front.push('`').push('`')
        } else {
            front.push(s.last())
        }
    }
}

/// How a field name is shown: as it is, or between backticks.
pub open spec fn quoted_name(name: Seq<char>) -> Seq<char> {
    if is_plain_name(name) {
        name
    } else {
        seq!['`'] + double_backticks(name) + seq!['`']
    }
}

/// How a column name is shown: its quoted parts with dots between them.
pub open spec fn column_text(path: Seq<Seq<char>>) -> Seq<char>
    decreases path.len(),
{
    if path.len() == 0 {
        Seq::empty()
    } else if path.len() == 1 {
        quoted_name(path[0])
    } else {
        column_text(path.drop_last()) + seq!['.'] + quoted_name(path.last())
    }
}

fn is_plain(name: &str) -> (r: bool)
    ensures
        r == is_plain_name(name@),
{
    let len: usize = name.unicode_len();
    if len == 0 {
        return false;
    }
    let first: char = name.get_char(0);
    if '0' <= first && first <= '9' {
        return false;
    }
    let mut i: usize = 0;
    while i < len
        invariant
            len == name@.len(),
            i <= len,
            forall|j: int| 0 <= j < i ==> is_simple_char(#[trigger] name@[j]),
        decreases len - i,
    {
        let c: char = name.get_char(i);
        if !(('a' <= c && c <= 'z') || ('A' <= c && c <= 'Z') || ('0' <= c && c <= '9') || c == '_') {
            assert(!is_simple_char(name@[i as int]));
            return false;
        }
        i = i + 1;
    }
    true
}

fn quoted(name: &str) -> (r: String)
    ensures
        r@ == quoted_name(name@),
{
    if is_plain(name) {
        return name.to_owned();
    }
    proof {
        reveal_strlit("`");
        assert("`"@ =~= seq!['`']);
    }
    let mut text: String = "`".to_owned();
    let len: usize = name.unicode_len();
    let mut i: usize = 0;
    assert(name@.take(0) =~= Seq::<char>::empty());
    while i < len
        invariant
            "`"@ == seq!['`'],
            len == name@.len(),
            i <= len,
            text@ == seq!['`'] + double_backticks(name@.take(i as int)),
        decreases len - i,
    {
        let c: char = name.get_char(i);
        text.append(name.substring_char(i, i + 1));
        if c == '`' {
            text.append("`");
        }
        proof {
            let upto = name@.take(i + 1);
            assert(upto.drop_last() =~= name@.take(i as int));
            assert(name@.subrange(i as int, i + 1) =~= seq![c]);
            assert(text@ =~= seq!['`'] + double_backticks(upto));
        }
        i = i + 1;
    }
    assert(name@.take(len as int) =~= name@);
    text.append("`");
    text
}

impl ColumnName {
    /// The column at the end of a path of field names.
    pub fn new(path: Vec<String>) -> (r: ColumnName)
        ensures
            r@ == texts(path@),
    {
        ColumnName { path }
    }

    /// A top-level column.
    pub fn top_level(name: &str) -> (r: ColumnName)
        ensures
            r@ == seq![name@],
    {
        let mut path: Vec<String> = Vec::new();
        path.push(name.to_owned());
        assert(texts(path@) =~= seq![name@]);
        ColumnName { path }
    }

    /// The field names that lead to the column.
    pub fn path(&self) -> (r: &Vec<String>)
        ensures
            texts(r@) == self@,
            r@.len() == self@.len(),
    {
        &self.path
    }

    /// The name as text.
    pub fn display(&self) -> (r: String)
        ensures
            r@ == column_text(self@),
    {
        proof {
            reveal_strlit(".");
            assert("."@ =~= seq!['.']);
        }
        let mut text: String = String::new();
        let mut i: usize = 0;
        while i < self.path.len()
            invariant
                "."@ == seq!['.'],
                i <= self.path@.len(),
                text@ == column_text(self@.take(i as int)),
            decreases self.path@.len() - i,
        {
            if i > 0 {
                text.append(".");
            }
            text.append(quoted(self.path[i].as_str()).as_str());
            proof {
                let upto = self@.take(i + 1);
                assert(upto.drop_last() =~= self@.take(i as int));
                assert(upto.last() == self@[i as int]);
                assert(text@ =~= column_text(upto));
            }
            i = i + 1;
        }
        assert(self@.take(i as int) =~= self@);
        text
    }
}

/// A copy of a vector of strings.
pub fn copy_texts(strings: &Vec<String>) -> (r: Vec<String>)
    ensures
        texts(r@) == texts(strings@),
{
    let mut copy: Vec<String> = Vec::new();
    let mut i: usize = 0;
    assert(texts(copy@) =~= texts(strings@).take(0));
    while i < strings.len()
        invariant
            i <= strings@.len(),
            texts(copy@) == texts(strings@).take(i as int),
        decreases strings@.len() - i,
    {
        let ghost before = copy@;
        copy.push(strings[i].clone());
        proof {
            let part = texts(strings@)[i as int];
            assert(texts(copy@) =~= texts(before).push(part));
            assert(texts(strings@).take(i + 1) =~= texts(strings@).take(i as int).push(part));
        }
        i = i + 1;
    }
    assert(texts(strings@).take(i as int) =~= texts(strings@));
    copy
}

impl Clone for ColumnName {
    fn clone(&self) -> (r: ColumnName)
        ensures
            r@ == self@,
    {
        ColumnName { path: copy_texts(&self.path) }
    }
}

impl Clone for DataType {
    fn clone(&self) -> (r: DataType)
        ensures
            same_type(r, *self),
        decreases self,
    {
        match self {
            DataType::Primitive(p) => DataType::Primitive(*p),
            DataType::Array(a) => DataType::Array(
                Box::new(
                    ArrayType {
                        element_type: a.element_type.clone(),
                        contains_null: a.contains_null,
                    },
                ),
            ),
            DataType::Struct(s) => DataType::Struct(Box::new((&**s).clone())),
            DataType::Mapping(m) => DataType::Mapping(
                Box::new(
                    MapType {
                        key_type: m.key_type.clone(),
                        value_type: m.value_type.clone(),
                        value_contains_null: m.value_contains_null,
                    },
                ),
            ),
        }
    }
}

impl Clone for StructType {
    fn clone(&self) -> (r: StructType)
        ensures
            same_struct(r, *self),
        decreases self,
    {
        let mut fields: Vec<StructField> = Vec::new();
        let mut i: usize = 0;
        while i < self.fields.len()
            invariant
                i <= self.fields@.len(),
                fields@.len() == i,
                forall|j: int|
                    #![trigger fields@[j]]
                    0 <= j < i ==> {
                        &&& fields@[j].name@ == self.fields@[j].name@
                        &&& same_type(fields@[j].data_type, self.fields@[j].data_type)
                        &&& fields@[j].nullable == self.fields@[j].nullable
                    },
            decreases self.fields@.len() - i,
        {
            let field = &self.fields[i];
            fields.push(
                StructField {
                    name: field.name.clone(),
                    data_type: field.data_type.clone(),
                    nullable: field.nullable,
                },
            );
            i = i + 1;
        }
        StructType { fields }
    }
}

impl Clone for ArrayType {
    fn clone(&self) -> (r: ArrayType)
        ensures
            same_type(r.element_type, self.element_type),
            r.contains_null == self.contains_null,
    {
        ArrayType { element_type: self.element_type.clone(), contains_null: self.contains_null }
    }
}

impl Clone for MapType {
    fn clone(&self) -> (r: MapType)
        ensures
            same_type(r.key_type, self.key_type),
            same_type(r.value_type, self.value_type),
            r.value_contains_null == self.value_contains_null,
    {
        MapType {
            key_type: self.key_type.clone(),
            value_type: self.value_type.clone(),
            value_contains_null: self.value_contains_null,
        }
    }
}

impl Clone for StructField {
    fn clone(&self) -> (r: StructField)
        ensures
            r.name@ == self.name@,
            same_type(r.data_type, self.data_type),
            r.nullable == self.nullable,
    {
        StructField {
            name: self.name.clone(),
            data_type: self.data_type.clone(),
            nullable: self.nullable,
        }
    }
}

/// A copy of a vector of columns.
pub fn copy_columns(columns: &Vec<ColumnName>) -> (r: Vec<ColumnName>)
    ensures
        paths(r@) == paths(columns@),
{
    let mut copy: Vec<ColumnName> = Vec::new();
    let mut i: usize = 0;
    assert(paths(copy@) =~= paths(columns@).take(0));
    while i < columns.len()
        invariant
            i <= columns@.len(),
            paths(copy@) == paths(columns@).take(i as int),
        decreases columns@.len() - i,
    {
        let ghost before = copy@;
        copy.push(columns[i].clone());
        proof {
            let path = paths(columns@)[i as int];
            assert(paths(copy@) =~= paths(before).push(path));
            assert(paths(columns@).take(i + 1) =~= paths(columns@).take(i as int).push(path));
        }
        i = i + 1;
    }
    assert(paths(columns@).take(i as int) =~= paths(columns@));
    copy
}

} // verus!
