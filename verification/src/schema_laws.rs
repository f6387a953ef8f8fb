//! What it means for data types to be equal, for one to contain another, and for a name to be found
//! and shown.

use crate::schema::{
    column_text, double_backticks, has_field, is_plain_name, is_simple_char, paths, quoted_name,
    same_struct, same_type, struct_contains, texts, type_contains, ArrayType, ColumnName, DataType,
    MapType, StructType,
};
use vstd::prelude::*;

verus! {

/// Every data type equals itself.
pub proof fn law_same_type_is_reflexive(d: DataType)
    ensures
        same_type(d, d),
    decreases d,
{
    reveal_with_fuel(same_type, 2);
    reveal_with_fuel(same_struct, 2);
    match d {
        DataType::Primitive(_) => {},
        DataType::Array(a) => law_same_type_is_reflexive(a.element_type),
        DataType::Struct(s) => {
            assert forall|i: int|
                #![trigger s.fields@[i]]
                0 <= i < s.fields@.len() implies same_type(
                s.fields@[i].data_type,
                s.fields@[i].data_type,
            ) by {
                law_same_type_is_reflexive(s.fields@[i].data_type);
            }
        },
        DataType::Mapping(m) => {
            law_same_type_is_reflexive(m.key_type);
            law_same_type_is_reflexive(m.value_type);
        },
    }
}

/// Data types that equal the same data type equal each other.
pub proof fn law_same_type_is_transitive(a: DataType, b: DataType, c: DataType)
    requires
        same_type(a, b),
        same_type(b, c),
    ensures
        same_type(a, c),
    decreases a,
{
    reveal_with_fuel(same_type, 2);
    reveal_with_fuel(same_struct, 2);
    match (a, b, c) {
        (DataType::Array(x), DataType::Array(y), DataType::Array(z)) => {
            law_same_type_is_transitive(x.element_type, y.element_type, z.element_type);
        },
        (DataType::Struct(x), DataType::Struct(y), DataType::Struct(z)) => {
            assert forall|i: int|
                #![trigger x.fields@[i]]
                0 <= i < x.fields@.len() implies {
                &&& x.fields@[i].name@ == z.fields@[i].name@
                &&& same_type(x.fields@[i].data_type, z.fields@[i].data_type)
                &&& x.fields@[i].nullable == z.fields@[i].nullable
            } by {
                let middle = y.fields@[i];
                law_same_type_is_transitive(
                    x.fields@[i].data_type,
                    middle.data_type,
                    z.fields@[i].data_type,
                );
            }
        },
        (DataType::Mapping(x), DataType::Mapping(y), DataType::Mapping(z)) => {
            law_same_type_is_transitive(x.key_type, y.key_type, z.key_type);
            law_same_type_is_transitive(x.value_type, y.value_type, z.value_type);
        },
        _ => {},
    }
}

/// Equal data types contain the same data types.
proof fn lemma_same_types_contain(a: DataType, b: DataType, target: DataType)
    requires
        same_type(a, b),
        type_contains(b, target),
    ensures
        type_contains(a, target),
    decreases a,
{
    reveal_with_fuel(same_type, 2);
    reveal_with_fuel(same_struct, 2);
    reveal_with_fuel(type_contains, 2);
    reveal_with_fuel(struct_contains, 2);
    if same_type(b, target) {
        law_same_type_is_transitive(a, b, target);
    } else {
        match (a, b) {
            (DataType::Array(x), DataType::Array(y)) => {
                lemma_same_types_contain(x.element_type, y.element_type, target);
            },
            (DataType::Struct(x), DataType::Struct(y)) => {
                let i = choose|i: int|
                    0 <= i < y.fields@.len() && type_contains(
                        #[trigger] y.fields@[i].data_type,
                        target,
                    );
                assert(x.fields@[i].name@ == y.fields@[i].name@);
                lemma_same_types_contain(x.fields@[i].data_type, y.fields@[i].data_type, target);
            },
            (DataType::Mapping(x), DataType::Mapping(y)) => {
                if type_contains(y.key_type, target) {
                    lemma_same_types_contain(x.key_type, y.key_type, target);
                } else {
                    lemma_same_types_contain(x.value_type, y.value_type, target);
                }
            },
            _ => {},
        }
    }
}

/// What a contained data type contains, its container contains: containment reaches any level.
pub proof fn law_containment_reaches_any_level(outer: DataType, inner: DataType, target: DataType)
    requires
        type_contains(outer, inner),
        type_contains(inner, target),
    ensures
        type_contains(outer, target),
    decreases outer,
{
    reveal_with_fuel(type_contains, 2);
    reveal_with_fuel(struct_contains, 2);
    if same_type(outer, inner) {
        lemma_same_types_contain(outer, inner, target);
    } else {
        match outer {
            DataType::Primitive(_) => {},
            DataType::Array(a) => {
                law_containment_reaches_any_level(a.element_type, inner, target);
            },
            DataType::Struct(s) => {
                let i = choose|i: int|
                    0 <= i < s.fields@.len() && type_contains(
                        #[trigger] s.fields@[i].data_type,
                        inner,
                    );
                law_containment_reaches_any_level(s.fields@[i].data_type, inner, target);
            },
            DataType::Mapping(m) => {
                if type_contains(m.key_type, inner) {
                    law_containment_reaches_any_level(m.key_type, inner, target);
                } else {
                    law_containment_reaches_any_level(m.value_type, inner, target);
                }
            },
        }
    }
}

/// A schema contains whatever a data type contains that it contains.
pub proof fn law_schema_containment_reaches_any_level(
    schema: StructType,
    inner: DataType,
    target: DataType,
)
    requires
        struct_contains(schema, inner),
        type_contains(inner, target),
    ensures
        struct_contains(schema, target),
{
    let i = choose|i: int|
        0 <= i < schema.fields@.len() && type_contains(
            #[trigger] schema.fields@[i].data_type,
            inner,
        );
    law_containment_reaches_any_level(schema.fields@[i].data_type, inner, target);
}

/// A data type contains itself and its parts: elements, keys, values and the types of fields.
pub proof fn law_types_contain_their_parts(d: DataType)
    ensures
        type_contains(d, d),
        match d {
            DataType::Primitive(_) => true,
            DataType::Array(a) => type_contains(d, a.element_type),
            DataType::Struct(s) => forall|i: int|
                0 <= i < s.fields@.len() ==> type_contains(d, #[trigger] s.fields@[i].data_type),
            DataType::Mapping(m) => type_contains(d, m.key_type) && type_contains(d, m.value_type),
        },
{
    reveal_with_fuel(type_contains, 2);
    reveal_with_fuel(struct_contains, 2);
    law_same_type_is_reflexive(d);
    match d {
        DataType::Primitive(_) => {},
        DataType::Array(a) => {
            law_same_type_is_reflexive(a.element_type);
        },
        DataType::Struct(s) => {
            assert forall|i: int| 0 <= i < s.fields@.len() implies type_contains(
                d,
                #[trigger] s.fields@[i].data_type,
            ) by {
                law_same_type_is_reflexive(s.fields@[i].data_type);
                assert(type_contains(s.fields@[i].data_type, s.fields@[i].data_type));
            }
        },
        DataType::Mapping(m) => {
            law_same_type_is_reflexive(m.key_type);
            law_same_type_is_reflexive(m.value_type);
        },
    }
}

/// Equal data types stay equal when they are exchanged.
pub proof fn law_same_type_is_symmetric(a: DataType, b: DataType)
    requires
        same_type(a, b),
    ensures
        same_type(b, a),
    decreases a,
{
    reveal_with_fuel(same_type, 2);
    reveal_with_fuel(same_struct, 2);
    match (a, b) {
        (DataType::Array(x), DataType::Array(y)) => {
            law_same_type_is_symmetric(x.element_type, y.element_type);
        },
        (DataType::Struct(x), DataType::Struct(y)) => {
            assert forall|i: int|
                #![trigger y.fields@[i]]
                0 <= i < y.fields@.len() implies {
                &&& y.fields@[i].name@ == x.fields@[i].name@
                &&& same_type(y.fields@[i].data_type, x.fields@[i].data_type)
                &&& y.fields@[i].nullable == x.fields@[i].nullable
            } by {
                let left = x.fields@[i];
                law_same_type_is_symmetric(left.data_type, y.fields@[i].data_type);
            }
        },
        (DataType::Mapping(x), DataType::Mapping(y)) => {
            law_same_type_is_symmetric(x.key_type, y.key_type);
            law_same_type_is_symmetric(x.value_type, y.value_type);
        },
        _ => {},
    }
}

/// Data types of different kinds differ, and a primitive type equals itself alone.
pub proof fn law_kinds_of_types_differ(a: DataType, b: DataType)
    ensures
        same_type(a, b) ==> (a is Primitive <==> b is Primitive),
        same_type(a, b) ==> (a is Array <==> b is Array),
        same_type(a, b) ==> (a is Struct <==> b is Struct),
        same_type(a, b) ==> (a is Mapping <==> b is Mapping),
        a is Primitive && b is Primitive ==> (same_type(a, b) <==> a == b),
{
}

/// Compound data types differ as soon as one part differs, nullability included: arrays in their
/// elements, maps in their keys or values.
pub proof fn law_no_part_of_a_type_is_ignored(
    a: ArrayType,
    b: ArrayType,
    m: MapType,
    n: MapType,
)
    ensures
        same_type(DataType::Array(Box::new(a)), DataType::Array(Box::new(b))) <==> same_type(
            a.element_type,
            b.element_type,
        ) && a.contains_null == b.contains_null,
        same_type(DataType::Mapping(Box::new(m)), DataType::Mapping(Box::new(n))) <==> same_type(
            m.key_type,
            n.key_type,
        ) && same_type(m.value_type, n.value_type) && m.value_contains_null
            == n.value_contains_null,
{
    reveal_with_fuel(same_type, 2);
}

/// Structs differ as soon as they differ in the number of fields, or in the name, type or
/// nullability of a field.
pub proof fn law_no_field_of_a_struct_is_ignored(a: StructType, b: StructType)
    ensures
        same_type(DataType::Struct(Box::new(a)), DataType::Struct(Box::new(b))) <==> same_struct(
            a,
            b,
        ),
        same_struct(a, b) <==> a.fields@.len() == b.fields@.len() && forall|i: int|
            #![trigger b.fields@[i]]
            0 <= i < a.fields@.len() ==> a.fields@[i].name@ == b.fields@[i].name@ && same_type(
                a.fields@[i].data_type,
                b.fields@[i].data_type,
            ) && a.fields@[i].nullable == b.fields@[i].nullable,
{
    reveal_with_fuel(same_type, 2);
    reveal_with_fuel(same_struct, 2);
    if same_struct(a, b) {
        assert forall|i: int|
            #![trigger b.fields@[i]]
            0 <= i < a.fields@.len() implies a.fields@[i].name@ == b.fields@[i].name@ && same_type(
            a.fields@[i].data_type,
            b.fields@[i].data_type,
        ) && a.fields@[i].nullable == b.fields@[i].nullable by {
            let left = a.fields@[i];
        }
    }
}

/// A data type that contains another one is equal to it, or one of its parts contains it; a
/// primitive type contains nothing else.
pub proof fn law_nothing_else_is_contained(d: DataType, target: DataType)
    requires
        type_contains(d, target),
        !same_type(d, target),
    ensures
        match d {
            DataType::Primitive(_) => false,
            DataType::Array(a) => type_contains(a.element_type, target),
            DataType::Struct(s) => struct_contains(*s, target),
            DataType::Mapping(m) => type_contains(m.key_type, target) || type_contains(
                m.value_type,
                target,
            ),
        },
{
    reveal_with_fuel(type_contains, 2);
    reveal_with_fuel(struct_contains, 2);
}

/// A schema contains a data type exactly if the type of one of its fields does, whatever the
/// field's name, position and nullability.
pub proof fn law_every_field_is_looked_into(schema: StructType, target: DataType, i: int)
    ensures
        0 <= i < schema.fields@.len() && type_contains(schema.fields@[i].data_type, target)
            ==> struct_contains(schema, target),
        struct_contains(schema, target) ==> exists|k: int|
            0 <= k < schema.fields@.len() && type_contains(
                #[trigger] schema.fields@[k].data_type,
                target,
            ),
{
    reveal_with_fuel(struct_contains, 2);
}

/// Every field is found by its name, whatever its type and nullability, and nothing is found under
/// a name that no field has.
pub proof fn law_fields_are_found_by_name(schema: StructType, name: Seq<char>, i: int)
    ensures
        0 <= i < schema.fields@.len() ==> has_field(schema, schema.fields@[i].name@),
        has_field(schema, name) ==> exists|k: int|
            0 <= k < schema.fields@.len() && #[trigger] schema.fields@[k].name@ == name,
{
}

/// Schemas whose fields have the same names have fields under the same names.
pub proof fn law_only_names_decide_what_is_found(a: StructType, b: StructType, name: Seq<char>)
    requires
        a.fields@.len() == b.fields@.len(),
        forall|i: int|
            0 <= i < a.fields@.len() ==> #[trigger] a.fields@[i].name@ == b.fields@[i].name@,
    ensures
        has_field(a, name) == has_field(b, name),
{
    if has_field(a, name) {
        let i = choose|i: int| 0 <= i < a.fields@.len() && #[trigger] a.fields@[i].name@ == name;
        assert(b.fields@[i].name@ == name);
    }
    if has_field(b, name) {
        let i = choose|i: int| 0 <= i < b.fields@.len() && #[trigger] b.fields@[i].name@ == name;
        assert(a.fields@[i].name@ == name);
    }
}

/// The texts of strings and the paths of columns are those of the items, one for one.
pub proof fn law_texts_and_paths_are_itemwise(
    strings: Seq<String>,
    columns: Seq<ColumnName>,
    i: int,
)
    ensures
        texts(strings).len() == strings.len(),
        0 <= i < strings.len() ==> texts(strings)[i] == strings[i]@,
        paths(columns).len() == columns.len(),
        0 <= i < columns.len() ==> paths(columns)[i] == columns[i]@,
{
}

/// A name of letters, digits and underscores that does not begin with a digit is shown as it is;
/// any other name is shown between backticks.
pub proof fn law_how_names_are_shown(name: Seq<char>)
    ensures
        name.len() > 0 && !('0' <= name[0] <= '9') && (forall|i: int|
            0 <= i < name.len() ==> 'a' <= #[trigger] name[i] <= 'z' || 'A' <= name[i] <= 'Z' || '0'
                <= name[i] <= '9' || name[i] == '_') <==> quoted_name(name) == name,
        quoted_name(name) != name ==> quoted_name(name).len() >= name.len() + 2 && quoted_name(
            name,
        )[0] == '`' && quoted_name(name).last() == '`',
{
    lemma_doubling_keeps_length(name);
    if is_plain_name(name) {
        assert forall|i: int| 0 <= i < name.len() implies 'a' <= #[trigger] name[i] <= 'z' || 'A'
            <= name[i] <= 'Z' || '0' <= name[i] <= '9' || name[i] == '_' by {
            assert(is_simple_char(name[i]));
        }
    } else {
        assert(quoted_name(name).len() == double_backticks(name).len() + 2);
    }
}

proof fn lemma_doubling_keeps_length(s: Seq<char>)
    ensures
        double_backticks(s).len() >= s.len(),
    decreases s.len(),
{
    if s.len() > 0 {
        lemma_doubling_keeps_length(s.drop_last());
    }
}

/// Doubling the backticks leaves every other character as it is.
pub proof fn law_only_backticks_are_doubled(s: Seq<char>, c: char)
    ensures
        double_backticks(Seq::<char>::empty()) == Seq::<char>::empty(),
        double_backticks(s.push(c)) == double_backticks(s) + if c == '`' {
            seq!['`', '`']
        } else {
            seq![c]
        },
{
    assert(s.push(c).drop_last() =~= s);
}

proof fn lemma_doubling_loses_nothing(a: Seq<char>, b: Seq<char>)
    requires
        double_backticks(a) == double_backticks(b),
    ensures
        a == b,
    decreases a.len(),
{
    lemma_doubling_keeps_length(a);
    lemma_doubling_keeps_length(b);
    if a.len() == 0 || b.len() == 0 {
        assert(a =~= b);
    } else {
        let x = a.drop_last();
        let y = b.drop_last();
        let da = double_backticks(a);
        let db = double_backticks(b);
        assert(da.last() == a.last());
        assert(db.last() == b.last());
        if a.last() == '`' {
            assert(da.drop_last().drop_last() =~= double_backticks(x));
            assert(db.drop_last().drop_last() =~= double_backticks(y));
        } else {
            assert(da.drop_last() =~= double_backticks(x));
            assert(db.drop_last() =~= double_backticks(y));
        }
        lemma_doubling_loses_nothing(x, y);
        assert(x.push(a.last()) =~= a);
        assert(y.push(b.last()) =~= b);
    }
}

/// Different names are shown differently.
pub proof fn law_shown_names_tell_names_apart(a: Seq<char>, b: Seq<char>)
    requires
        quoted_name(a) == quoted_name(b),
    ensures
        a == b,
{
    if is_plain_name(a) && !is_plain_name(b) {
        assert(quoted_name(b)[0] == '`');
        assert(is_simple_char(a[0]));
    }
    if !is_plain_name(a) && is_plain_name(b) {
        assert(quoted_name(a)[0] == '`');
        assert(is_simple_char(b[0]));
    }
    if !is_plain_name(a) && !is_plain_name(b) {
        let qa = quoted_name(a);
        let qb = quoted_name(b);
        assert(qa.subrange(1, qa.len() - 1) =~= double_backticks(a));
        assert(qb.subrange(1, qb.len() - 1) =~= double_backticks(b));
        lemma_doubling_loses_nothing(a, b);
    }
}

/// A column is shown as its parts with dots between them: a top-level column as its name, and each
/// further part after a dot.
pub proof fn law_columns_are_shown_part_by_part(path: Seq<Seq<char>>, part: Seq<char>)
    ensures
        column_text(seq![part]) == quoted_name(part),
        path.len() > 0 ==> column_text(path.push(part)) == column_text(path).push('.')
            + quoted_name(part),
        column_text(Seq::<Seq<char>>::empty()) == Seq::<char>::empty(),
{
    if path.len() > 0 {
        assert(path.push(part).drop_last() =~= path);
        assert(column_text(path.push(part)) =~= column_text(path).push('.') + quoted_name(part));
    }
}

} // verus!
