use vstd::prelude::*;

use crate::convert::{
    convert, convert_back, convert_entries, convert_fields, convert_items, field_entry, find_entry,
    prepend, sequence_items, symbol_index, ConvertFailure,
};
use crate::schema::{AvroSchema, RecordField};
use crate::value::{AvroModel, PickleModel};

verus! {

/// The variants of dynamic value that a schema kind accepts at its top level.
pub open spec fn accepts(s: AvroSchema, x: PickleModel) -> bool {
    match s {
        AvroSchema::Null => x is Nil,
        AvroSchema::Boolean => x is Bool,
        AvroSchema::Int => x is Integer,
        AvroSchema::Long => x is Integer,
        AvroSchema::Float => x is Float,
        AvroSchema::Double => x is Float,
        AvroSchema::Bytes => x is Bytes || x is Text,
        AvroSchema::String => x is Text || x is Bytes,
        AvroSchema::Fixed { .. } => x is Bytes,
        AvroSchema::Array(_) => sequence_items(x) is Some,
        AvroSchema::StringMap(_) => x is Dict,
        AvroSchema::Union(_) => true,
        AvroSchema::Record { .. } => x is Dict,
        AvroSchema::Enum { .. } => x is Text,
    }
}

/// A value outside the variants that a schema kind accepts is a type
/// mismatch, and a conversion that succeeds had a value of an accepted
/// variant. For the kinds that check nothing further (null, boolean, int,
/// long, float, double, bytes, and a union given none) an accepted value is
/// always converted.
pub proof fn lemma_accepted_variants(s: AvroSchema, x: PickleModel)
    ensures
        !accepts(s, x) ==> convert(s, x) == Err::<AvroModel, ConvertFailure>(ConvertFailure::TypeMismatch),
        convert(s, x) is Ok ==> accepts(s, x),
        accepts(s, x) && (s is Null || s is Boolean || s is Int || s is Long || s is Float || s is Double
            || s is Bytes || (s is Union && x is Nil)) ==> convert(s, x) is Ok,
{
}

/// A record field that the mapping does not hold: without a default the
/// conversion fails naming the field; with one, the default stands in its
/// place and the conversion goes on with the next field.
pub proof fn lemma_missing_field(
    fields: Seq<RecordField>,
    es: Seq<(PickleModel, PickleModel)>,
    used: Seq<bool>,
)
    requires
        fields.len() > 0,
        field_entry(fields[0], es, used) is None,
    ensures
        fields[0].default is None ==> convert_fields(fields, es, used) == Err::<
            Seq<(Seq<char>, AvroModel)>,
            ConvertFailure,
        >(ConvertFailure::MissingField(fields[0].name@)),
        fields[0].default matches Some(d) ==> convert_fields(fields, es, used) == prepend(
            seq![(fields[0].name@, d@)],
            convert_fields(fields.subrange(1, fields.len() as int), es, used),
        ),
{
}

/// The first index at which a symbol is found.
proof fn lemma_symbol_found(symbols: Seq<String>, t: Seq<char>, j: int, k: int)
    requires
        0 <= j <= k < symbols.len(),
        symbols[k]@ == t,
        forall|i: int| j <= i < k ==> symbols[i]@ != t,
    ensures
        symbol_index(symbols, t, j) == Some(k),
    decreases k - j,
{
    if j < k {
        lemma_symbol_found(symbols, t, j + 1, k);
    }
}

/// A symbol that is not there is never found.
proof fn lemma_symbol_absent(symbols: Seq<String>, t: Seq<char>, j: int)
    requires
        0 <= j,
        forall|i: int| j <= i < symbols.len() ==> symbols[i]@ != t,
    ensures
        symbol_index(symbols, t, j) is None,
    decreases symbols.len() - j,
{
    if j < symbols.len() {
        lemma_symbol_absent(symbols, t, j + 1);
    }
}

/// Enum lookup: a symbol first found at index `k` gives `(k, symbol)`; a
/// symbol that is not in the table, and so any symbol against an empty
/// table, is an unsupported value.
pub proof fn lemma_enum_lookup(symbols: Vec<String>, t: Seq<char>, k: int)
    ensures
        0 <= k < symbols@.len() && symbols@[k]@ == t && (forall|i: int|
            0 <= i < k ==> symbols@[i]@ != t) ==> convert(
            (AvroSchema::Enum { symbols }),
            PickleModel::Text(t),
        ) == Ok::<AvroModel, ConvertFailure>(AvroModel::Enum((k as usize) as i32, t)),
        (forall|i: int| 0 <= i < symbols@.len() ==> symbols@[i]@ != t) ==> convert(
            (AvroSchema::Enum { symbols }),
            PickleModel::Text(t),
        ) == Err::<AvroModel, ConvertFailure>(ConvertFailure::UnsupportedValue),
        symbols@.len() == 0 ==> convert((AvroSchema::Enum { symbols }), PickleModel::Text(t)) == Err::<
            AvroModel,
            ConvertFailure,
        >(ConvertFailure::UnsupportedValue),
{
    if 0 <= k < symbols@.len() && symbols@[k]@ == t && (forall|i: int| 0 <= i < k ==> symbols@[i]@ != t) {
        lemma_symbol_found(symbols@, t, 0, k);
    }
    if forall|i: int| 0 <= i < symbols@.len() ==> symbols@[i]@ != t {
        lemma_symbol_absent(symbols@, t, 0);
    }
}


/// Converting back, converting again and converting back once more gives
/// what the first conversion back gave.
pub open spec fn stable(s: AvroSchema, t: AvroModel) -> bool {
    convert(s, convert_back(t)) matches Ok(t2) && convert_back(t2) == convert_back(t)
}

/// Every default value that a schema declares, at any depth, is stable
/// under the field's own schema.
pub open spec fn defaults_stable(s: AvroSchema) -> bool
    decreases s,
{
    match s {
        AvroSchema::Array(item) => defaults_stable(*item),
        AvroSchema::StringMap(vs) => defaults_stable(*vs),
        AvroSchema::Union(inner) => defaults_stable(*inner),
        AvroSchema::Record { fields } => forall|k: int|
            0 <= k < fields@.len() ==> defaults_stable(#[trigger] fields@[k].schema) && (
            fields@[k].default matches Some(d) ==> stable(fields@[k].schema, d@)),
        _ => true,
    }
}

/// The dynamic values that a sequence of typed values converts back to.
pub open spec fn backs(ys: Seq<AvroModel>) -> Seq<PickleModel> {
    Seq::new(ys.len(), |i: int| convert_back(ys[i]))
}

/// The mapping entries that named typed values convert back to.
pub open spec fn back_entries(ys: Seq<(Seq<char>, AvroModel)>) -> Seq<(PickleModel, PickleModel)> {
    Seq::new(ys.len(), |i: int| (PickleModel::Text(ys[i].0), convert_back(ys[i].1)))
}

/// For every schema whose declared defaults are themselves stable, and every
/// dynamic value that converts, converting back is a fixed point: converting
/// that result again and back once more gives it unchanged.
pub proof fn lemma_round_trip_fixed_point(s: AvroSchema, x: PickleModel)
    requires
        defaults_stable(s),
        convert(s, x) is Ok,
    ensures
        stable(s, convert(s, x)->Ok_0),
    decreases s, 0int,
{
    match s {
        AvroSchema::Int => {
            let m = x->Integer_0 as i32;
            assert((m as i64) as i32 == m) by (bit_vector);
        },
        AvroSchema::Array(item) => {
            let xs = sequence_items(x)->Some_0;
            lemma_items_fixed_point(*item, xs);
            let ys = convert_items(*item, xs)->Ok_0;
            assert(convert_back(AvroModel::Array(ys))->List_0 =~= backs(ys));
            let zs = convert_items(*item, backs(ys))->Ok_0;
            assert(convert_back(AvroModel::Array(zs))->List_0 =~= backs(zs));
        },
        AvroSchema::StringMap(vs) => {
            let es = x->Dict_0;
            lemma_entries_fixed_point(*vs, es);
            let ys = convert_entries(*vs, es)->Ok_0;
            assert(convert_back(AvroModel::StringMap(ys))->Dict_0 =~= back_entries(ys));
            let zs = convert_entries(*vs, back_entries(ys))->Ok_0;
            assert(convert_back(AvroModel::StringMap(zs))->Dict_0 =~= back_entries(zs));
        },
        AvroSchema::Union(inner) => {
            if !(x is Nil) {
                lemma_round_trip_fixed_point(*inner, x);
            }
        },
        AvroSchema::Record { fields } => {
            let es = x->Dict_0;
            let fs = fields@;
            let unused = Seq::new(es.len(), |i: int| false);
            lemma_fields_shape(fs, es, unused);
            let ys = convert_fields(fs, es, unused)->Ok_0;
            let e2 = back_entries(ys);
            assert(convert_back(AvroModel::Record(ys))->Dict_0 =~= e2);
            lemma_fields_back(fs, ys, 0);
            assert(fs.subrange(0, fs.len() as int) =~= fs);
            assert(Seq::new(fs.len(), |k: int| k < 0) =~= Seq::new(e2.len(), |i: int| false));
            let zs = convert_fields(fs, e2, Seq::new(e2.len(), |i: int| false))->Ok_0;
            assert(convert_back(AvroModel::Record(zs))->Dict_0 =~= e2);
        },
        _ => {},
    }
}

proof fn lemma_items_fixed_point(item: AvroSchema, xs: Seq<PickleModel>)
    requires
        defaults_stable(item),
        convert_items(item, xs) is Ok,
    ensures
        convert_items(item, backs(convert_items(item, xs)->Ok_0)) matches Ok(zs) && backs(zs) == backs(
            convert_items(item, xs)->Ok_0,
        ),
    decreases item, xs.len(),
{
    let ys = convert_items(item, xs)->Ok_0;
    if xs.len() == 0 {
        assert(backs(ys) =~= Seq::<PickleModel>::empty());
        let zs = convert_items(item, backs(ys))->Ok_0;
        assert(backs(zs) =~= backs(ys));
    } else {
        lemma_items_fixed_point(item, xs.drop_last());
        lemma_round_trip_fixed_point(item, xs.last());
        let ys0 = convert_items(item, xs.drop_last())->Ok_0;
        let y = convert(item, xs.last())->Ok_0;
        let zs0 = convert_items(item, backs(ys0))->Ok_0;
        let z = convert(item, convert_back(y))->Ok_0;
        assert(ys == ys0.push(y));
        assert(backs(ys).drop_last() =~= backs(ys0));
        assert(backs(zs0).len() == backs(ys0).len());
        assert forall|k: int| 0 <= k < ys.len() implies #[trigger] backs(zs0.push(z))[k] == backs(ys)[k] by {
            if k < ys0.len() {
                assert(backs(zs0)[k] == backs(ys0)[k]);
            }
        }
        assert(backs(zs0.push(z)) =~= backs(ys));
    }
}

proof fn lemma_entries_fixed_point(vs: AvroSchema, es: Seq<(PickleModel, PickleModel)>)
    requires
        defaults_stable(vs),
        convert_entries(vs, es) is Ok,
    ensures
        convert_entries(vs, back_entries(convert_entries(vs, es)->Ok_0)) matches Ok(zs) && back_entries(zs)
            == back_entries(convert_entries(vs, es)->Ok_0),
    decreases vs, es.len(),
{
    let ys = convert_entries(vs, es)->Ok_0;
    if es.len() == 0 {
        assert(back_entries(ys) =~= Seq::<(PickleModel, PickleModel)>::empty());
        let zs = convert_entries(vs, back_entries(ys))->Ok_0;
        assert(back_entries(zs) =~= back_entries(ys));
    } else {
        lemma_entries_fixed_point(vs, es.drop_last());
        lemma_round_trip_fixed_point(vs, es.last().1);
        let ys0 = convert_entries(vs, es.drop_last())->Ok_0;
        let y = convert(vs, es.last().1)->Ok_0;
        let k = es.last().0->Text_0;
        let zs0 = convert_entries(vs, back_entries(ys0))->Ok_0;
        let z = convert(vs, convert_back(y))->Ok_0;
        assert(ys == ys0.push((k, y)));
        assert(back_entries(ys).drop_last() =~= back_entries(ys0));
        assert(back_entries(zs0).len() == back_entries(ys0).len());
        assert forall|m: int| 0 <= m < ys.len() implies #[trigger] back_entries(zs0.push((k, z)))[m]
            == back_entries(ys)[m] by {
            if m < ys0.len() {
                assert(back_entries(zs0)[m] == back_entries(ys0)[m]);
            }
        }
        assert(back_entries(zs0.push((k, z))) =~= back_entries(ys));
    }
}

/// What a successful conversion of record fields holds: one entry per field,
/// under the field's name, with a value stable under the field's schema.
proof fn lemma_fields_shape(fs: Seq<RecordField>, es: Seq<(PickleModel, PickleModel)>, used: Seq<bool>)
    requires
        convert_fields(fs, es, used) is Ok,
        forall|k: int|
            0 <= k < fs.len() ==> defaults_stable(#[trigger] fs[k].schema) && (fs[k].default matches Some(
                d,
            ) ==> stable(fs[k].schema, d@)),
    ensures
        convert_fields(fs, es, used)->Ok_0.len() == fs.len(),
        forall|k: int|
            0 <= k < fs.len() ==> (#[trigger] convert_fields(fs, es, used)->Ok_0[k]).0 == fs[k].name@
                && stable(fs[k].schema, convert_fields(fs, es, used)->Ok_0[k].1),
    decreases fs, 0int,
{
    if fs.len() > 0 {
        let f = fs[0];
        let rest = fs.subrange(1, fs.len() as int);
        assert(defaults_stable(fs[0].schema));
        match field_entry(f, es, used) {
            Some(j) => {
                lemma_round_trip_fixed_point(f.schema, es[j].1);
                lemma_fields_shape(rest, es, used.update(j, true));
            },
            None => {
                lemma_fields_shape(rest, es, used);
            },
        }
    }
}

/// The first entry not yet consumed with a key is found.
proof fn lemma_find_first(es: Seq<(PickleModel, PickleModel)>, used: Seq<bool>, key: PickleModel, j: int, i: int)
    requires
        0 <= j <= i < es.len(),
        i < used.len(),
        forall|k: int| j <= k < i ==> used[k],
        !used[i],
        es[i].0 == key,
    ensures
        find_entry(es, used, key, j) == Some(i),
    decreases i - j,
{
    if j < i {
        lemma_find_first(es, used, key, j + 1, i);
    }
}

/// Converting the entries that a record converts back to, from field `i`
/// on, with the entries before `i` consumed.
proof fn lemma_fields_back(fs: Seq<RecordField>, ys: Seq<(Seq<char>, AvroModel)>, i: int)
    requires
        ys.len() == fs.len(),
        0 <= i <= fs.len(),
        forall|k: int| 0 <= k < fs.len() ==> (#[trigger] ys[k]).0 == fs[k].name@ && stable(fs[k].schema, ys[k].1),
    ensures
        convert_fields(fs.subrange(i, fs.len() as int), back_entries(ys), Seq::new(fs.len(), |k: int| k < i))
            matches Ok(zs) && zs.len() == fs.len() - i && forall|k: int|
            0 <= k < zs.len() ==> (#[trigger] zs[k]).0 == ys[i + k].0 && convert_back(zs[k].1)
                == convert_back(ys[i + k].1),
    decreases fs.len() - i,
{
    let n = fs.len() as int;
    let e2 = back_entries(ys);
    let g = fs.subrange(i, n);
    let used = Seq::new(fs.len(), |k: int| k < i);
    if i < n {
        assert(ys[i].0 == fs[i].name@);
        lemma_find_first(e2, used, PickleModel::Text(fs[i].name@), 0, i);
        assert(g[0] == fs[i]);
        assert(field_entry(g[0], e2, used) == Some(i));
        lemma_fields_back(fs, ys, i + 1);
        assert(g.subrange(1, g.len() as int) =~= fs.subrange(i + 1, n));
        assert(used.update(i, true) =~= Seq::new(fs.len(), |k: int| k < i + 1));
        let t2 = convert(fs[i].schema, e2[i].1)->Ok_0;
        let zs1 = convert_fields(fs.subrange(i + 1, n), e2, Seq::new(fs.len(), |k: int| k < i + 1))->Ok_0;
        let zs = seq![(fs[i].name@, t2)] + zs1;
        assert forall|k: int| 0 <= k < zs.len() implies (#[trigger] zs[k]).0 == ys[i + k].0 && convert_back(
            zs[k].1,
        ) == convert_back(ys[i + k].1) by {
            if k > 0 {
                assert(zs[k] == zs1[k - 1]);
            }
        }
    }
}

} // verus!
