//! Items and attribute values, and how many bytes they count for.

use vstd::prelude::*;
use vstd::string::*;
use vstd::utf8::encode_utf8;

verus! {

/// A DynamoDB attribute value.
#[derive(Debug, PartialEq, Eq)]
pub enum AttributeValue {
    S(String),
    N(String),
    B(Vec<u8>),
    Bool(bool),
    Null(bool),
    M(Vec<(String, AttributeValue)>),
    L(Vec<AttributeValue>),
    Ss(Vec<String>),
    Ns(Vec<String>),
    Bs(Vec<Vec<u8>>),
    /// A kind of value that this version does not know.
    Unknown,
}

/// An item: its attributes by name. In a proper item no name occurs twice (see
/// [`distinct_names`]).
pub type Item = Vec<(String, AttributeValue)>;

/// The length of a text in bytes.
pub open spec fn byte_len(s: Seq<char>) -> nat {
    encode_utf8(s).len()
}

/// The length of all texts of a set, in bytes.
pub open spec fn texts_size(texts: Seq<String>) -> nat
    decreases texts.len(),
{
    if texts.len() == 0 {
        0
    } else {
        texts_size(texts.drop_last()) + byte_len(texts.last()@)
    }
}

/// The length of all binaries of a set, in bytes.
pub open spec fn binaries_size(binaries: Seq<Vec<u8>>) -> nat
    decreases binaries.len(),
{
    if binaries.len() == 0 {
        0
    } else {
        binaries_size(binaries.drop_last()) + binaries.last()@.len()
    }
}

/// How many bytes a value counts for: the length of its text or binary data, one
/// byte for a truth value or null, and the sum of its parts for a map, a list or
/// a set. An unknown kind of value counts for nothing.
pub open spec fn value_size(value: AttributeValue) -> nat
    decreases value,
{
    match value {
        AttributeValue::S(s) => byte_len(s@),
        AttributeValue::N(s) => byte_len(s@),
        AttributeValue::B(bytes) => bytes@.len(),
        AttributeValue::Bool(_) => 1,
        AttributeValue::Null(_) => 1,
        AttributeValue::M(fields) => fields_size(fields@),
        AttributeValue::L(values) => values_size(values@),
        AttributeValue::Ss(texts) => texts_size(texts@),
        AttributeValue::Ns(texts) => texts_size(texts@),
        AttributeValue::Bs(binaries) => binaries_size(binaries@),
        AttributeValue::Unknown => 0,
    }
}

/// How many bytes the attributes of an item count for, their names included.
pub open spec fn fields_size(fields: Seq<(String, AttributeValue)>) -> nat
    decreases fields,
{
    if fields.len() == 0 {
        0
    } else {
        fields_size(fields.drop_last()) + byte_len(fields.last().0@) + value_size(fields.last().1)
    }
}

/// How many bytes a list of values counts for.
pub open spec fn values_size(values: Seq<AttributeValue>) -> nat
    decreases values,
{
    if values.len() == 0 {
        0
    } else {
        values_size(values.drop_last()) + value_size(values.last())
    }
}

/// No two attributes have the same name, neither here nor in any map within.
pub open spec fn distinct_names(fields: Seq<(String, AttributeValue)>) -> bool
    decreases fields,
{
    &&& forall|i: int, j: int|
        0 <= i < j < fields.len() ==> (#[trigger] fields[i]).0@ != (#[trigger] fields[j]).0@
    &&& forall|i: int|
        0 <= i < fields.len() ==> distinct_names_within((#[trigger] fields[i]).1)
}

/// In no map within the value do two attributes have the same name.
pub open spec fn distinct_names_within(value: AttributeValue) -> bool
    decreases value,
{
    match value {
        AttributeValue::M(fields) => distinct_names(fields@),
        AttributeValue::L(values) => forall|i: int|
            0 <= i < values@.len() ==> distinct_names_within(#[trigger] values@[i]),
        _ => true,
    }
}

/// The sum of two sizes, unless it is too large or one of them is.
fn sum(a: Option<usize>, b: Option<usize>) -> (total: Option<usize>)
    ensures
        total == match (a, b) {
            (Some(x), Some(y)) if x + y <= usize::MAX => Some((x + y) as usize),
            _ => None,
        },
{
    match (a, b) {
        (Some(x), Some(y)) => x.checked_add(y),
        _ => None,
    }
}

/// `size` is `exact`, or there is none because `exact` is too large.
pub open spec fn is_size(size: Option<usize>, exact: nat) -> bool {
    match size {
        Some(n) => n == exact,
        None => exact > usize::MAX,
    }
}

fn byte_size(s: &String) -> (size: Option<usize>)
    ensures
        is_size(size, byte_len(s@)),
{
    Some(s.as_str().as_bytes().len())
}

fn checked_texts_size(texts: &Vec<String>) -> (size: Option<usize>)
    ensures
        is_size(size, texts_size(texts@)),
{
    let mut size: Option<usize> = Some(0);
    let mut i: usize = 0;
    while i < texts.len()
        invariant
            i <= texts.len(),
            is_size(size, texts_size(texts@.take(i as int))),
        decreases texts.len() - i,
    {
        assert(texts@.take(i + 1).drop_last() == texts@.take(i as int));
        size = sum(size, byte_size(&texts[i]));
        i += 1;
    }
    assert(texts@.take(i as int) == texts@);
    size
}

fn checked_binaries_size(binaries: &Vec<Vec<u8>>) -> (size: Option<usize>)
    ensures
        is_size(size, binaries_size(binaries@)),
{
    let mut size: Option<usize> = Some(0);
    let mut i: usize = 0;
    while i < binaries.len()
        invariant
            i <= binaries.len(),
            is_size(size, binaries_size(binaries@.take(i as int))),
        decreases binaries.len() - i,
    {
        assert(binaries@.take(i + 1).drop_last() == binaries@.take(i as int));
        size = sum(size, Some(binaries[i].len()));
        i += 1;
    }
    assert(binaries@.take(i as int) == binaries@);
    size
}

/// How many bytes a value counts for, unless that is too large a number.
pub fn checked_value_size(value: &AttributeValue) -> (size: Option<usize>)
    ensures
        is_size(size, value_size(*value)),
        size matches Some(n) ==> n == value_size(*value),
        size is None <==> value_size(*value) > usize::MAX,
    decreases value,
{
    match value {
        AttributeValue::S(s) => byte_size(s),
        AttributeValue::N(s) => byte_size(s),
        AttributeValue::B(bytes) => Some(bytes.len()),
        AttributeValue::Bool(_) => Some(1),
        AttributeValue::Null(_) => Some(1),
        AttributeValue::M(fields) => checked_item_size(fields),
        AttributeValue::L(values) => {
            let mut size: Option<usize> = Some(0);
            let mut i: usize = 0;
            while i < values.len()
                invariant
                    i <= values.len(),
                    is_size(size, values_size(values@.take(i as int))),
                    value matches AttributeValue::L(v) && v == values,
                decreases values.len() - i,
            {
                assert(values@.take(i + 1).drop_last() == values@.take(i as int));
                assert(decreases_to!(value => values@[i as int]));
                size = sum(size, checked_value_size(&values[i]));
                i += 1;
            }
            assert(values@.take(i as int) == values@);
            size
        },
        AttributeValue::Ss(texts) => checked_texts_size(texts),
        AttributeValue::Ns(texts) => checked_texts_size(texts),
        AttributeValue::Bs(binaries) => checked_binaries_size(binaries),
        AttributeValue::Unknown => Some(0),
    }
}

/// How many bytes an item counts for, unless that is too large a number.
pub fn checked_item_size(item: &Item) -> (size: Option<usize>)
    ensures
        is_size(size, fields_size(item@)),
        size matches Some(n) ==> n == fields_size(item@),
        size is None <==> fields_size(item@) > usize::MAX,
    decreases item,
{
    let mut size: Option<usize> = Some(0);
    let mut i: usize = 0;
    while i < item.len()
        invariant
            i <= item.len(),
            is_size(size, fields_size(item@.take(i as int))),
        decreases item.len() - i,
    {
        assert(item@.take(i + 1).drop_last() == item@.take(i as int));
        assert(decreases_to!(item => item@[i as int].1));
        let name = byte_size(&item[i].0);
        let value = checked_value_size(&item[i].1);
        size = sum(sum(size, name), value);
        i += 1;
    }
    assert(item@.take(i as int) == item@);
    size
}

/// How many bytes an item counts for: the names of its attributes and their
/// values.
pub fn item_size(item: &Item) -> (size: usize)
    requires
        fields_size(item@) <= usize::MAX,
    ensures
        size == fields_size(item@),
{
    match checked_item_size(item) {
        Some(size) => size,
        None => 0,
    }
}

/// How many bytes a value counts for.
pub fn attribute_value_size(value: &AttributeValue) -> (size: usize)
    requires
        value_size(*value) <= usize::MAX,
    ensures
        size == value_size(*value),
{
    match checked_value_size(value) {
        Some(size) => size,
        None => 0,
    }
}

/// Attributes count one by one: each for the bytes of its name and for its value.
pub proof fn attributes_count_one_by_one(
    a: Seq<(String, AttributeValue)>,
    b: Seq<(String, AttributeValue)>,
    name: String,
    value: AttributeValue,
)
    ensures
        fields_size(Seq::empty()) == 0,
        fields_size(seq![(name, value)]) == encode_utf8(name@).len() + value_size(value),
        fields_size(a + b) == fields_size(a) + fields_size(b),
    decreases b.len(),
{
    reveal_with_fuel(fields_size, 2);
    assert(seq![(name, value)].drop_last() == Seq::<(String, AttributeValue)>::empty());
    if b.len() == 0 {
        assert(a + b == a);
    } else {
        attributes_count_one_by_one(a, b.drop_last(), name, value);
        assert((a + b).drop_last() == a + b.drop_last());
        assert((a + b).last() == b.last());
    }
}

/// The values of a list count one by one.
pub proof fn list_values_count_one_by_one(
    a: Seq<AttributeValue>,
    b: Seq<AttributeValue>,
    value: AttributeValue,
)
    ensures
        values_size(Seq::empty()) == 0,
        values_size(seq![value]) == value_size(value),
        values_size(a + b) == values_size(a) + values_size(b),
    decreases b.len(),
{
    reveal_with_fuel(values_size, 2);
    assert(seq![value].drop_last() == Seq::<AttributeValue>::empty());
    if b.len() == 0 {
        assert(a + b == a);
    } else {
        list_values_count_one_by_one(a, b.drop_last(), value);
        assert((a + b).drop_last() == a + b.drop_last());
        assert((a + b).last() == b.last());
    }
}

/// The texts of a set count one by one, each for its bytes.
pub proof fn texts_count_one_by_one(a: Seq<String>, b: Seq<String>, text: String)
    ensures
        texts_size(Seq::empty()) == 0,
        texts_size(seq![text]) == encode_utf8(text@).len(),
        texts_size(a + b) == texts_size(a) + texts_size(b),
    decreases b.len(),
{
    reveal_with_fuel(texts_size, 2);
    assert(seq![text].drop_last() == Seq::<String>::empty());
    if b.len() == 0 {
        assert(a + b == a);
    } else {
        texts_count_one_by_one(a, b.drop_last(), text);
        assert((a + b).drop_last() == a + b.drop_last());
        assert((a + b).last() == b.last());
    }
}

/// The binaries of a set count one by one, each for its bytes.
pub proof fn binaries_count_one_by_one(a: Seq<Vec<u8>>, b: Seq<Vec<u8>>, binary: Vec<u8>)
    ensures
        binaries_size(Seq::empty()) == 0,
        binaries_size(seq![binary]) == binary@.len(),
        binaries_size(a + b) == binaries_size(a) + binaries_size(b),
    decreases b.len(),
{
    reveal_with_fuel(binaries_size, 2);
    assert(seq![binary].drop_last() == Seq::<Vec<u8>>::empty());
    if b.len() == 0 {
        assert(a + b == a);
    } else {
        binaries_count_one_by_one(a, b.drop_last(), binary);
        assert((a + b).drop_last() == a + b.drop_last());
        assert((a + b).last() == b.last());
    }
}

/// A text, a number and binary data count for their bytes, a truth value and null for
/// one byte, a map and a list for what they hold, a set for its members.
pub proof fn values_count_for_what_they_hold(value: AttributeValue)
    ensures
        value matches AttributeValue::S(s) ==> value_size(value) == encode_utf8(s@).len(),
        value matches AttributeValue::N(s) ==> value_size(value) == encode_utf8(s@).len(),
        value matches AttributeValue::B(bytes) ==> value_size(value) == bytes@.len(),
        value is Bool || value is Null ==> value_size(value) == 1,
        value matches AttributeValue::M(fields) ==> value_size(value) == fields_size(fields@),
        value matches AttributeValue::L(values) ==> value_size(value) == values_size(values@),
        value matches AttributeValue::Ss(texts) ==> value_size(value) == texts_size(texts@),
        value matches AttributeValue::Ns(texts) ==> value_size(value) == texts_size(texts@),
        value matches AttributeValue::Bs(binaries) ==> value_size(value) == binaries_size(
            binaries@,
        ),
        value is Unknown ==> value_size(value) == 0,
{
}

} // verus!
