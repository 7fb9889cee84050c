//! The wire format: how the module's types are written as structured values
//! and read back.
//!
//! A struct is written as a map from the names of its fields to their
//! values, the fields in the canonical order of their names. A map is read
//! strictly: its keys have to come in that order, and no key may be left
//! over.
use vstd::prelude::*;
use vstd::utf8::encode_utf8;
use crate::value::{SimpleValue, Value, ValueView};

verus! {

/// Error encountered during decoding.
#[derive(Clone, Copy, Debug, PartialEq, Eq, Structural)]
pub enum DecodeError {
    ParsingFailed,
    UnexpectedType,
    MissingField,
    UnknownField,
    UnexpectedIntegerSize,
}

impl DecodeError {
    /// What the error says.
    pub open spec fn spec_message(self) -> Seq<char> {
        match self {
            DecodeError::ParsingFailed => "parsing failed"@,
            DecodeError::UnexpectedType => "unexpected type"@,
            DecodeError::MissingField => "missing field"@,
            DecodeError::UnknownField => "unknown field"@,
            DecodeError::UnexpectedIntegerSize => "unexpected integer size"@,
        }
    }

    /// What the error says.
    pub fn message(&self) -> (message: String)
        ensures
            message@ == self.spec_message(),
    {
        match self {
            DecodeError::ParsingFailed => "parsing failed".to_owned(),
            DecodeError::UnexpectedType => "unexpected type".to_owned(),
            DecodeError::MissingField => "missing field".to_owned(),
            DecodeError::UnknownField => "unknown field".to_owned(),
            DecodeError::UnexpectedIntegerSize => "unexpected integer size".to_owned(),
        }
    }
}

/// How one value stands to another in an order.
#[derive(Clone, Copy, Debug, PartialEq, Eq, Structural)]
pub enum Order {
    Less,
    Equal,
    Greater,
}

/// What a list of values holds.
pub open spec fn values_view(values: Seq<Value>) -> Seq<ValueView> {
    Seq::new(values.len(), |i: int| values[i]@)
}

/// What a list of key-value pairs holds.
pub open spec fn pairs_view(pairs: Seq<(Value, Value)>) -> Seq<(ValueView, ValueView)> {
    Seq::new(pairs.len(), |i: int| (pairs[i].0@, pairs[i].1@))
}

/// What a list of values that may be missing holds.
pub open spec fn options_view(options: Seq<Option<Value>>) -> Seq<Option<ValueView>> {
    Seq::new(
        options.len(),
        |i: int|
            match options[i] {
                Some(value) => Some(value@),
                None => None,
            },
    )
}

/// What a list of names holds.
pub open spec fn names_view(names: Seq<&'static str>) -> Seq<Seq<char>> {
    Seq::new(names.len(), |i: int| names[i]@)
}

/// A map holds what its pairs hold.
pub proof fn lemma_dict_view(pairs: Vec<(Value, Value)>)
    ensures
        Value::Dict(pairs)@ == ValueView::Dict(pairs_view(pairs@)),
{
    assert(Value::Dict(pairs)@->Dict_0 =~= pairs_view(pairs@));
}

/// An array holds what its items hold.
pub proof fn lemma_array_view(items: Vec<Value>)
    ensures
        Value::Array(items)@ == ValueView::Array(values_view(items@)),
{
    assert(Value::Array(items)@->Array_0 =~= values_view(items@));
}

/// The order of two byte strings of one length: that of the first bytes in
/// which they differ.
pub open spec fn lex_order(a: Seq<u8>, b: Seq<u8>) -> Order
    decreases a.len(),
{
    if a.len() == 0 || b.len() == 0 {
        Order::Equal
    } else if a[0] < b[0] {
        Order::Less
    } else if a[0] > b[0] {
        Order::Greater
    } else {
        lex_order(a.drop_first(), b.drop_first())
    }
}

/// The canonical order of two byte strings: the shorter one first, and
/// strings of one length by their bytes.
pub open spec fn bytes_order(a: Seq<u8>, b: Seq<u8>) -> Order {
    if a.len() < b.len() {
        Order::Less
    } else if a.len() > b.len() {
        Order::Greater
    } else {
        lex_order(a, b)
    }
}

/// The canonical order of two texts: that of their UTF-8 bytes.
pub open spec fn text_order(a: Seq<char>, b: Seq<char>) -> Order {
    bytes_order(encode_utf8(a), encode_utf8(b))
}

/// The canonical order of a key relative to a text key: by the kind of
/// value first (integers and byte strings before texts, everything else
/// after), and two texts by [`text_order`].
pub open spec fn key_order(key: ValueView, name: Seq<char>) -> Order {
    match key {
        ValueView::Unsigned(_) => Order::Less,
        ValueView::Negative(_) => Order::Less,
        ValueView::ByteString(_) => Order::Less,
        ValueView::TextString(text) => text_order(text, name),
        _ => Order::Greater,
    }
}

/// A byte string is equal to itself in the order.
pub proof fn lemma_lex_order_reflexive(a: Seq<u8>)
    ensures
        lex_order(a, a) == Order::Equal,
    decreases a.len(),
{
    if a.len() > 0 {
        lemma_lex_order_reflexive(a.drop_first());
    }
}

/// Compares two byte strings in the canonical order.
pub fn compare_bytes(a: &[u8], b: &[u8]) -> (order: Order)
    ensures
        order == bytes_order(a@, b@),
{
    if a.len() < b.len() {
        return Order::Less;
    }
    if a.len() > b.len() {
        return Order::Greater;
    }
    let mut i: usize = 0;
    proof {
        assert(a@.skip(0) =~= a@);
        assert(b@.skip(0) =~= b@);
    }
    while i < a.len()
        invariant
            i <= a.len(),
            a.len() == b.len(),
            lex_order(a@, b@) == lex_order(a@.skip(i as int), b@.skip(i as int)),
        decreases a.len() - i,
    {
        proof {
            assert(a@.skip(i as int).drop_first() =~= a@.skip(i + 1));
            assert(b@.skip(i as int).drop_first() =~= b@.skip(i + 1));
        }
        if a[i] < b[i] {
            return Order::Less;
        }
        if a[i] > b[i] {
            return Order::Greater;
        }
        i += 1;
    }
    Order::Equal
}

/// Compares a key with a text key in the canonical order.
pub fn compare_key(key: &Value, name: &str) -> (order: Order)
    ensures
        order == key_order(key@, name@),
{
    match key {
        Value::Unsigned(_) => Order::Less,
        Value::Negative(_) => Order::Less,
        Value::ByteString(_) => Order::Less,
        Value::TextString(text) => compare_bytes(text.as_str().as_bytes(), name.as_bytes()),
        _ => Order::Greater,
    }
}

/// The values of the named fields in the pairs of a map: each name, in the
/// canonical order, takes the value of the next pair if that pair has the
/// name as its key, and is missing otherwise. A key that comes before the
/// name it is held against is unknown, and so is a pair that is left over.
pub open spec fn extract(pairs: Seq<(ValueView, ValueView)>, names: Seq<Seq<char>>) -> Result<
    Seq<Option<ValueView>>,
    DecodeError,
>
    decreases names.len(),
{
    if names.len() == 0 {
        if pairs.len() == 0 {
            Ok(Seq::empty())
        } else {
            Err(DecodeError::UnknownField)
        }
    } else if pairs.len() == 0 || key_order(pairs[0].0, names[0]) == Order::Greater {
        match extract(pairs, names.drop_first()) {
            Ok(rest) => Ok(seq![None] + rest),
            Err(e) => Err(e),
        }
    } else if key_order(pairs[0].0, names[0]) == Order::Less {
        Err(DecodeError::UnknownField)
    } else {
        match extract(pairs.drop_first(), names.drop_first()) {
            Ok(rest) => Ok(seq![Some(pairs[0].1)] + rest),
            Err(e) => Err(e),
        }
    }
}

/// Takes the values of the named fields out of the pairs of a map.
pub fn extract_fields(pairs: Vec<(Value, Value)>, names: &[&'static str]) -> (result: Result<
    Vec<Option<Value>>,
    DecodeError,
>)
    ensures
        extract(pairs_view(pairs@), names_view(names@)) matches Err(e) ==> result == Err::<
            Vec<Option<Value>>,
            DecodeError,
        >(e),
        extract(pairs_view(pairs@), names_view(names@)) matches Ok(fields) ==> (result matches Ok(
            out,
        ) && options_view(out@) == fields && out@.len() == names@.len()),
{
    let mut rest = pairs;
    let mut out: Vec<Option<Value>> = Vec::new();
    let ghost all = pairs_view(pairs@);
    let ghost wanted = names_view(names@);
    let mut i: usize = 0;
    proof {
        assert(wanted.skip(0) =~= wanted);
        assert(options_view(out@) =~= Seq::<Option<ValueView>>::empty());
    }
    while i < names.len()
        invariant
            i <= names.len(),
            wanted == names_view(names@),
            all == pairs_view(pairs@),
            out@.len() == i,
            extract(all, wanted) == (match extract(pairs_view(rest@), wanted.skip(i as int)) {
                Ok(fields) => Ok(options_view(out@) + fields),
                Err(e) => Err(e),
            }),
        decreases names.len() - i,
    {
        let ghost before = pairs_view(rest@);
        let ghost out_before = options_view(out@);
        proof {
            assert(wanted.skip(i as int).drop_first() =~= wanted.skip(i + 1));
            assert(wanted.skip(i as int)[0] == names@[i as int]@);
        }
        let order = if rest.len() == 0 {
            Order::Greater
        } else {
            compare_key(&rest[0].0, names[i])
        };
        match order {
            Order::Less => {
                return Err(DecodeError::UnknownField);
            },
            Order::Greater => {
                out.push(None);
                proof {
                    assert(options_view(out@) =~= out_before + seq![None::<ValueView>]);
                    match extract(before, wanted.skip(i + 1)) {
                        Ok(fields) => {
                            assert(out_before + (seq![None::<ValueView>] + fields) =~= (out_before
                                + seq![None::<ValueView>]) + fields);
                        },
                        Err(_) => {},
                    }
                }
            },
            Order::Equal => {
                let pair = rest.remove(0);
                let ghost taken = pair.1@;
                out.push(Some(pair.1));
                proof {
                    assert(pairs_view(rest@) =~= before.drop_first());
                    assert(taken == before[0].1);
                    assert(options_view(out@) =~= out_before + seq![Some(taken)]);
                    match extract(before.drop_first(), wanted.skip(i + 1)) {
                        Ok(fields) => {
                            assert(out_before + (seq![Some(taken)] + fields) =~= (out_before
                                + seq![Some(taken)]) + fields);
                        },
                        Err(_) => {},
                    }
                }
            },
        }
        i += 1;
    }
    proof {
        assert(wanted.skip(i as int) =~= Seq::<Seq<char>>::empty());
    }
    if rest.len() > 0 {
        return Err(DecodeError::UnknownField);
    }
    proof {
        assert(options_view(out@) + Seq::<Option<ValueView>>::empty() =~= options_view(out@));
    }
    Ok(out)
}

/// A field that has to be there.
pub open spec fn required(field: Option<ValueView>) -> Result<ValueView, DecodeError> {
    match field {
        Some(value) => Ok(value),
        None => Err(DecodeError::MissingField),
    }
}

/// Reads an unsigned integer.
pub open spec fn decode_u64(value: ValueView) -> Result<u64, DecodeError> {
    match value {
        ValueView::Unsigned(n) => Ok(n),
        _ => Err(DecodeError::UnexpectedType),
    }
}

/// Reads an unsigned integer of 32 bits.
pub open spec fn decode_u32(value: ValueView) -> Result<u32, DecodeError> {
    match value {
        ValueView::Unsigned(n) => if n <= u32::MAX {
            Ok(n as u32)
        } else {
            Err(DecodeError::UnexpectedIntegerSize)
        },
        _ => Err(DecodeError::UnexpectedType),
    }
}

/// Reads a byte string.
pub open spec fn decode_bytes(value: ValueView) -> Result<Seq<u8>, DecodeError> {
    match value {
        ValueView::ByteString(bytes) => Ok(bytes),
        _ => Err(DecodeError::UnexpectedType),
    }
}

/// Reads a byte string of a given length.
pub open spec fn decode_bytes_exact(value: ValueView, len: nat) -> Result<Seq<u8>, DecodeError> {
    match value {
        ValueView::ByteString(bytes) => if bytes.len() == len {
            Ok(bytes)
        } else {
            Err(DecodeError::UnexpectedType)
        },
        _ => Err(DecodeError::UnexpectedType),
    }
}

/// Reads a text string.
pub open spec fn decode_text(value: ValueView) -> Result<Seq<char>, DecodeError> {
    match value {
        ValueView::TextString(text) => Ok(text),
        _ => Err(DecodeError::UnexpectedType),
    }
}

/// Reads an unsigned integer that may be null.
pub open spec fn decode_optional_u64(value: ValueView) -> Result<Option<u64>, DecodeError> {
    match value {
        ValueView::Simple(SimpleValue::NullValue) => Ok(None),
        ValueView::Unsigned(n) => Ok(Some(n)),
        _ => Err(DecodeError::UnexpectedType),
    }
}

/// Whether the value is the given text.
pub open spec fn is_text(value: ValueView, text: Seq<char>) -> bool {
    value == ValueView::TextString(text)
}

/// Reads an unsigned integer.
pub fn take_u64(value: Value) -> (result: Result<u64, DecodeError>)
    ensures
        result == decode_u64(value@),
{
    match value {
        Value::Unsigned(n) => Ok(n),
        _ => Err(DecodeError::UnexpectedType),
    }
}

/// Reads an unsigned integer of 32 bits.
pub fn take_u32(value: Value) -> (result: Result<u32, DecodeError>)
    ensures
        result == decode_u32(value@),
{
    match value {
        Value::Unsigned(n) => if n <= u32::MAX as u64 {
            Ok(n as u32)
        } else {
            Err(DecodeError::UnexpectedIntegerSize)
        },
        _ => Err(DecodeError::UnexpectedType),
    }
}

/// Reads a byte string.
pub fn take_bytes(value: Value) -> (result: Result<Vec<u8>, DecodeError>)
    ensures
        decode_bytes(value@) matches Err(e) ==> result == Err::<Vec<u8>, DecodeError>(e),
        decode_bytes(value@) matches Ok(bytes) ==> (result matches Ok(out) && out@ == bytes),
{
    match value {
        Value::ByteString(bytes) => Ok(bytes),
        _ => Err(DecodeError::UnexpectedType),
    }
}

/// Reads a text string.
pub fn take_text(value: Value) -> (result: Result<String, DecodeError>)
    ensures
        decode_text(value@) matches Err(e) ==> result == Err::<String, DecodeError>(e),
        decode_text(value@) matches Ok(text) ==> (result matches Ok(out) && out@ == text),
{
    match value {
        Value::TextString(text) => Ok(text),
        _ => Err(DecodeError::UnexpectedType),
    }
}

/// Reads an unsigned integer that may be null.
pub fn take_optional_u64(value: Value) -> (result: Result<Option<u64>, DecodeError>)
    ensures
        result == decode_optional_u64(value@),
{
    match value {
        Value::Simple(SimpleValue::NullValue) => Ok(None),
        Value::Unsigned(n) => Ok(Some(n)),
        _ => Err(DecodeError::UnexpectedType),
    }
}

/// Whether the value is the given text.
pub fn value_is_text(value: &Value, text: &str) -> (same: bool)
    ensures
        same == is_text(value@, text@),
{
    match value {
        Value::TextString(held) => {
            let wanted: String = text.to_owned();
            *held == wanted
        },
        _ => false,
    }
}

/// Writes a text.
pub fn text_value(text: &str) -> (value: Value)
    ensures
        value@ == ValueView::TextString(text@),
{
    Value::TextString(text.to_owned())
}

/// Writes a map of one pair with a text key.
pub fn tagged_value(key: &str, inner: Value) -> (value: Value)
    ensures
        value@ == ValueView::Dict(seq![(ValueView::TextString(key@), inner@)]),
{
    let mut pairs: Vec<(Value, Value)> = Vec::new();
    pairs.push((text_value(key), inner));
    proof {
        lemma_dict_view(pairs);
        assert(pairs_view(pairs@) =~= seq![(ValueView::TextString(key@), inner@)]);
    }
    Value::Dict(pairs)
}

/// The key and the value of a map of one pair.
pub open spec fn untag(value: ValueView) -> Result<(ValueView, ValueView), DecodeError> {
    match value {
        ValueView::Dict(pairs) => if pairs.len() == 1 {
            Ok(pairs[0])
        } else {
            Err(DecodeError::UnknownField)
        },
        _ => Err(DecodeError::UnknownField),
    }
}

/// Takes the key and the value out of a map of one pair.
pub fn take_tagged(value: Value) -> (result: Result<(Value, Value), DecodeError>)
    ensures
        untag(value@) matches Err(e) ==> result == Err::<(Value, Value), DecodeError>(e),
        untag(value@) matches Ok(pair) ==> (result matches Ok(out) && out.0@ == pair.0 && out.1@
            == pair.1),
{
    match value {
        Value::Dict(pairs) => {
            proof {
                lemma_dict_view(pairs);
            }
            let mut pairs = pairs;
            if pairs.len() != 1 {
                return Err(DecodeError::UnknownField);
            }
            let pair = pairs.pop().unwrap();
            Ok(pair)
        },
        _ => Err(DecodeError::UnknownField),
    }
}

/// What a value that may be missing holds.
pub open spec fn option_view(field: Option<Value>) -> Option<ValueView> {
    match field {
        Some(value) => Some(value@),
        None => None,
    }
}

/// A required field that holds an unsigned integer.
pub open spec fn field_u64(field: Option<ValueView>) -> Result<u64, DecodeError> {
    match field {
        Some(value) => decode_u64(value),
        None => Err(DecodeError::MissingField),
    }
}

/// A field that holds an unsigned integer and stands for zero where it is
/// missing.
pub open spec fn field_u64_or_zero(field: Option<ValueView>) -> Result<u64, DecodeError> {
    match field {
        Some(value) => decode_u64(value),
        None => Ok(0),
    }
}

/// A field that holds an unsigned integer or null and stands for null where
/// it is missing.
pub open spec fn field_optional_u64(field: Option<ValueView>) -> Result<Option<u64>, DecodeError> {
    match field {
        Some(value) => decode_optional_u64(value),
        None => Ok(None),
    }
}

/// A required field that holds an unsigned integer of 32 bits.
pub open spec fn field_u32(field: Option<ValueView>) -> Result<u32, DecodeError> {
    match field {
        Some(value) => decode_u32(value),
        None => Err(DecodeError::MissingField),
    }
}

/// A required field that holds a byte string.
pub open spec fn field_bytes(field: Option<ValueView>) -> Result<Seq<u8>, DecodeError> {
    match field {
        Some(value) => decode_bytes(value),
        None => Err(DecodeError::MissingField),
    }
}

/// A required field that holds a byte string of a given length.
pub open spec fn field_bytes_exact(field: Option<ValueView>, len: nat) -> Result<
    Seq<u8>,
    DecodeError,
> {
    match field {
        Some(value) => decode_bytes_exact(value, len),
        None => Err(DecodeError::MissingField),
    }
}

/// A required field that holds a text string.
pub open spec fn field_text(field: Option<ValueView>) -> Result<Seq<char>, DecodeError> {
    match field {
        Some(value) => decode_text(value),
        None => Err(DecodeError::MissingField),
    }
}

/// Takes a field that has to be there.
pub fn take_required(field: Option<Value>) -> (result: Result<Value, DecodeError>)
    ensures
        required(option_view(field)) matches Err(e) ==> result == Err::<Value, DecodeError>(e),
        required(option_view(field)) matches Ok(value) ==> (result matches Ok(out) && out@
            == value),
{
    match field {
        Some(value) => Ok(value),
        None => Err(DecodeError::MissingField),
    }
}

/// Takes a required field that holds an unsigned integer.
pub fn take_field_u64(field: Option<Value>) -> (result: Result<u64, DecodeError>)
    ensures
        result == field_u64(option_view(field)),
{
    match field {
        Some(value) => take_u64(value),
        None => Err(DecodeError::MissingField),
    }
}

/// Takes a field that holds an unsigned integer and stands for zero where
/// it is missing.
pub fn take_field_u64_or_zero(field: Option<Value>) -> (result: Result<u64, DecodeError>)
    ensures
        result == field_u64_or_zero(option_view(field)),
{
    match field {
        Some(value) => take_u64(value),
        None => Ok(0),
    }
}

/// Takes a field that holds an unsigned integer or null and stands for null
/// where it is missing.
pub fn take_field_optional_u64(field: Option<Value>) -> (result: Result<Option<u64>, DecodeError>)
    ensures
        result == field_optional_u64(option_view(field)),
{
    match field {
        Some(value) => take_optional_u64(value),
        None => Ok(None),
    }
}

/// Takes a required field that holds an unsigned integer of 32 bits.
pub fn take_field_u32(field: Option<Value>) -> (result: Result<u32, DecodeError>)
    ensures
        result == field_u32(option_view(field)),
{
    match field {
        Some(value) => take_u32(value),
        None => Err(DecodeError::MissingField),
    }
}

/// Takes a required field that holds a byte string.
pub fn take_field_bytes(field: Option<Value>) -> (result: Result<Vec<u8>, DecodeError>)
    ensures
        field_bytes(option_view(field)) matches Err(e) ==> result == Err::<Vec<u8>, DecodeError>(
            e,
        ),
        field_bytes(option_view(field)) matches Ok(bytes) ==> (result matches Ok(out) && out@
            == bytes),
{
    match field {
        Some(value) => take_bytes(value),
        None => Err(DecodeError::MissingField),
    }
}

/// Takes a required field that holds a text string.
pub fn take_field_text(field: Option<Value>) -> (result: Result<String, DecodeError>)
    ensures
        field_text(option_view(field)) matches Err(e) ==> result == Err::<String, DecodeError>(e),
        field_text(option_view(field)) matches Ok(text) ==> (result matches Ok(out) && out@
            == text),
{
    match field {
        Some(value) => take_text(value),
        None => Err(DecodeError::MissingField),
    }
}

/// Takes the last of the extracted fields.
pub fn pop_field(fields: &mut Vec<Option<Value>>) -> (field: Option<Value>)
    requires
        old(fields)@.len() > 0,
    ensures
        final(fields)@ == old(fields)@.drop_last(),
        option_view(field) == options_view(old(fields)@).last(),
        options_view(final(fields)@) == options_view(old(fields)@).drop_last(),
{
    let field = fields.pop().unwrap();
    assert(options_view(fields@) =~= options_view(old(fields)@).drop_last());
    field
}

/// The UTF-8 bytes of a text of ASCII characters are the characters.
pub proof fn lemma_ascii_bytes(s: &str)
    requires
        vstd::string::is_ascii(s),
    ensures
        encode_utf8(s@) =~= Seq::new(s@.len(), |i: int| s@[i] as u8),
{
    vstd::string::is_ascii_spec_bytes(s);
}

/// Whether each of the names comes before the next in the canonical order.
pub open spec fn canonical(names: Seq<Seq<char>>) -> bool {
    forall|i: int|
        0 <= i < names.len() - 1 ==> text_order(#[trigger] names[i], names[i + 1]) == Order::Less
}

/// Of two names of ASCII characters the shorter one comes first.
pub proof fn lemma_shorter_name_first(a: &str, b: &str)
    requires
        vstd::string::is_ascii(a),
        vstd::string::is_ascii(b),
        a@.len() < b@.len(),
    ensures
        text_order(a@, b@) == Order::Less,
{
    lemma_ascii_bytes(a);
    lemma_ascii_bytes(b);
}

/// A name is equal to itself in the order.
pub proof fn lemma_same_name(a: Seq<char>)
    ensures
        text_order(a, a) == Order::Equal,
        key_order(ValueView::TextString(a), a) == Order::Equal,
{
    lemma_lex_order_reflexive(encode_utf8(a));
}

/// Where the keys of the pairs are the first of the names, in their order,
/// each of these names gets the value of its pair and the names after them
/// are missing.
pub proof fn lemma_extract_leading(pairs: Seq<(ValueView, ValueView)>, names: Seq<Seq<char>>)
    requires
        pairs.len() <= names.len(),
        forall|i: int| 0 <= i < pairs.len() ==> (#[trigger] pairs[i]).0 == ValueView::TextString(
            names[i],
        ),
    ensures
        extract(pairs, names) == Ok::<Seq<Option<ValueView>>, DecodeError>(
            Seq::new(
                names.len(),
                |i: int|
                    if i < pairs.len() {
                        Some(pairs[i].1)
                    } else {
                        None
                    },
            ),
        ),
    decreases names.len(),
{
    let expected = Seq::new(
        names.len(),
        |i: int|
            if i < pairs.len() {
                Some(pairs[i].1)
            } else {
                None
            },
    );
    if names.len() == 0 {
        assert(expected =~= Seq::<Option<ValueView>>::empty());
    } else if pairs.len() == 0 {
        lemma_extract_leading(pairs, names.drop_first());
        let rest = extract(pairs, names.drop_first())->Ok_0;
        assert(seq![None::<ValueView>] + rest =~= expected);
    } else {
        lemma_same_name(names[0]);
        assert(pairs[0].0 == ValueView::TextString(names[0]));
        assert forall|i: int| 0 <= i < pairs.drop_first().len() implies (
        #[trigger] pairs.drop_first()[i]).0 == ValueView::TextString(names.drop_first()[i]) by {
            assert(pairs.drop_first()[i] == pairs[i + 1]);
        }
        lemma_extract_leading(pairs.drop_first(), names.drop_first());
        let rest = extract(pairs.drop_first(), names.drop_first())->Ok_0;
        assert(seq![Some(pairs[0].1)] + rest =~= expected);
    }
}

/// Appends a field to the pairs of a map.
pub fn push_field(pairs: &mut Vec<(Value, Value)>, name: &str, value: Value)
    ensures
        pairs_view(final(pairs)@) == pairs_view(old(pairs)@).push(
            (ValueView::TextString(name@), value@),
        ),
{
    pairs.push((text_value(name), value));
    assert(pairs_view(pairs@) =~= pairs_view(old(pairs)@).push(
        (ValueView::TextString(name@), value@),
    ));
}

/// The map with the given pairs.
pub fn dict_value(pairs: Vec<(Value, Value)>) -> (value: Value)
    ensures
        value@ == ValueView::Dict(pairs_view(pairs@)),
{
    proof {
        lemma_dict_view(pairs);
    }
    Value::Dict(pairs)
}

/// The named fields of a map.
pub open spec fn decode_fields(value: ValueView, names: Seq<Seq<char>>) -> Result<
    Seq<Option<ValueView>>,
    DecodeError,
> {
    match value {
        ValueView::Dict(pairs) => extract(pairs, names),
        _ => Err(DecodeError::UnexpectedType),
    }
}

/// Takes the named fields out of a map.
pub fn take_fields(value: Value, names: &[&'static str]) -> (result: Result<
    Vec<Option<Value>>,
    DecodeError,
>)
    ensures
        decode_fields(value@, names_view(names@)) matches Err(e) ==> result == Err::<
            Vec<Option<Value>>,
            DecodeError,
        >(e),
        decode_fields(value@, names_view(names@)) matches Ok(fields) ==> (result matches Ok(out)
            && options_view(out@) == fields && out@.len() == names@.len()),
{
    match value {
        Value::Dict(pairs) => {
            proof {
                lemma_dict_view(pairs);
            }
            extract_fields(pairs, names)
        },
        _ => Err(DecodeError::UnexpectedType),
    }
}

/// The items of a list in the opposite order.
pub fn reverse_values(values: Vec<Value>) -> (reversed: Vec<Value>)
    ensures
        values_view(reversed@) == values_view(values@).reverse(),
{
    let mut rest = values;
    let mut reversed: Vec<Value> = Vec::new();
    let ghost all = values_view(values@);
    let n: usize = rest.len();
    let mut i: usize = 0;
    proof {
        assert(values_view(rest@) =~= all.take(n as int));
        assert(values_view(reversed@) =~= all.reverse().take(0));
    }
    while i < n
        invariant
            i <= n,
            n == all.len(),
            values_view(rest@) == all.take(n - i),
            values_view(reversed@) == all.reverse().take(i as int),
        decreases n - i,
    {
        let ghost rest_before = values_view(rest@);
        let ghost reversed_before = values_view(reversed@);
        assert(rest@.len() == rest_before.len());
        let item = rest.pop().unwrap();
        assert(item@ == rest_before.last());
        reversed.push(item);
        i += 1;
        proof {
            assert(values_view(rest@) =~= all.take(n - i));
            assert(values_view(reversed@) =~= reversed_before.push(item@));
            assert(values_view(reversed@) =~= all.reverse().take(i as int));
        }
    }
    proof {
        assert(all.reverse().take(n as int) =~= all.reverse());
    }
    reversed
}

/// The items of an array.
pub open spec fn decode_array(value: ValueView) -> Result<Seq<ValueView>, DecodeError> {
    match value {
        ValueView::Array(items) => Ok(items),
        _ => Err(DecodeError::UnexpectedType),
    }
}

/// Takes the items out of an array.
pub fn take_array(value: Value) -> (result: Result<Vec<Value>, DecodeError>)
    ensures
        decode_array(value@) matches Err(e) ==> result == Err::<Vec<Value>, DecodeError>(e),
        decode_array(value@) matches Ok(items) ==> (result matches Ok(out) && values_view(out@)
            == items),
{
    match value {
        Value::Array(items) => {
            proof {
                lemma_array_view(items);
            }
            Ok(items)
        },
        _ => Err(DecodeError::UnexpectedType),
    }
}

/// The array with the given items.
pub fn array_value(items: Vec<Value>) -> (value: Value)
    ensures
        value@ == ValueView::Array(values_view(items@)),
{
    proof {
        lemma_array_view(items);
    }
    Value::Array(items)
}

/// Two byte strings of one length that are equal in the order are the same.
pub proof fn lemma_lex_order_equal(a: Seq<u8>, b: Seq<u8>)
    requires
        a.len() == b.len(),
        lex_order(a, b) == Order::Equal,
    ensures
        a == b,
    decreases a.len(),
{
    if a.len() > 0 {
        lemma_lex_order_equal(a.drop_first(), b.drop_first());
        assert(a =~= seq![a[0]] + a.drop_first());
        assert(b =~= seq![b[0]] + b.drop_first());
    } else {
        assert(a =~= b);
    }
}

/// A key that is equal to a name in the order is the text of the name.
pub proof fn lemma_key_equal(key: ValueView, name: Seq<char>)
    requires
        key_order(key, name) == Order::Equal,
    ensures
        key == ValueView::TextString(name),
{
    let text = key->TextString_0;
    lemma_lex_order_equal(encode_utf8(text), encode_utf8(name));
    vstd::utf8::encode_utf8_decode_utf8(text);
    vstd::utf8::encode_utf8_decode_utf8(name);
}

/// The pairs of a map in which the named fields have the given values: the
/// fields that are there, in the order of the names.
pub open spec fn written(names: Seq<Seq<char>>, fields: Seq<Option<ValueView>>) -> Seq<
    (ValueView, ValueView),
>
    decreases names.len(),
{
    if names.len() == 0 || fields.len() != names.len() {
        Seq::empty()
    } else {
        let rest = written(names.drop_first(), fields.drop_first());
        match fields[0] {
            Some(value) => seq![(ValueView::TextString(names[0]), value)] + rest,
            None => rest,
        }
    }
}

/// Pairs from which fields can be extracted are the fields written: a map
/// is read in one way only.
pub proof fn lemma_extract_written(pairs: Seq<(ValueView, ValueView)>, names: Seq<Seq<char>>)
    requires
        extract(pairs, names) is Ok,
    ensures
        extract(pairs, names)->Ok_0.len() == names.len(),
        pairs == written(names, extract(pairs, names)->Ok_0),
    decreases names.len(),
{
    let fields = extract(pairs, names)->Ok_0;
    if names.len() == 0 {
        assert(pairs =~= Seq::<(ValueView, ValueView)>::empty());
    } else if pairs.len() == 0 || key_order(pairs[0].0, names[0]) == Order::Greater {
        lemma_extract_written(pairs, names.drop_first());
        let rest = extract(pairs, names.drop_first())->Ok_0;
        assert(fields.drop_first() =~= rest);
    } else {
        lemma_key_equal(pairs[0].0, names[0]);
        lemma_extract_written(pairs.drop_first(), names.drop_first());
        let rest = extract(pairs.drop_first(), names.drop_first())->Ok_0;
        assert(fields.drop_first() =~= rest);
        assert(pairs =~= seq![pairs[0]] + pairs.drop_first());
    }
}

/// Where the first `present` of the fields are there and the others are
/// missing, the pairs written are those of the first `present` names.
pub proof fn lemma_written_leading(
    names: Seq<Seq<char>>,
    fields: Seq<Option<ValueView>>,
    present: int,
)
    requires
        fields.len() == names.len(),
        0 <= present <= names.len(),
        forall|i: int| 0 <= i < present ==> (#[trigger] fields[i]) is Some,
        forall|i: int| present <= i < fields.len() ==> (#[trigger] fields[i]) is None,
    ensures
        written(names, fields) == Seq::new(
            present as nat,
            |i: int| (ValueView::TextString(names[i]), fields[i]->Some_0),
        ),
    decreases names.len(),
{
    let expected = Seq::new(
        present as nat,
        |i: int| (ValueView::TextString(names[i]), fields[i]->Some_0),
    );
    if names.len() == 0 {
        assert(expected =~= Seq::<(ValueView, ValueView)>::empty());
    } else if present == 0 {
        assert(fields[0] is None);
        lemma_written_leading(names.drop_first(), fields.drop_first(), 0);
        assert(expected =~= Seq::<(ValueView, ValueView)>::empty());
    } else {
        assert(fields[0] is Some);
        assert forall|i: int| 0 <= i < present - 1 implies (#[trigger] fields.drop_first()[i])
            is Some by {
            assert(fields.drop_first()[i] == fields[i + 1]);
        }
        assert forall|i: int| present - 1 <= i < fields.drop_first().len() implies (
        #[trigger] fields.drop_first()[i]) is None by {
            assert(fields.drop_first()[i] == fields[i + 1]);
        }
        lemma_written_leading(names.drop_first(), fields.drop_first(), present - 1);
        assert(written(names, fields) =~= expected);
    }
}

} // verus!
