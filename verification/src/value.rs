use vstd::prelude::*;

verus! {

use crate::error::EngineError;

/// The declared type of a column.
#[derive(Clone, Copy, PartialEq, Eq, Structural, Debug)]
pub enum DataType {
    Bool,
    Int,
    Text,
    Uuid,
    Timestamp,
    Bytea,
}

/// A calendar timestamp, the value of a `YYYY-MM-DD HH:MM:SS` literal,
/// held as its six fields. Ordering is lexicographic over the fields,
/// which is chronological order for in-range values.
#[derive(Clone, Copy, PartialEq, Eq, Structural, Debug)]
pub struct Timestamp {
    pub year: u16,
    pub month: u8,
    pub day: u8,
    pub hour: u8,
    pub minute: u8,
    pub second: u8,
}

/// A typed scalar value, one cell of a row.
#[derive(Clone, PartialEq, Debug)]
pub enum Value {
    Null,
    Bool(bool),
    I64(i64),
    Str(String),
    Uuid(u128),
    Timestamp(Timestamp),
    Bytes(Vec<u8>),
}

/// The mathematical model of a `Value`: the same variants over `Seq` views.
pub enum ValueV {
    Null,
    Bool(bool),
    I64(i64),
    Str(Seq<char>),
    Uuid(u128),
    Timestamp(Timestamp),
    Bytes(Seq<u8>),
}

impl View for Value {
    type V = ValueV;

    open spec fn view(&self) -> ValueV {
        match self {
            Value::Null => ValueV::Null,
            Value::Bool(b) => ValueV::Bool(*b),
            Value::I64(n) => ValueV::I64(*n),
            Value::Str(s) => ValueV::Str(s@),
            Value::Uuid(u) => ValueV::Uuid(*u),
            Value::Timestamp(t) => ValueV::Timestamp(*t),
            Value::Bytes(b) => ValueV::Bytes(b@),
        }
    }
}

/// The outcome of comparing two values of one variant.
#[derive(Clone, Copy, PartialEq, Eq, Structural, Debug)]
pub enum ValueOrder {
    Less,
    Equal,
    Greater,
}

/// Lexicographic order of two character sequences.
pub open spec fn lex_chars(a: Seq<char>, b: Seq<char>) -> ValueOrder
    decreases a.len(),
{
    if a.len() == 0 && b.len() == 0 {
        ValueOrder::Equal
    } else if a.len() == 0 {
        ValueOrder::Less
    } else if b.len() == 0 {
        ValueOrder::Greater
    } else if (a[0] as int) < (b[0] as int) {
        ValueOrder::Less
    } else if (a[0] as int) > (b[0] as int) {
        ValueOrder::Greater
    } else {
        lex_chars(a.skip(1), b.skip(1))
    }
}

/// Lexicographic order of two byte sequences.
pub open spec fn lex_bytes(a: Seq<u8>, b: Seq<u8>) -> ValueOrder
    decreases a.len(),
{
    if a.len() == 0 && b.len() == 0 {
        ValueOrder::Equal
    } else if a.len() == 0 {
        ValueOrder::Less
    } else if b.len() == 0 {
        ValueOrder::Greater
    } else if a[0] < b[0] {
        ValueOrder::Less
    } else if a[0] > b[0] {
        ValueOrder::Greater
    } else {
        lex_bytes(a.skip(1), b.skip(1))
    }
}

/// Order of two integers.
pub open spec fn int_order(a: int, b: int) -> ValueOrder {
    if a < b {
        ValueOrder::Less
    } else if a > b {
        ValueOrder::Greater
    } else {
        ValueOrder::Equal
    }
}

/// Order of two timestamps: lexicographic over the six fields.
pub open spec fn ts_order(a: Timestamp, b: Timestamp) -> ValueOrder {
    if a.year != b.year {
        int_order(a.year as int, b.year as int)
    } else if a.month != b.month {
        int_order(a.month as int, b.month as int)
    } else if a.day != b.day {
        int_order(a.day as int, b.day as int)
    } else if a.hour != b.hour {
        int_order(a.hour as int, b.hour as int)
    } else if a.minute != b.minute {
        int_order(a.minute as int, b.minute as int)
    } else {
        int_order(a.second as int, b.second as int)
    }
}

/// What `compare` returns: the order of two values of one variant, with
/// `false < true` for booleans; two nulls are equal; any other mix of
/// variants is a type mismatch.
pub open spec fn compare_s(a: ValueV, b: ValueV) -> Result<ValueOrder, EngineError> {
    match (a, b) {
        (ValueV::Null, ValueV::Null) => Ok(ValueOrder::Equal),
        (ValueV::Bool(x), ValueV::Bool(y)) => Ok(
            if x == y {
                ValueOrder::Equal
            } else if y {
                ValueOrder::Less
            } else {
                ValueOrder::Greater
            },
        ),
        (ValueV::I64(x), ValueV::I64(y)) => Ok(int_order(x as int, y as int)),
        (ValueV::Str(x), ValueV::Str(y)) => Ok(lex_chars(x, y)),
        (ValueV::Uuid(x), ValueV::Uuid(y)) => Ok(int_order(x as int, y as int)),
        (ValueV::Timestamp(x), ValueV::Timestamp(y)) => Ok(ts_order(x, y)),
        (ValueV::Bytes(x), ValueV::Bytes(y)) => Ok(lex_bytes(x, y)),
        _ => Err(EngineError::TypeMismatch),
    }
}

/// Exact-variant equality of two values, the equality used for PRIMARY KEY
/// and UNIQUE checks: equality of the models, with no coercion.
pub fn value_eq(a: &Value, b: &Value) -> (r: bool)
    ensures
        r == (a@ == b@),
{
    match (a, b) {
        (Value::Null, Value::Null) => true,
        (Value::Bool(x), Value::Bool(y)) => *x == *y,
        (Value::I64(x), Value::I64(y)) => *x == *y,
        (Value::Str(x), Value::Str(y)) => x.eq(y),
        (Value::Uuid(x), Value::Uuid(y)) => *x == *y,
        (Value::Timestamp(x), Value::Timestamp(y)) => *x == *y,
        (Value::Bytes(x), Value::Bytes(y)) => bytes_eq(x, y),
        _ => false,
    }
}

/// Equality of two byte vectors.
pub fn bytes_eq(a: &Vec<u8>, b: &Vec<u8>) -> (r: bool)
    ensures
        r == (a@ == b@),
{
    if a.len() != b.len() {
        return false;
    }
    let n = a.len();
    let mut i: usize = 0;
    while i < n
        invariant
            n == a@.len() == b@.len(),
            i <= n,
            forall|j: int| 0 <= j < i ==> a@[j] == b@[j],
        decreases n - i,
    {
        if a[i] != b[i] {
            return false;
        }
        i += 1;
    }
    proof {
        assert(a@ =~= b@);
    }
    true
}

/// A copy of a value with the same model.
pub fn clone_value(v: &Value) -> (r: Value)
    ensures
        r@ == v@,
{
    match v {
        Value::Null => Value::Null,
        Value::Bool(b) => Value::Bool(*b),
        Value::I64(n) => Value::I64(*n),
        Value::Str(s) => Value::Str(s.clone()),
        Value::Uuid(u) => Value::Uuid(*u),
        Value::Timestamp(t) => Value::Timestamp(*t),
        Value::Bytes(b) => Value::Bytes(clone_bytes(b)),
    }
}

/// A copy of a byte vector with the same view.
pub fn clone_bytes(v: &Vec<u8>) -> (r: Vec<u8>)
    ensures
        r@ == v@,
{
    let mut out: Vec<u8> = Vec::new();
    let n = v.len();
    let mut i: usize = 0;
    while i < n
        invariant
            n == v@.len(),
            i <= n,
            out@ == v@.take(i as int),
        decreases n - i,
    {
        out.push(v[i]);
        proof {
            assert(out@ =~= v@.take(i + 1 as int));
        }
        i += 1;
    }
    proof {
        assert(v@.take(n as int) =~= v@);
    }
    out
}

/// Order of two character strings.
pub fn str_compare(a: &String, b: &String) -> (r: ValueOrder)
    ensures
        r == lex_chars(a@, b@),
{
    let la = a.as_str().unicode_len();
    let lb = b.as_str().unicode_len();
    let mut i: usize = 0;
    proof {
        assert(a@.skip(0) =~= a@);
        assert(b@.skip(0) =~= b@);
    }
    loop
        invariant
            la == a@.len(),
            lb == b@.len(),
            i <= la,
            i <= lb,
            lex_chars(a@, b@) == lex_chars(a@.skip(i as int), b@.skip(i as int)),
        decreases la - i,
    {
        if i == la && i == lb {
            return ValueOrder::Equal;
        }
        if i == la {
            return ValueOrder::Less;
        }
        if i == lb {
            return ValueOrder::Greater;
        }
        let ca = a.as_str().get_char(i);
        let cb = b.as_str().get_char(i);
        if (ca as u32) < (cb as u32) {
            return ValueOrder::Less;
        }
        if (ca as u32) > (cb as u32) {
            return ValueOrder::Greater;
        }
        proof {
            assert(a@.skip(i as int).skip(1) =~= a@.skip(i + 1));
            assert(b@.skip(i as int).skip(1) =~= b@.skip(i + 1));
        }
        i += 1;
    }
}

/// Order of two byte vectors.
pub fn bytes_compare(a: &Vec<u8>, b: &Vec<u8>) -> (r: ValueOrder)
    ensures
        r == lex_bytes(a@, b@),
{
    let la = a.len();
    let lb = b.len();
    let mut i: usize = 0;
    proof {
        assert(a@.skip(0) =~= a@);
        assert(b@.skip(0) =~= b@);
    }
    loop
        invariant
            la == a@.len(),
            lb == b@.len(),
            i <= la,
            i <= lb,
            lex_bytes(a@, b@) == lex_bytes(a@.skip(i as int), b@.skip(i as int)),
        decreases la - i,
    {
        if i == la && i == lb {
            return ValueOrder::Equal;
        }
        if i == la {
            return ValueOrder::Less;
        }
        if i == lb {
            return ValueOrder::Greater;
        }
        if a[i] < b[i] {
            return ValueOrder::Less;
        }
        if a[i] > b[i] {
            return ValueOrder::Greater;
        }
        proof {
            assert(a@.skip(i as int).skip(1) =~= a@.skip(i + 1));
            assert(b@.skip(i as int).skip(1) =~= b@.skip(i + 1));
        }
        i += 1;
    }
}

/// Order of two timestamps.
pub fn ts_compare(a: &Timestamp, b: &Timestamp) -> (r: ValueOrder)
    ensures
        r == ts_order(*a, *b),
{
    if a.year != b.year {
        if a.year < b.year {
            ValueOrder::Less
        } else {
            ValueOrder::Greater
        }
    } else if a.month != b.month {
        if a.month < b.month {
            ValueOrder::Less
        } else {
            ValueOrder::Greater
        }
    } else if a.day != b.day {
        if a.day < b.day {
            ValueOrder::Less
        } else {
            ValueOrder::Greater
        }
    } else if a.hour != b.hour {
        if a.hour < b.hour {
            ValueOrder::Less
        } else {
            ValueOrder::Greater
        }
    } else if a.minute != b.minute {
        if a.minute < b.minute {
            ValueOrder::Less
        } else {
            ValueOrder::Greater
        }
    } else {
        if a.second < b.second {
            ValueOrder::Less
        } else if a.second > b.second {
            ValueOrder::Greater
        } else {
            ValueOrder::Equal
        }
    }
}

/// Compares two values of one variant; any other mix of variants, apart
/// from two nulls, is a type mismatch.
pub fn compare(a: &Value, b: &Value) -> (r: Result<ValueOrder, EngineError>)
    ensures
        r == compare_s(a@, b@),
{
    match (a, b) {
        (Value::Null, Value::Null) => Ok(ValueOrder::Equal),
        (Value::Bool(x), Value::Bool(y)) => Ok(
            if *x == *y {
                ValueOrder::Equal
            } else if *y {
                ValueOrder::Less
            } else {
                ValueOrder::Greater
            },
        ),
        (Value::I64(x), Value::I64(y)) => Ok(
            if *x < *y {
                ValueOrder::Less
            } else if *x > *y {
                ValueOrder::Greater
            } else {
                ValueOrder::Equal
            },
        ),
        (Value::Str(x), Value::Str(y)) => Ok(str_compare(x, y)),
        (Value::Uuid(x), Value::Uuid(y)) => Ok(
            if *x < *y {
                ValueOrder::Less
            } else if *x > *y {
                ValueOrder::Greater
            } else {
                ValueOrder::Equal
            },
        ),
        (Value::Timestamp(x), Value::Timestamp(y)) => Ok(ts_compare(x, y)),
        (Value::Bytes(x), Value::Bytes(y)) => Ok(bytes_compare(x, y)),
        _ => Err(EngineError::TypeMismatch),
    }
}


/// The numeric value of a decimal digit character, and -1 otherwise.
pub open spec fn digit_val(c: char) -> int {
    if 48 <= c as int <= 57 {
        c as int - 48
    } else {
        -1
    }
}

/// The numeric value of a hexadecimal digit character, and -1 otherwise.
pub open spec fn hex_val(c: char) -> int {
    if 48 <= c as int <= 57 {
        c as int - 48
    } else if 97 <= c as int <= 102 {
        c as int - 87
    } else if 65 <= c as int <= 70 {
        c as int - 55
    } else {
        -1
    }
}

/// Whether a timestamp's fields are in range: month 1..=12, day 1..=31,
/// hour below 24, minute and second below 60.
pub open spec fn ts_wf(t: Timestamp) -> bool {
    &&& 1 <= t.month <= 12
    &&& 1 <= t.day <= 31
    &&& t.hour <= 23
    &&& t.minute <= 59
    &&& t.second <= 59
}

/// What parsing a `YYYY-MM-DD HH:MM:SS` literal yields: the six fields read
/// from their fixed positions, or nothing when the shape or a range is wrong.
pub open spec fn ts_parse_s(s: Seq<char>) -> Option<Timestamp> {
    if s.len() == 19 && s[4] == '-' && s[7] == '-' && s[10] == ' ' && s[13] == ':' && s[16] == ':'
        && digit_val(s[0]) >= 0 && digit_val(s[1]) >= 0 && digit_val(s[2]) >= 0 && digit_val(s[3])
        >= 0 && digit_val(s[5]) >= 0 && digit_val(s[6]) >= 0 && digit_val(s[8]) >= 0 && digit_val(
        s[9],
    ) >= 0 && digit_val(s[11]) >= 0 && digit_val(s[12]) >= 0 && digit_val(s[14]) >= 0 && digit_val(
        s[15],
    ) >= 0 && digit_val(s[17]) >= 0 && digit_val(s[18]) >= 0 {
        let t = Timestamp {
            year: (digit_val(s[0]) * 1000 + digit_val(s[1]) * 100 + digit_val(s[2]) * 10
                + digit_val(s[3])) as u16,
            month: (digit_val(s[5]) * 10 + digit_val(s[6])) as u8,
            day: (digit_val(s[8]) * 10 + digit_val(s[9])) as u8,
            hour: (digit_val(s[11]) * 10 + digit_val(s[12])) as u8,
            minute: (digit_val(s[14]) * 10 + digit_val(s[15])) as u8,
            second: (digit_val(s[17]) * 10 + digit_val(s[18])) as u8,
        };
        if ts_wf(t) {
            Some(t)
        } else {
            None
        }
    } else {
        None
    }
}

/// The hexadecimal digits of a canonical UUID literal, the four dashes
/// dropped.
pub open spec fn uuid_digits(s: Seq<char>) -> Seq<char> {
    s.subrange(0, 8) + s.subrange(9, 13) + s.subrange(14, 18) + s.subrange(19, 23) + s.subrange(
        24,
        36,
    )
}

/// The 128-bit value whose hexadecimal digits these characters are, most
/// significant first.
pub open spec fn hex_fold(ds: Seq<char>) -> u128
    decreases ds.len(),
{
    if ds.len() == 0 {
        0
    } else {
        (hex_fold(ds.drop_last()) << 4) | (hex_val(ds.last()) as u128)
    }
}

/// What parsing a canonical `8-4-4-4-12` UUID literal yields: the 128-bit
/// value of its 32 hexadecimal digits, or nothing when the shape is wrong.
pub open spec fn uuid_parse_s(s: Seq<char>) -> Option<u128> {
    if s.len() == 36 && s[8] == '-' && s[13] == '-' && s[18] == '-' && s[23] == '-' && (forall|
        i: int,
    |
        0 <= i < 32 ==> hex_val(#[trigger] uuid_digits(s)[i]) >= 0) {
        Some(hex_fold(uuid_digits(s)))
    } else {
        None
    }
}

/// Reads a decimal digit character.
fn digit_of(c: char) -> (r: Option<u8>)
    ensures
        match r {
            Some(d) => digit_val(c) == d as int,
            None => digit_val(c) == -1,
        },
{
    let u = c as u32;
    if 48 <= u && u <= 57 {
        Some((u - 48) as u8)
    } else {
        None
    }
}

/// Reads a hexadecimal digit character.
fn hex_of(c: char) -> (r: Option<u8>)
    ensures
        match r {
            Some(d) => hex_val(c) == d as int,
            None => hex_val(c) == -1,
        },
{
    let u = c as u32;
    if 48 <= u && u <= 57 {
        Some((u - 48) as u8)
    } else if 97 <= u && u <= 102 {
        Some((u - 87) as u8)
    } else if 65 <= u && u <= 70 {
        Some((u - 55) as u8)
    } else {
        None
    }
}

/// Parses a `YYYY-MM-DD HH:MM:SS` literal.
pub fn parse_timestamp(s: &str) -> (r: Option<Timestamp>)
    ensures
        r == ts_parse_s(s@),
{
    if s.unicode_len() != 19 {
        return None;
    }
    if s.get_char(4) as u32 != 45 || s.get_char(7) as u32 != 45 || s.get_char(10) as u32 != 32
        || s.get_char(13) as u32 != 58 || s.get_char(16) as u32 != 58 {
        proof {
            assert(('-') as int == 45 && (' ') as int == 32 && (':') as int == 58);
        }
        return None;
    }
    let d0 = digit_of(s.get_char(0));
    let d1 = digit_of(s.get_char(1));
    let d2 = digit_of(s.get_char(2));
    let d3 = digit_of(s.get_char(3));
    let d5 = digit_of(s.get_char(5));
    let d6 = digit_of(s.get_char(6));
    let d8 = digit_of(s.get_char(8));
    let d9 = digit_of(s.get_char(9));
    let d11 = digit_of(s.get_char(11));
    let d12 = digit_of(s.get_char(12));
    let d14 = digit_of(s.get_char(14));
    let d15 = digit_of(s.get_char(15));
    let d17 = digit_of(s.get_char(17));
    let d18 = digit_of(s.get_char(18));
    match (d0, d1, d2, d3, d5, d6, d8, d9, d11, d12, d14, d15, d17, d18) {
        (
            Some(a0),
            Some(a1),
            Some(a2),
            Some(a3),
            Some(b0),
            Some(b1),
            Some(c0),
            Some(c1),
            Some(e0),
            Some(e1),
            Some(f0),
            Some(f1),
            Some(g0),
            Some(g1),
        ) => {
            let t = Timestamp {
                year: a0 as u16 * 1000 + a1 as u16 * 100 + a2 as u16 * 10 + a3 as u16,
                month: b0 * 10 + b1,
                day: c0 * 10 + c1,
                hour: e0 * 10 + e1,
                minute: f0 * 10 + f1,
                second: g0 * 10 + g1,
            };
            if 1 <= t.month && t.month <= 12 && 1 <= t.day && t.day <= 31 && t.hour <= 23
                && t.minute <= 59 && t.second <= 59 {
                Some(t)
            } else {
                None
            }
        },
        _ => None,
    }
}

/// Parses a canonical `8-4-4-4-12` UUID literal.
pub fn parse_uuid(s: &str) -> (r: Option<u128>)
    ensures
        r == uuid_parse_s(s@),
{
    if s.unicode_len() != 36 {
        return None;
    }
    if s.get_char(8) as u32 != 45 || s.get_char(13) as u32 != 45 || s.get_char(18) as u32 != 45
        || s.get_char(23) as u32 != 45 {
        proof {
            assert(('-') as int == 45);
        }
        return None;
    }
    let mut digits: Vec<char> = Vec::new();
    let mut i: usize = 0;
    while i < 8
        invariant
            s@.len() == 36,
            i <= 8,
            digits@ =~= s@.subrange(0, i as int),
        decreases 8 - i,
    {
        digits.push(s.get_char(i));
        i += 1;
    }
    let mut i: usize = 9;
    while i < 13
        invariant
            s@.len() == 36,
            9 <= i <= 13,
            digits@ =~= s@.subrange(0, 8) + s@.subrange(9, i as int),
        decreases 13 - i,
    {
        digits.push(s.get_char(i));
        i += 1;
    }
    let mut i: usize = 14;
    while i < 18
        invariant
            s@.len() == 36,
            14 <= i <= 18,
            digits@ =~= s@.subrange(0, 8) + s@.subrange(9, 13) + s@.subrange(14, i as int),
        decreases 18 - i,
    {
        digits.push(s.get_char(i));
        i += 1;
    }
    let mut i: usize = 19;
    while i < 23
        invariant
            s@.len() == 36,
            19 <= i <= 23,
            digits@ =~= s@.subrange(0, 8) + s@.subrange(9, 13) + s@.subrange(14, 18) + s@.subrange(
                19,
                i as int,
            ),
        decreases 23 - i,
    {
        digits.push(s.get_char(i));
        i += 1;
    }
    let mut i: usize = 24;
    while i < 36
        invariant
            s@.len() == 36,
            24 <= i <= 36,
            digits@ =~= s@.subrange(0, 8) + s@.subrange(9, 13) + s@.subrange(14, 18) + s@.subrange(
                19,
                23,
            ) + s@.subrange(24, i as int),
        decreases 36 - i,
    {
        digits.push(s.get_char(i));
        i += 1;
    }
    proof {
        assert(digits@ =~= uuid_digits(s@));
    }
    let mut acc: u128 = 0;
    let mut k: usize = 0;
    while k < 32
        invariant
            digits@.len() == 32,
            digits@ == uuid_digits(s@),
            k <= 32,
            forall|j: int| 0 <= j < k ==> hex_val(digits@[j]) >= 0,
            acc == hex_fold(digits@.take(k as int)),
        decreases 32 - k,
    {
        match hex_of(digits[k]) {
            Some(d) => {
                proof {
                    assert(digits@.take(k + 1).drop_last() =~= digits@.take(k as int));
                    assert(digits@.take(k + 1).last() == digits@[k as int]);
                }
                acc = (acc << 4u32) | (d as u128);
            },
            None => {
                return None;
            },
        }
        k += 1;
    }
    proof {
        assert(digits@.take(32) =~= digits@);
    }
    Some(acc)
}

/// What coercing a value to a declared type yields: a null stays a null, a
/// value of the matching variant stays itself, a string coerces to a
/// timestamp or a UUID by parsing its literal form (a malformed literal is a
/// parse error), and anything else is a type mismatch.
pub open spec fn coerce_s(v: ValueV, t: DataType) -> Result<ValueV, EngineError> {
    match v {
        ValueV::Null => Ok(ValueV::Null),
        ValueV::Bool(_) => if t == DataType::Bool {
            Ok(v)
        } else {
            Err(EngineError::TypeMismatch)
        },
        ValueV::I64(_) => if t == DataType::Int {
            Ok(v)
        } else {
            Err(EngineError::TypeMismatch)
        },
        ValueV::Str(s) => if t == DataType::Text {
            Ok(v)
        } else if t == DataType::Timestamp {
            match ts_parse_s(s) {
                Some(ts) => Ok(ValueV::Timestamp(ts)),
                None => Err(EngineError::ParseError),
            }
        } else if t == DataType::Uuid {
            match uuid_parse_s(s) {
                Some(u) => Ok(ValueV::Uuid(u)),
                None => Err(EngineError::ParseError),
            }
        } else {
            Err(EngineError::TypeMismatch)
        },
        ValueV::Uuid(_) => if t == DataType::Uuid {
            Ok(v)
        } else {
            Err(EngineError::TypeMismatch)
        },
        ValueV::Timestamp(_) => if t == DataType::Timestamp {
            Ok(v)
        } else {
            Err(EngineError::TypeMismatch)
        },
        ValueV::Bytes(_) => if t == DataType::Bytea {
            Ok(v)
        } else {
            Err(EngineError::TypeMismatch)
        },
    }
}

/// The model of a fallible value computation.
pub open spec fn res_v(r: Result<Value, EngineError>) -> Result<ValueV, EngineError> {
    match r {
        Ok(v) => Ok(v@),
        Err(e) => Err(e),
    }
}

/// Coerces a value to a declared column type.
pub fn coerce(v: &Value, t: DataType) -> (r: Result<Value, EngineError>)
    ensures
        res_v(r) == coerce_s(v@, t),
{
    match v {
        Value::Null => Ok(Value::Null),
        Value::Bool(b) => if t == DataType::Bool {
            Ok(Value::Bool(*b))
        } else {
            Err(EngineError::TypeMismatch)
        },
        Value::I64(n) => if t == DataType::Int {
            Ok(Value::I64(*n))
        } else {
            Err(EngineError::TypeMismatch)
        },
        Value::Str(s) => if t == DataType::Text {
            Ok(Value::Str(s.clone()))
        } else if t == DataType::Timestamp {
            match parse_timestamp(s.as_str()) {
                Some(ts) => Ok(Value::Timestamp(ts)),
                None => Err(EngineError::ParseError),
            }
        } else if t == DataType::Uuid {
            match parse_uuid(s.as_str()) {
                Some(u) => Ok(Value::Uuid(u)),
                None => Err(EngineError::ParseError),
            }
        } else {
            Err(EngineError::TypeMismatch)
        },
        Value::Uuid(u) => if t == DataType::Uuid {
            Ok(Value::Uuid(*u))
        } else {
            Err(EngineError::TypeMismatch)
        },
        Value::Timestamp(ts) => if t == DataType::Timestamp {
            Ok(Value::Timestamp(*ts))
        } else {
            Err(EngineError::TypeMismatch)
        },
        Value::Bytes(b) => if t == DataType::Bytea {
            Ok(Value::Bytes(clone_bytes(b)))
        } else {
            Err(EngineError::TypeMismatch)
        },
    }
}

} // verus!
