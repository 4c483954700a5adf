use vstd::prelude::*;

verus! {

// A plain-value model of the JSON scalars that backend rows carry. Row data
// arrives as key/value pairs; the extraction logic only ever reads scalar
// values, so arrays and objects are kept as an opaque `Composite` marker.

/// A JSON number as the wire carried it. Integral values keep their exact
/// magnitude. A non-integral number is kept by its truncated integer value
/// (saturating, as a `float as i64` cast yields) together with its IEEE-754
/// bit pattern, so consumers outside this crate can recover the full value.
#[derive(Debug, Clone, Copy, PartialEq, Eq, Structural)]
pub enum JsonNum {
    UInt(u64),
    Neg(i64),
    Float { trunc: i64, bits: u64 },
}

/// A JSON value inside a row's data map.
#[derive(Debug, Clone, PartialEq)]
pub enum JsonVal {
    Null,
    Bool(bool),
    Num(JsonNum),
    Str(String),
    Composite,
}

/// First value bound to `key`, if any.
pub open spec fn spec_lookup(data: Seq<(String, JsonVal)>, key: Seq<char>) -> Option<JsonVal>
    decreases data.len(),
{
    if data.len() == 0 {
        None
    } else if data[0].0@ == key {
        Some(data[0].1)
    } else {
        spec_lookup(data.skip(1), key)
    }
}

/// The string bound to `key`, or the empty string when the key is absent or
/// its value is not a string.
pub open spec fn json_str_of(data: Seq<(String, JsonVal)>, key: Seq<char>) -> Seq<char> {
    match spec_lookup(data, key) {
        Some(JsonVal::Str(s)) => s@,
        _ => Seq::<char>::empty(),
    }
}

/// The number a value carries, or zero when it is not numeric.
pub open spec fn num_or_zero(v: JsonVal) -> JsonNum {
    match v {
        JsonVal::Num(n) => n,
        _ => JsonNum::UInt(0),
    }
}

proof fn lemma_lookup_extend(data: Seq<(String, JsonVal)>, key: Seq<char>, i: int)
    requires
        0 <= i <= data.len(),
        forall|t: int| 0 <= t < i ==> (#[trigger] data[t]).0@ != key,
    ensures
        spec_lookup(data, key) == spec_lookup(data.skip(i), key),
    decreases i,
{
    if i > 0 {
        lemma_lookup_extend(data, key, i - 1);
        assert(data.skip(i - 1).skip(1) =~= data.skip(i));
        assert(data.skip(i - 1)[0] == data[i - 1]);
        assert(data.skip(i - 1)[0].0@ != key);
        assert(spec_lookup(data.skip(i - 1), key) == spec_lookup(data.skip(i - 1).skip(1), key));
    } else {
        assert(data.skip(0) =~= data);
    }
}

/// Look up the first value bound to `key`.
#[verifier::loop_isolation(false)]
pub fn lookup<'a>(data: &'a Vec<(String, JsonVal)>, key: &str) -> (r: Option<&'a JsonVal>)
    ensures
        match r {
            Some(v) => spec_lookup(data@, key@) == Some(*v),
            None => spec_lookup(data@, key@) is None,
        },
{
    let n = data.len();
    let mut i: usize = 0;
    while i < n
        invariant
            i <= n == data@.len(),
            forall|t: int| 0 <= t < i ==> (#[trigger] data@[t]).0@ != key@,
        decreases n - i,
    {
        if crate::text::str_eq(data[i].0.as_str(), key) {
            proof {
                lemma_lookup_extend(data@, key@, i as int);
                assert(data@.skip(i as int)[0] == data@[i as int]);
            }
            return Some(&data[i].1);
        }
        i += 1;
    }
    proof {
        lemma_lookup_extend(data@, key@, n as int);
        assert(data@.skip(n as int) =~= Seq::<(String, JsonVal)>::empty());
    }
    None
}

/// The string bound to `key`, or the empty string (missing and wrong-typed
/// fields default, they are not errors).
pub fn json_str(data: &Vec<(String, JsonVal)>, key: &str) -> (r: String)
    ensures
        r@ == json_str_of(data@, key@),
{
    match lookup(data, key) {
        Some(JsonVal::Str(s)) => s.clone(),
        _ => String::new(),
    }
}

} // verus!
