use vstd::prelude::*;
use vstd::string::StrSliceExecFns;

verus! {

/// One value of a key-value text tree: a string leaf or a nested
/// object of key/values pairs in document order.  A key may map to
/// several values.
pub enum KvValue {
    Str(String),
    Obj(Vec<(String, Vec<KvValue>)>),
}

impl KvValue {
    /// The object's pairs, or `None` for a string leaf.
    pub fn get_obj(&self) -> (r: Option<&Vec<(String, Vec<KvValue>)>>)
        ensures
            self is Obj <==> r is Some,
            self is Obj ==> *r->0 == self->Obj_0,
    {
        match self {
            KvValue::Obj(entries) => Some(entries),
            KvValue::Str(_) => None,
        }
    }

    /// The string leaf, or `None` for an object.
    pub fn get_str(&self) -> (r: Option<&String>)
        ensures
            self is Str <==> r is Some,
            self is Str ==> *r->0 == self->Str_0,
    {
        match self {
            KvValue::Str(s) => Some(s),
            KvValue::Obj(_) => None,
        }
    }
}

/// The values of the first pair with the given key, or `None`.
pub open spec fn spec_obj_get(entries: Seq<(String, Vec<KvValue>)>, key: Seq<char>) -> Option<
    Vec<KvValue>,
>
    decreases entries.len(),
{
    if entries.len() == 0 {
        Option::None
    } else if entries[0].0@ == key {
        Option::Some(entries[0].1)
    } else {
        spec_obj_get(entries.drop_first(), key)
    }
}

/// Looks up the first pair with the given key.
pub fn obj_get<'a>(entries: &'a Vec<(String, Vec<KvValue>)>, key: &str) -> (r: Option<
    &'a Vec<KvValue>,
>)
    ensures
        match r {
            Option::Some(v) => spec_obj_get(entries@, key@) == Option::Some(*v),
            Option::None => spec_obj_get(entries@, key@) is None,
        },
{
    let n = entries.len();
    let key_string = String::from_str(key);
    proof {
        assert(entries@.skip(0) =~= entries@);
    }
    let mut i: usize = 0;
    while i < n
        invariant
            n == entries@.len(),
            0 <= i <= n,
            key_string@ == key@,
            spec_obj_get(entries@, key@) == spec_obj_get(entries@.skip(i as int), key@),
        decreases n - i,
    {
        proof {
            assert(entries@.skip(i as int).drop_first() =~= entries@.skip(i as int + 1));
            assert(entries@.skip(i as int)[0] == entries@[i as int]);
        }
        if entries[i].0 == key_string {
            return Some(&entries[i].1);
        }
        i = i + 1;
    }
    proof {
        assert(entries@.skip(n as int) =~= Seq::<(String, Vec<KvValue>)>::empty());
    }
    None
}

/// Whether a character is a decimal digit.
pub open spec fn is_digit(c: char) -> bool {
    48 <= c as int && c as int <= 57
}

/// Every character is a decimal digit.
pub open spec fn all_digits(s: Seq<char>) -> bool {
    forall|i: int| 0 <= i < s.len() ==> is_digit(#[trigger] s[i])
}

/// The number a digit string denotes.
pub open spec fn digits_val(s: Seq<char>) -> int
    decreases s.len(),
{
    if s.len() == 0 {
        0
    } else {
        digits_val(s.drop_last()) * 10 + (s.last() as int - 48)
    }
}

/// The digits of a number: everything after an optional leading plus
/// sign.
pub open spec fn number_digits(s: Seq<char>) -> Seq<char> {
    if s.len() > 0 && s[0] == '+' {
        s.skip(1)
    } else {
        s
    }
}

/// What parsing a decimal number yields: an optional plus sign, then
/// one or more digits, denoting a value that fits.
pub open spec fn parsed_u64(s: Seq<char>) -> Option<u64> {
    let d = number_digits(s);
    if d.len() > 0 && all_digits(d) && digits_val(d) <= u64::MAX {
        Option::Some(digits_val(d) as u64)
    } else {
        Option::None
    }
}

proof fn lemma_digits_val_nonneg(s: Seq<char>)
    requires
        all_digits(s),
    ensures
        digits_val(s) >= 0,
    decreases s.len(),
{
    if s.len() > 0 {
        assert(all_digits(s.drop_last())) by {
            assert(forall|i: int| 0 <= i < s.len() - 1 ==> s.drop_last()[i] == s[i]);
        }
        lemma_digits_val_nonneg(s.drop_last());
    }
}

proof fn lemma_digits_val_take_step(s: Seq<char>, i: int)
    requires
        0 <= i < s.len(),
    ensures
        digits_val(s.take(i + 1)) == digits_val(s.take(i)) * 10 + (s[i] as int - 48),
{
    assert(s.take(i + 1).drop_last() =~= s.take(i));
    assert(s.take(i + 1).last() == s[i]);
}

proof fn lemma_digits_val_grows(s: Seq<char>, i: int)
    requires
        all_digits(s),
        0 <= i <= s.len(),
    ensures
        digits_val(s) >= digits_val(s.take(i)),
    decreases s.len() - i,
{
    if i < s.len() {
        lemma_digits_val_take_step(s, i);
        lemma_digits_val_nonneg(s.take(i));
        assert(all_digits(s.take(i))) by {
            assert(forall|j: int| 0 <= j < i ==> s.take(i)[j] == s[j]);
        }
        lemma_digits_val_grows(s, i + 1);
        assert(s.take(s.len() as int) =~= s);
    } else {
        assert(s.take(i) =~= s);
    }
}

/// Parses a decimal number: an optional leading plus sign, then one or
/// more digits; `None` on anything else or on overflow.
pub fn parse_u64(s: &str) -> (r: Option<u64>)
    ensures
        r == parsed_u64(s@),
{
    let len = s.unicode_len();
    let start: usize = if len > 0 && s.get_char(0) == '+' {
        1
    } else {
        0
    };
    let ghost d = number_digits(s@);
    proof {
        assert(d =~= s@.skip(start as int));
    }
    if len == start {
        return None;
    }
    let mut acc: u64 = 0;
    let mut i: usize = start;
    while i < len
        invariant
            len == s@.len(),
            start <= i <= len,
            d == number_digits(s@),
            d == s@.skip(start as int),
            d.len() == len - start,
            all_digits(d.take(i - start)),
            acc == digits_val(d.take(i - start)),
        decreases len - i,
    {
        let c = s.get_char(i);
        let cv = c as u32;
        proof {
            assert(d[i - start] == s@[i as int]);
        }
        if !(48 <= cv && cv <= 57) {
            proof {
                assert(!is_digit(s@[i as int]));
                assert(!all_digits(d));
            }
            return None;
        }
        let digit = (cv - 48) as u64;
        proof {
            assert(is_digit(d[i - start]));
            assert(all_digits(d.take(i - start + 1))) by {
                assert(forall|j: int|
                    0 <= j < i - start ==> #[trigger] d.take(i - start + 1)[j] == d.take(
                        i - start,
                    )[j]);
                assert(d.take(i - start + 1)[i - start] == d[i - start]);
            }
            lemma_digits_val_take_step(d, i - start);
        }
        if acc > (u64::MAX - digit) / 10 {
            proof {
                assert(acc * 10 + digit > u64::MAX) by (nonlinear_arith)
                    requires
                        acc > (u64::MAX - digit) / 10,
                        digit <= 9,
                ;
                if all_digits(d) {
                    lemma_digits_val_grows(d, i - start + 1);
                }
            }
            return None;
        }
        acc = acc * 10 + digit;
        i = i + 1;
    }
    proof {
        assert(d.take(len - start) =~= d);
    }
    Some(acc)
}

} // verus!
