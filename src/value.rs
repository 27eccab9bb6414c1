use vstd::prelude::*;
use vstd::string::StringExecFns;
use crate::issue::{decimal, decimal_of};

verus! {

broadcast use vstd::std_specs::vec::group_vec_axioms;

/// A decimal number `mantissa / 10^scale`; well formed when `scale <= 18`.
#[derive(Debug, Clone, Copy)]
pub struct Number {
    pub mantissa: i64,
    pub scale: u32,
}

/// A JSON-like value. Object members keep their order; lookups take the first
/// member with the key.
#[derive(Debug)]
pub enum JsonValue {
    Null,
    Bool(bool),
    Number(Number),
    Str(String),
    Array(Vec<JsonValue>),
    Object(Vec<(String, JsonValue)>),
}

pub open spec fn abs(x: int) -> int {
    if x < 0 { -x } else { x }
}

pub open spec fn pow10(n: nat) -> nat
    decreases n,
{
    if n == 0 {
        1
    } else {
        10 * pow10((n - 1) as nat)
    }
}

impl Number {
    pub open spec fn wf(self) -> bool {
        self.scale <= 18
    }

    /// `self < other` as rationals.
    pub open spec fn lt(self, other: Number) -> bool {
        self.mantissa * pow10(other.scale as nat) < other.mantissa * pow10(self.scale as nat)
    }

    /// The number has no fractional part.
    pub open spec fn is_whole(self) -> bool {
        abs(self.mantissa as int) % (pow10(self.scale as nat) as int) == 0
    }

    /// A whole number written with scale zero.
    pub fn from_i64(n: i64) -> (r: Number)
        ensures
            r.wf(),
            r.mantissa == n,
            r.scale == 0,
    {
        Number { mantissa: n, scale: 0 }
    }

    /// Compares two numbers by value.
    pub fn less_than(&self, other: &Number) -> (r: bool)
        requires
            self.wf(),
            other.wf(),
        ensures
            r == self.lt(*other),
    {
        let pa = pow10_exec(self.scale);
        let pb = pow10_exec(other.scale);
        let ma = self.mantissa as i128;
        let mb = other.mantissa as i128;
        proof {
            lemma_product_bound(ma as int, pb as int);
            lemma_product_bound(mb as int, pa as int);
        }
        ma * pb < mb * pa
    }

    /// Whether the number has no fractional part.
    pub fn whole(&self) -> (r: bool)
        requires
            self.wf(),
        ensures
            r == self.is_whole(),
    {
        let p = pow10_exec(self.scale);
        let m = self.mantissa as i128;
        let a: i128 = if m < 0 { -m } else { m };
        a % p == 0
    }
}

proof fn lemma_pow10_bound(n: nat)
    requires
        n <= 18,
    ensures
        1 <= pow10(n) <= 1_000_000_000_000_000_000,
    decreases 18 - n,
{
    reveal_with_fuel(pow10, 19);
    if n < 18 {
        lemma_pow10_bound(n + 1);
        assert(pow10(n + 1) == 10 * pow10(n));
    } else {
        assert(pow10(18) == 1_000_000_000_000_000_000);
    }
}

proof fn lemma_product_bound(m: int, p: int)
    requires
        -0x8000_0000_0000_0000 <= m <= 0x7fff_ffff_ffff_ffff,
        1 <= p <= 1_000_000_000_000_000_000,
    ensures
        -0x7fff_ffff_ffff_ffff_ffff_ffff_ffff_ffff <= m * p <= 0x7fff_ffff_ffff_ffff_ffff_ffff_ffff_ffff,
{
    assert(-0x8000_0000_0000_0000 * 1_000_000_000_000_000_000 <= m * p <= 0x7fff_ffff_ffff_ffff
        * 1_000_000_000_000_000_000) by (nonlinear_arith)
        requires
            -0x8000_0000_0000_0000 <= m <= 0x7fff_ffff_ffff_ffff,
            1 <= p <= 1_000_000_000_000_000_000,
    ;
}

fn pow10_exec(n: u32) -> (r: i128)
    requires
        n <= 18,
    ensures
        r == pow10(n as nat),
        1 <= r <= 1_000_000_000_000_000_000,
{
    proof {
        reveal_with_fuel(pow10, 19);
    }
    let mut r: i128 = 1;
    let mut i: u32 = 0;
    while i < n
        invariant
            i <= n <= 18,
            r == pow10(i as nat),
        decreases n - i,
    {
        proof {
            lemma_pow10_bound(i as nat + 1);
            assert(pow10(i as nat + 1) == 10 * pow10(i as nat));
        }
        r = r * 10;
        i = i + 1;
    }
    proof {
        lemma_pow10_bound(n as nat);
    }
    r
}

/// `k` zeros.
pub open spec fn zeros(k: nat) -> Seq<char>
    decreases k,
{
    if k == 0 {
        Seq::empty()
    } else {
        zeros((k - 1) as nat).push('0')
    }
}

/// `d` with zeros in front up to `width` characters.
pub open spec fn padded(d: Seq<char>, width: nat) -> Seq<char> {
    if d.len() >= width {
        d
    } else {
        zeros((width - d.len()) as nat) + d
    }
}

/// How a number is written: sign, whole part, and `scale` fractional digits.
pub open spec fn number_text(n: Number) -> Seq<char> {
    let a = abs(n.mantissa as int);
    let p = pow10(n.scale as nat) as int;
    (if n.mantissa < 0 {
        "-"@
    } else {
        Seq::empty()
    }) + decimal_of((a / p) as nat) + (if n.scale == 0 {
        Seq::empty()
    } else {
        "."@ + padded(decimal_of((a % p) as nat), n.scale as nat)
    })
}

impl Number {
    /// Writes the number as [`number_text`] says.
    pub fn text(&self) -> (r: String)
        requires
            self.wf(),
        ensures
            r@ == number_text(*self),
    {
        let p = pow10_exec(self.scale);
        let m = self.mantissa as i128;
        let a: i128 = if m < 0 { -m } else { m };
        let whole = a / p;
        let frac = a % p;
        proof {
            assert(0 <= whole <= a) by (nonlinear_arith)
                requires whole == a / p, a >= 0, p >= 1;
            assert(0 <= frac < p);
        }
        let mut out = if m < 0 { String::from_str("-") } else { String::new() };
        let w = decimal(whole as u64);
        out.append(w.as_str());
        if self.scale > 0 {
            let f = decimal(frac as u64);
            let width = self.scale as usize;
            let flen = f.as_str().unicode_len();
            let mut pad = String::new();
            let mut k: usize = flen;
            proof {
                reveal_strlit("0");
            }
            while k < width
                invariant
                    flen <= k <= width || (flen > width && k == flen),
                    flen == f@.len(),
                    pad@ == zeros((k - flen) as nat),
                decreases width - k,
            {
                pad.append("0");
                k = k + 1;
                proof {
                    reveal_strlit("0");
                    assert(zeros((k - flen) as nat) == zeros((k - 1 - flen) as nat).push('0'));
                    assert(pad@ =~= zeros((k - flen) as nat));
                }
            }
            let mut tail = String::from_str(".");
            tail.append(pad.as_str());
            tail.append(f.as_str());
            proof {
                if flen >= width {
                    assert(pad@ =~= Seq::<char>::empty());
                }
                assert(tail@ =~= "."@ + padded(f@, self.scale as nat));
            }
            out.append(tail.as_str());
        }
        out
    }
}

/// Every number in `v` is well formed.
pub open spec fn value_wf(v: JsonValue) -> bool
    decreases v,
{
    match v {
        JsonValue::Number(n) => n.wf(),
        JsonValue::Array(xs) => forall|i: int| 0 <= i < xs@.len() ==> value_wf(#[trigger] xs@[i]),
        JsonValue::Object(ms) => forall|i: int| 0 <= i < ms@.len() ==> value_wf((#[trigger] ms@[i]).1),
        _ => true,
    }
}

/// Decides [`value_wf`].
pub fn value_ok(v: &JsonValue) -> (r: bool)
    ensures
        r == value_wf(*v),
    decreases *v,
{
    match v {
        JsonValue::Number(n) => n.scale <= 18,
        JsonValue::Array(xs) => {
            let mut i: usize = 0;
            while i < xs.len()
                invariant
                    *v == JsonValue::Array(*xs),
                    i <= xs@.len(),
                    forall|k: int| 0 <= k < i ==> value_wf(#[trigger] xs@[k]),
                decreases xs@.len() - i,
            {
                proof {
                    assert(decreases_to!(*v => (*v)->Array_0));
                    assert(decreases_to!(*xs => xs[i as int]));
                }
                if !value_ok(&xs[i]) {
                    return false;
                }
                i = i + 1;
            }
            true
        },
        JsonValue::Object(ms) => {
            let mut i: usize = 0;
            while i < ms.len()
                invariant
                    *v == JsonValue::Object(*ms),
                    i <= ms@.len(),
                    forall|k: int| 0 <= k < i ==> value_wf((#[trigger] ms@[k]).1),
                decreases ms@.len() - i,
            {
                proof {
                    assert(decreases_to!(*v => (*v)->Object_0));
                    assert(decreases_to!(*ms => ms[i as int]));
                    assert(decreases_to!(ms[i as int] => ms[i as int].1));
                }
                if !value_ok(&ms[i].1) {
                    return false;
                }
                i = i + 1;
            }
            true
        },
        _ => true,
    }
}

/// `i` is the first member named `key`.
pub open spec fn first_with_key(ms: Seq<(String, JsonValue)>, key: Seq<char>, i: int) -> bool {
    &&& 0 <= i < ms.len()
    &&& ms[i].0@ == key
    &&& forall|k: int| 0 <= k < i ==> (#[trigger] ms[k]).0@ != key
}

/// Index of the first member named `key`.
pub open spec fn find_key(ms: Seq<(String, JsonValue)>, key: Seq<char>) -> Option<int> {
    if exists|i: int| first_with_key(ms, key, i) {
        Some(choose|i: int| first_with_key(ms, key, i))
    } else {
        None
    }
}

/// The first member named `key`.
pub fn find_member<'a>(members: &'a Vec<(String, JsonValue)>, key: &str) -> (r: Option<&'a JsonValue>)
    ensures
        find_key(members@, key@) is None ==> r is None,
        find_key(members@, key@) matches Some(i) ==> 0 <= i < members@.len() && r == Some(
            &members@[i].1,
        ),
{
    let mut i: usize = 0;
    while i < members.len()
        invariant
            i <= members@.len(),
            forall|k: int| 0 <= k < i ==> (#[trigger] members@[k]).0@ != key@,
        decreases members@.len() - i,
    {
        if str_eq(members[i].0.as_str(), key) {
            proof {
                assert(first_with_key(members@, key@, i as int));
                let j = choose|j: int| first_with_key(members@, key@, j);
                assert(j == i as int) by {
                    if j < i { } else if j > i { assert(members@[i as int].0@ != key@); }
                }
            }
            return Some(&members[i].1);
        }
        i = i + 1;
    }
    proof {
        assert(!exists|j: int| first_with_key(members@, key@, j)) by {
            if exists|j: int| first_with_key(members@, key@, j) {
                let j = choose|j: int| first_with_key(members@, key@, j);
                assert(members@[j].0@ != key@);
            }
        }
    }
    None
}

/// Equality of two texts.
pub fn str_eq(a: &str, b: &str) -> (r: bool)
    ensures
        r == (a@ == b@),
{
    String::from_str(a) == String::from_str(b)
}

/// Equality of values. Two numbers are equal when both are written as
/// integers (scale zero) or both are not, and their values agree. Arrays agree
/// item for item; objects hold the same keys, each with an equal value,
/// whatever the order.
pub open spec fn same_value(a: JsonValue, b: JsonValue) -> bool
    decreases a,
{
    match (a, b) {
        (JsonValue::Null, JsonValue::Null) => true,
        (JsonValue::Bool(x), JsonValue::Bool(y)) => x == y,
        (JsonValue::Number(x), JsonValue::Number(y)) => (x.scale == 0) == (y.scale == 0) && !x.lt(y)
            && !y.lt(x),
        (JsonValue::Str(x), JsonValue::Str(y)) => x@ == y@,
        (JsonValue::Array(xs), JsonValue::Array(ys)) => xs@.len() == ys@.len() && forall|i: int|
            0 <= i < xs@.len() ==> same_value(#[trigger] xs@[i], ys@[i]),
        (JsonValue::Object(xs), JsonValue::Object(ys)) => (forall|i: int|
            0 <= i < xs@.len() ==> match find_key(ys@, (#[trigger] xs@[i]).0@) {
                Some(j) => 0 <= j < ys@.len() && same_value(xs@[i].1, ys@[j].1),
                None => false,
            }) && (forall|j: int| 0 <= j < ys@.len() ==> find_key(xs@, (#[trigger] ys@[j]).0@) is Some),
        _ => false,
    }
}

/// Decides [`same_value`].
pub fn values_equal(a: &JsonValue, b: &JsonValue) -> (r: bool)
    requires
        value_wf(*a),
        value_wf(*b),
    ensures
        r == same_value(*a, *b),
    decreases *a,
{
    match a {
        JsonValue::Null => matches!(b, JsonValue::Null),
        JsonValue::Bool(x) => match b {
            JsonValue::Bool(y) => *x == *y,
            _ => false,
        },
        JsonValue::Number(x) => match b {
            JsonValue::Number(y) => (x.scale == 0) == (y.scale == 0) && !x.less_than(y)
                && !y.less_than(x),
            _ => false,
        },
        JsonValue::Str(x) => match b {
            JsonValue::Str(y) => *x == *y,
            _ => false,
        },
        JsonValue::Array(xs) => match b {
            JsonValue::Array(ys) => {
                if xs.len() != ys.len() {
                    return false;
                }
                let mut i: usize = 0;
                while i < xs.len()
                    invariant
                        *a == JsonValue::Array(*xs),
                        *b == JsonValue::Array(*ys),
                        forall|k: int| 0 <= k < xs@.len() ==> value_wf(#[trigger] xs@[k]),
                        forall|k: int| 0 <= k < ys@.len() ==> value_wf(#[trigger] ys@[k]),
                        xs@.len() == ys@.len(),
                        i <= xs@.len(),
                        forall|k: int| 0 <= k < i ==> same_value(#[trigger] xs@[k], ys@[k]),
                    decreases xs@.len() - i,
                {
                    proof {
                        assert(decreases_to!(*a => (*a)->Array_0));
                        assert(decreases_to!(*xs => xs[i as int]));
                    }
                    if !values_equal(&xs[i], &ys[i]) {
                        return false;
                    }
                    i = i + 1;
                }
                true
            },
            _ => false,
        },
        JsonValue::Object(xs) => match b {
            JsonValue::Object(ys) => {
                let mut i: usize = 0;
                while i < xs.len()
                    invariant
                        *a == JsonValue::Object(*xs),
                        *b == JsonValue::Object(*ys),
                        forall|k: int| 0 <= k < xs@.len() ==> value_wf((#[trigger] xs@[k]).1),
                        forall|k: int| 0 <= k < ys@.len() ==> value_wf((#[trigger] ys@[k]).1),
                        i <= xs@.len(),
                        forall|k: int|
                            0 <= k < i ==> match find_key(ys@, (#[trigger] xs@[k]).0@) {
                                Some(j) => 0 <= j < ys@.len() && same_value(xs@[k].1, ys@[j].1),
                                None => false,
                            },
                    decreases xs@.len() - i,
                {
                    proof {
                        assert(decreases_to!(*a => (*a)->Object_0));
                        assert(decreases_to!(*xs => xs[i as int]));
                        assert(decreases_to!(xs[i as int] => xs[i as int].1));
                    }
                    match find_member(ys, xs[i].0.as_str()) {
                        Some(v) => {
                            proof {
                                let j = find_key(ys@, xs@[i as int].0@)->Some_0;
                                assert(value_wf(ys@[j].1));
                            }
                            if !values_equal(&xs[i].1, v) {
                                return false;
                            }
                        },
                        None => {
                            return false;
                        },
                    }
                    i = i + 1;
                }
                let mut j: usize = 0;
                while j < ys.len()
                    invariant
                        *a == JsonValue::Object(*xs),
                        *b == JsonValue::Object(*ys),
                        j <= ys@.len(),
                        forall|k: int|
                            0 <= k < xs@.len() ==> match find_key(ys@, (#[trigger] xs@[k]).0@) {
                                Some(m) => 0 <= m < ys@.len() && same_value(xs@[k].1, ys@[m].1),
                                None => false,
                            },
                        forall|k: int| 0 <= k < j ==> find_key(xs@, (#[trigger] ys@[k]).0@) is Some,
                    decreases ys@.len() - j,
                {
                    if find_member(xs, ys[j].0.as_str()).is_none() {
                        return false;
                    }
                    j = j + 1;
                }
                true
            },
            _ => false,
        },
    }
}

} // verus!
