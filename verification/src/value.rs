//! Dynamically typed values.

use vstd::prelude::*;

verus! {

/// A value of any of the script's types.
#[derive(Debug, PartialEq, Eq)]
pub enum Dynamic {
    Unit,
    Bool(bool),
    Int(i64),
    Str(String),
    /// A list of values.
    Array(Vec<Dynamic>),
}

/// The mathematical model of a [`Dynamic`].
pub ghost enum Value {
    Unit,
    Bool(bool),
    Int(i64),
    Str(Seq<char>),
    Array(Seq<Value>),
}

/// The model of a value: an array's is the models of its elements.
pub open spec fn value_of_dynamic(d: Dynamic) -> Value
    decreases d,
{
    match d {
        Dynamic::Unit => Value::Unit,
        Dynamic::Bool(b) => Value::Bool(b),
        Dynamic::Int(n) => Value::Int(n),
        Dynamic::Str(s) => Value::Str(s@),
        Dynamic::Array(v) => Value::Array(
            Seq::new(v@.len(), |i: int| if 0 <= i < v@.len() { value_of_dynamic(v@[i]) } else { Value::Unit }),
        ),
    }
}

impl View for Dynamic {
    type V = Value;

    open spec fn view(&self) -> Value {
        value_of_dynamic(*self)
    }
}

/// The name under which a value's type is reported.
pub open spec fn type_name_of(v: Value) -> Seq<char> {
    match v {
        Value::Unit => "()"@,
        Value::Bool(_) => "bool"@,
        Value::Int(_) => "i64"@,
        Value::Str(_) => "string"@,
        Value::Array(_) => "array"@,
    }
}

impl Dynamic {
    /// The unit value `()`.
    pub const UNIT: Dynamic = Dynamic::Unit;

    /// A copy of the value.
    pub fn flatten_clone(&self) -> (r: Dynamic)
        ensures
            r@ == self@,
        decreases self,
    {
        match self {
            Dynamic::Unit => Dynamic::Unit,
            Dynamic::Bool(b) => Dynamic::Bool(*b),
            Dynamic::Int(n) => Dynamic::Int(*n),
            Dynamic::Str(s) => Dynamic::Str(s.clone()),
            Dynamic::Array(v) => {
                let mut r: Vec<Dynamic> = Vec::new();
                let mut i: usize = 0;
                while i < v.len()
                    invariant
                        *self is Array,
                        self->Array_0 == *v,
                        i <= v@.len(),
                        r@.len() == i,
                        forall|j: int| 0 <= j < i ==> (#[trigger] r@[j])@ == v@[j]@,
                    decreases v@.len() - i,
                {
                    proof {
                        vstd::std_specs::vec::axiom_vec_index_decreases(*v, i as int);
                    }
                    let c = v[i].flatten_clone();
                    r.push(c);
                    i = i + 1;
                }
                let out = Dynamic::Array(r);
                proof {
                    lemma_array_view(r, *v);
                }
                out
            },
        }
    }

    /// Whether the two values are equal.
    pub fn equals(&self, other: &Dynamic) -> (r: bool)
        ensures
            r == (self@ == other@),
        decreases self,
    {
        match (self, other) {
            (Dynamic::Unit, Dynamic::Unit) => true,
            (Dynamic::Bool(x), Dynamic::Bool(y)) => *x == *y,
            (Dynamic::Int(x), Dynamic::Int(y)) => *x == *y,
            (Dynamic::Str(x), Dynamic::Str(y)) => *x == *y,
            (Dynamic::Array(x), Dynamic::Array(y)) => {
                if x.len() != y.len() {
                    proof {
                        lemma_array_elems(*x);
                        lemma_array_elems(*y);
                    }
                    return false;
                }
                let mut i: usize = 0;
                while i < x.len()
                    invariant
                        *self == Dynamic::Array(*x),
                        *other == Dynamic::Array(*y),
                        i <= x@.len(),
                        x@.len() == y@.len(),
                        forall|j: int| 0 <= j < i ==> (#[trigger] x@[j])@ == y@[j]@,
                    decreases x@.len() - i,
                {
                    proof {
                        vstd::std_specs::vec::axiom_vec_index_decreases(*x, i as int);
                    }
                    if !x[i].equals(&y[i]) {
                        proof {
                            lemma_array_elems(*x);
                            lemma_array_elems(*y);
                            assert(self@->Array_0[i as int] != other@->Array_0[i as int]);
                        }
                        return false;
                    }
                    i = i + 1;
                }
                proof {
                    lemma_array_view(*x, *y);
                }
                true
            },
            _ => false,
        }
    }

    /// Name of the type of the value held.
    pub fn type_name_str(&self) -> (s: String)
        ensures
            s@ == type_name_of(self@),
    {
        match self {
            Dynamic::Unit => String::from_str("()"),
            Dynamic::Bool(_) => String::from_str("bool"),
            Dynamic::Int(_) => String::from_str("i64"),
            Dynamic::Str(_) => String::from_str("string"),
            Dynamic::Array(_) => String::from_str("array"),
        }
    }
}

/// A copy of the elements of `a` followed by copies of those of `b`.
pub fn concat_elems(a: &Vec<Dynamic>, b: &Vec<Dynamic>) -> (r: Vec<Dynamic>)
    ensures
        Dynamic::Array(r)@ == Value::Array(Dynamic::Array(*a)@->Array_0 + Dynamic::Array(*b)@->Array_0),
{
    let mut r: Vec<Dynamic> = Vec::new();
    let mut i: usize = 0;
    while i < a.len()
        invariant
            i <= a@.len(),
            r@.len() == i,
            forall|j: int| 0 <= j < i ==> (#[trigger] r@[j])@ == a@[j]@,
        decreases a@.len() - i,
    {
        r.push(a[i].flatten_clone());
        i = i + 1;
    }
    let mut k: usize = 0;
    while k < b.len()
        invariant
            k <= b@.len(),
            r@.len() == a@.len() + k,
            forall|j: int| 0 <= j < a@.len() ==> (#[trigger] r@[j])@ == a@[j]@,
            forall|j: int| 0 <= j < k ==> (#[trigger] r@[a@.len() + j])@ == b@[j]@,
        decreases b@.len() - k,
    {
        r.push(b[k].flatten_clone());
        k = k + 1;
    }
    proof {
        lemma_array_elems(r);
        lemma_array_elems(*a);
        lemma_array_elems(*b);
        let ra = Dynamic::Array(r)@->Array_0;
        let sa = Dynamic::Array(*a)@->Array_0;
        let sb = Dynamic::Array(*b)@->Array_0;
        assert forall|j: int| 0 <= j < ra.len() implies ra[j] == (sa + sb)[j] by {
            if j >= a@.len() {
                assert(r@[a@.len() + (j - a@.len())] == r@[j]);
            }
        }
        assert(ra =~= sa + sb);
    }
    r
}

/// A copy of the elements of `a` followed by a copy of `x`.
pub fn push_elem(a: &Vec<Dynamic>, x: &Dynamic) -> (r: Vec<Dynamic>)
    ensures
        Dynamic::Array(r)@ == Value::Array(Dynamic::Array(*a)@->Array_0.push(x@)),
{
    let mut r: Vec<Dynamic> = Vec::new();
    let mut i: usize = 0;
    while i < a.len()
        invariant
            i <= a@.len(),
            r@.len() == i,
            forall|j: int| 0 <= j < i ==> (#[trigger] r@[j])@ == a@[j]@,
        decreases a@.len() - i,
    {
        r.push(a[i].flatten_clone());
        i = i + 1;
    }
    r.push(x.flatten_clone());
    proof {
        lemma_array_elems(r);
        lemma_array_elems(*a);
        assert(Dynamic::Array(r)@->Array_0 =~= Dynamic::Array(*a)@->Array_0.push(x@));
    }
    r
}

/// The value of an array holds the values of its elements.
pub proof fn lemma_array_elems(a: Vec<Dynamic>)
    ensures
        Dynamic::Array(a)@ is Array,
        Dynamic::Array(a)@->Array_0.len() == a@.len(),
        forall|j: int| 0 <= j < a@.len() ==> (#[trigger] Dynamic::Array(a)@->Array_0[j]) == a@[j]@,
{
}

/// Two arrays whose elements are pairwise equal as values are equal as
/// values.
pub proof fn lemma_array_view(a: Vec<Dynamic>, b: Vec<Dynamic>)
    requires
        a@.len() == b@.len(),
        forall|j: int| 0 <= j < a@.len() ==> (#[trigger] a@[j])@ == b@[j]@,
    ensures
        Dynamic::Array(a)@ == Dynamic::Array(b)@,
{
    let va = Dynamic::Array(a)@->Array_0;
    let vb = Dynamic::Array(b)@->Array_0;
    assert(va.len() == a@.len());
    assert forall|j: int| 0 <= j < va.len() implies va[j] == vb[j] by {
        assert(va[j] == a@[j]@);
        assert(vb[j] == b@[j]@);
    }
    assert(va =~= vb);
}

/// A Rust type that a script's result can be cast into.
pub trait Variant: Sized {
    /// Whether a value of the script can be cast into this type.
    spec fn accepts(v: Value) -> bool;

    /// The script value that a value of this type stands for.
    spec fn value_of(x: Self) -> Value;

    /// The name under which this type is reported in a mismatch.
    spec fn type_name_spec() -> Seq<char>;

    /// Casts a dynamic value into this type, if its type allows.
    fn try_cast(d: Dynamic) -> (r: Option<Self>)
        ensures
            r is Some <==> Self::accepts(d@),
            r matches Some(x) ==> Self::value_of(x) == d@,
    ;

    /// The name under which this type is reported in a mismatch.
    fn type_name_string() -> (s: String)
        ensures
            s@ == Self::type_name_spec(),
    ;
}

impl Variant for Dynamic {
    open spec fn accepts(v: Value) -> bool {
        true
    }

    open spec fn value_of(x: Self) -> Value {
        x@
    }

    open spec fn type_name_spec() -> Seq<char> {
        "Dynamic"@
    }

    fn try_cast(d: Dynamic) -> (r: Option<Self>) {
        Some(d)
    }

    fn type_name_string() -> (s: String) {
        String::from_str("Dynamic")
    }
}

impl Variant for i64 {
    open spec fn accepts(v: Value) -> bool {
        v is Int
    }

    open spec fn value_of(x: Self) -> Value {
        Value::Int(x)
    }

    open spec fn type_name_spec() -> Seq<char> {
        "i64"@
    }

    fn try_cast(d: Dynamic) -> (r: Option<Self>) {
        match d {
            Dynamic::Int(n) => Some(n),
            _ => None,
        }
    }

    fn type_name_string() -> (s: String) {
        String::from_str("i64")
    }
}

impl Variant for bool {
    open spec fn accepts(v: Value) -> bool {
        v is Bool
    }

    open spec fn value_of(x: Self) -> Value {
        Value::Bool(x)
    }

    open spec fn type_name_spec() -> Seq<char> {
        "bool"@
    }

    fn try_cast(d: Dynamic) -> (r: Option<Self>) {
        match d {
            Dynamic::Bool(b) => Some(b),
            _ => None,
        }
    }

    fn type_name_string() -> (s: String) {
        String::from_str("bool")
    }
}

impl Variant for String {
    open spec fn accepts(v: Value) -> bool {
        v is Str
    }

    open spec fn value_of(x: Self) -> Value {
        Value::Str(x@)
    }

    open spec fn type_name_spec() -> Seq<char> {
        "string"@
    }

    fn try_cast(d: Dynamic) -> (r: Option<Self>) {
        match d {
            Dynamic::Str(s) => Some(s),
            _ => None,
        }
    }

    fn type_name_string() -> (s: String) {
        String::from_str("string")
    }
}

impl Variant for Vec<Dynamic> {
    open spec fn accepts(v: Value) -> bool {
        v is Array
    }

    open spec fn value_of(x: Self) -> Value {
        Dynamic::Array(x)@
    }

    open spec fn type_name_spec() -> Seq<char> {
        "array"@
    }

    fn try_cast(d: Dynamic) -> (r: Option<Self>) {
        match d {
            Dynamic::Array(v) => Some(v),
            _ => None,
        }
    }

    fn type_name_string() -> (s: String) {
        String::from_str("array")
    }
}

impl Variant for () {
    open spec fn accepts(v: Value) -> bool {
        v is Unit
    }

    open spec fn value_of(x: Self) -> Value {
        Value::Unit
    }

    open spec fn type_name_spec() -> Seq<char> {
        "()"@
    }

    fn try_cast(d: Dynamic) -> (r: Option<Self>) {
        match d {
            Dynamic::Unit => Some(()),
            _ => None,
        }
    }

    fn type_name_string() -> (s: String) {
        String::from_str("()")
    }
}

} // verus!
