use vstd::prelude::*;
use crate::integer::Int;
use crate::scalar::{
    Decimal, Float64, IonType, Timestamp, bits_are_nan, decimal_ion_eq, float_eq, float_ion_eq,
    timestamp_ion_eq,
};
use crate::symbol::Symbol;

verus! {

broadcast use vstd::std_specs::vec::group_vec_axioms;

/// The payload of an [`Element`]: exactly one kind of Ion value.
#[derive(Debug)]
pub enum Value {
    Null(IonType),
    Int(Int),
    Float(Float64),
    Decimal(Decimal),
    Timestamp(Timestamp),
    String(String),
    Symbol(Symbol),
    Bool(bool),
    Blob(Vec<u8>),
    Clob(Vec<u8>),
    SExp(SExp),
    List(List),
    Struct(Struct),
}

/// An `(annotations, value)` pair representing an Ion value.
#[derive(Debug)]
pub struct Element {
    annotations: Vec<Symbol>,
    value: Value,
}

/// An Ion list: an ordered sequence of elements.
#[derive(Debug)]
pub struct List {
    children: Vec<Element>,
}

/// An Ion s-expression: an ordered sequence of elements.
#[derive(Debug)]
pub struct SExp {
    children: Vec<Element>,
}

/// The fields of a struct in insertion order, with an index from each field
/// name to the positions that carry it.
#[derive(Debug)]
struct Fields {
    by_index: Vec<(Symbol, Element)>,
    by_name: Vec<(Symbol, Vec<usize>)>,
}

/// An Ion struct: a bag of `(name, value)` fields that keeps insertion order
/// and allows repeated names.
#[derive(Debug)]
pub struct Struct {
    fields: Fields,
}

/// The text views of a sequence of symbols.
pub open spec fn symbols_view(s: Seq<Symbol>) -> Seq<Option<Seq<char>>> {
    s.map_values(|x: Symbol| x@)
}

/// The positions below `n` whose field name is `k`, in ascending order.
pub open spec fn positions_named(f: Seq<(Symbol, Element)>, k: Option<Seq<char>>, n: int) -> Seq<
    int,
>
    decreases n,
{
    if n <= 0 {
        Seq::empty()
    } else if f[n - 1].0@ == k {
        positions_named(f, k, n - 1).push(n - 1)
    } else {
        positions_named(f, k, n - 1)
    }
}

/// How many fields are named `k`.
pub open spec fn count_named(f: Seq<(Symbol, Element)>, k: Option<Seq<char>>) -> nat {
    positions_named(f, k, f.len() as int).len()
}

/// The values of the fields named `k`, in insertion order.
pub open spec fn values_named(f: Seq<(Symbol, Element)>, k: Option<Seq<char>>) -> Seq<Element> {
    positions_named(f, k, f.len() as int).map_values(|p: int| f[p].1)
}

/// The elements that a sequence of references points to.
pub open spec fn derefs(s: Seq<&Element>) -> Seq<Element> {
    s.map_values(|e: &Element| *e)
}

pub open spec fn bucket_view(s: Seq<usize>) -> Seq<int> {
    s.map_values(|u: usize| u as int)
}

impl Element {
    pub closed spec fn annotations_spec(self) -> Seq<Symbol> {
        self.annotations@
    }

    pub closed spec fn value_spec(self) -> Value {
        self.value
    }
}

impl List {
    pub closed spec fn children_spec(self) -> Seq<Element> {
        self.children@
    }
}

impl SExp {
    pub closed spec fn children_spec(self) -> Seq<Element> {
        self.children@
    }
}

impl Struct {
    /// The fields in insertion order.
    pub closed spec fn fields_spec(self) -> Seq<(Symbol, Element)> {
        self.fields.by_index@
    }

    #[verifier::type_invariant]
    closed spec fn index_consistent(self) -> bool {
        index_over(self.fields.by_index@, self.fields.by_name@, self.fields.by_index@.len() as int)
    }
}

/// `b` indexes the first `n` fields of `f` by name: bucket names are
/// distinct, each bucket is non-empty and lists exactly the positions below
/// `n` that carry its name, in order, and every such name has a bucket.
pub open spec fn index_over(f: Seq<(Symbol, Element)>, b: Seq<(Symbol, Vec<usize>)>, n: int) -> bool {
    &&& forall|x: int, y: int| 0 <= x < y < b.len() ==> b[x].0@ != b[y].0@
    &&& forall|x: int|
        0 <= x < b.len() ==> bucket_view(#[trigger] b[x].1@) == positions_named(f, b[x].0@, n)
            && b[x].1@.len() > 0
    &&& forall|p: int|
        0 <= p < n ==> exists|x: int| 0 <= x < b.len() && b[x].0@ == (#[trigger] f[p]).0@
}

/// Structural equality of elements: equal annotation sequences and
/// structurally equal values.
pub closed spec fn element_eq(a: Element, b: Element) -> bool
    decreases a,
{
    symbols_view(a.annotations@) == symbols_view(b.annotations@) && value_eq(a.value, b.value)
}

/// Structural equality of values. Values of different kinds are never equal.
pub closed spec fn value_eq(a: Value, b: Value) -> bool
    decreases a,
{
    match a {
        Value::Null(t) => b is Null && b->Null_0 == t,
        Value::Int(i) => b is Int && i.value() == b->Int_0.value(),
        Value::Float(x) => b is Float && float_eq(x, b->Float_0),
        Value::Decimal(d) => b is Decimal && d == b->Decimal_0,
        Value::Timestamp(t) => b is Timestamp && t == b->Timestamp_0,
        Value::String(s) => b is String && s@ == b->String_0@,
        Value::Symbol(s) => b is Symbol && s@ == b->Symbol_0@,
        Value::Bool(x) => b is Bool && x == b->Bool_0,
        Value::Blob(x) => b is Blob && x@ == b->Blob_0@,
        Value::Clob(x) => b is Clob && x@ == b->Clob_0@,
        Value::SExp(s) => b is SExp && elements_eq(s.children@, b->SExp_0.children@),
        Value::List(l) => b is List && elements_eq(l.children@, b->List_0.children@),
        Value::Struct(s) => b is Struct && struct_eq(s, b->Struct_0),
    }
}

/// Position-wise structural equality of two element sequences.
pub closed spec fn elements_eq(a: Seq<Element>, b: Seq<Element>) -> bool
    decreases a,
{
    a.len() == b.len() && forall|i: int| 0 <= i < a.len() ==> element_eq(a[i], b[i])
}

/// Structural equality of structs: the same number of fields, and, in each
/// direction, every field has a structurally equal field of the same name on
/// the other side, whose name occurs as often there.
pub closed spec fn struct_eq(a: Struct, b: Struct) -> bool
    decreases a,
{
    &&& a.fields.by_index@.len() == b.fields.by_index@.len()
    &&& fields_matched(a.fields.by_index@, b.fields.by_index@)
    &&& fields_matched_in(a.fields.by_index@, b.fields.by_index@)
}

/// Every field of `fa` has a structurally equal field of the same name in
/// `fb`, and its name occurs as often in both.
pub closed spec fn fields_matched(fa: Seq<(Symbol, Element)>, fb: Seq<(Symbol, Element)>) -> bool
    decreases fa,
{
    forall|i: int|
        0 <= i < fa.len() ==> #[trigger] count_named(fb, fa[i].0@) == count_named(fa, fa[i].0@)
            && exists|j: int|
            0 <= j < fb.len() && fb[j].0@ == fa[i].0@ && element_eq(fa[i].1, #[trigger] fb[j].1)
}

/// Every field of `fb` has a structurally equal field of the same name in
/// `fa` (compared with the field of `fa` on the left), and its name occurs as
/// often in both.
pub closed spec fn fields_matched_in(fa: Seq<(Symbol, Element)>, fb: Seq<(Symbol, Element)>) -> bool
    decreases fa,
{
    forall|j: int|
        0 <= j < fb.len() ==> #[trigger] count_named(fa, fb[j].0@) == count_named(fb, fb[j].0@)
            && exists|i: int|
            0 <= i < fa.len() && fa[i].0@ == fb[j].0@ && element_eq(#[trigger] fa[i].1, fb[j].1)
}

/// Ion equivalence of elements: equal annotation sequences and equivalent
/// values.
pub closed spec fn element_ion_eq(a: Element, b: Element) -> bool
    decreases a,
{
    symbols_view(a.annotations@) == symbols_view(b.annotations@) && value_ion_eq(a.value, b.value)
}

/// Ion equivalence of values: floats, decimals, timestamps, lists and
/// s-expressions by their own rules; every other pair by structural equality.
pub closed spec fn value_ion_eq(a: Value, b: Value) -> bool
    decreases a,
{
    match a {
        Value::Float(x) => b is Float && float_ion_eq(x, b->Float_0),
        Value::Decimal(d) => b is Decimal && decimal_ion_eq(d, b->Decimal_0),
        Value::Timestamp(t) => b is Timestamp && timestamp_ion_eq(t, b->Timestamp_0),
        Value::SExp(s) => b is SExp && elements_ion_eq(s.children@, b->SExp_0.children@),
        Value::List(l) => b is List && elements_ion_eq(l.children@, b->List_0.children@),
        _ => value_eq(a, b),
    }
}

/// Position-wise Ion equivalence of two element sequences.
pub closed spec fn elements_ion_eq(a: Seq<Element>, b: Seq<Element>) -> bool
    decreases a,
{
    a.len() == b.len() && forall|i: int| 0 <= i < a.len() ==> element_ion_eq(a[i], b[i])
}

/// `b` is a copy of `a`: the same annotations and the same value, down to
/// the representation (a float's bits, a decimal's exponent, field order).
pub closed spec fn element_same(a: Element, b: Element) -> bool
    decreases a,
{
    a.annotations@ == b.annotations@ && value_same(a.value, b.value)
}

/// `b` is a copy of `a`, down to the representation.
pub closed spec fn value_same(a: Value, b: Value) -> bool
    decreases a,
{
    match a {
        Value::Int(i) => b is Int && i.value() == b->Int_0.value(),
        Value::String(x) => b is String && x@ == b->String_0@,
        Value::Blob(x) => b is Blob && x@ == b->Blob_0@,
        Value::Clob(x) => b is Clob && x@ == b->Clob_0@,
        Value::SExp(x) => b is SExp && elements_same(x.children@, b->SExp_0.children@),
        Value::List(x) => b is List && elements_same(x.children@, b->List_0.children@),
        Value::Struct(x) => b is Struct && fields_same(x.fields.by_index@, b->Struct_0.fields.by_index@),
        _ => a == b,
    }
}

/// Position-wise copies.
pub closed spec fn elements_same(a: Seq<Element>, b: Seq<Element>) -> bool
    decreases a,
{
    a.len() == b.len() && forall|i: int| 0 <= i < a.len() ==> element_same(a[i], b[i])
}

/// Position-wise copies of fields, names included.
pub closed spec fn fields_same(a: Seq<(Symbol, Element)>, b: Seq<(Symbol, Element)>) -> bool
    decreases a,
{
    a.len() == b.len() && forall|i: int| 0 <= i < a.len() ==> a[i].0 == b[i].0 && element_same(a[i].1, b[i].1)
}

/// What `element_eq` means, over the public accessors.
pub proof fn lemma_element_eq_unfold(a: Element, b: Element)
    ensures
        element_eq(a, b) == (symbols_view(a.annotations_spec()) == symbols_view(
            b.annotations_spec(),
        ) && value_eq(a.value_spec(), b.value_spec())),
{
}

/// What `value_eq` means, over the public accessors.
pub proof fn lemma_value_eq_unfold(a: Value, b: Value)
    ensures
        value_eq(a, b) == match a {
            Value::Null(t) => b is Null && b->Null_0 == t,
            Value::Int(i) => b is Int && i.value() == b->Int_0.value(),
            Value::Float(x) => b is Float && float_eq(x, b->Float_0),
            Value::Decimal(d) => b is Decimal && d == b->Decimal_0,
            Value::Timestamp(t) => b is Timestamp && t == b->Timestamp_0,
            Value::String(x) => b is String && x@ == b->String_0@,
            Value::Symbol(x) => b is Symbol && x@ == b->Symbol_0@,
            Value::Bool(x) => b is Bool && x == b->Bool_0,
            Value::Blob(x) => b is Blob && x@ == b->Blob_0@,
            Value::Clob(x) => b is Clob && x@ == b->Clob_0@,
            Value::SExp(x) => b is SExp && elements_eq(x.children_spec(), b->SExp_0.children_spec()),
            Value::List(x) => b is List && elements_eq(x.children_spec(), b->List_0.children_spec()),
            Value::Struct(x) => b is Struct && struct_eq(x, b->Struct_0),
        },
{
}

/// What `elements_eq` means.
pub proof fn lemma_elements_eq_unfold(a: Seq<Element>, b: Seq<Element>)
    ensures
        elements_eq(a, b) == (a.len() == b.len() && forall|i: int|
            0 <= i < a.len() ==> element_eq(#[trigger] a[i], b[i])),
{
}

/// What `struct_eq` means, over the public accessors.
pub proof fn lemma_struct_eq_unfold(a: Struct, b: Struct)
    ensures
        struct_eq(a, b) == (a.fields_spec().len() == b.fields_spec().len() && fields_matched(
            a.fields_spec(),
            b.fields_spec(),
        ) && fields_matched_in(a.fields_spec(), b.fields_spec())),
{
}

/// What `fields_matched` means.
pub proof fn lemma_fields_matched_unfold(fa: Seq<(Symbol, Element)>, fb: Seq<(Symbol, Element)>)
    ensures
        fields_matched(fa, fb) == forall|i: int|
            0 <= i < fa.len() ==> #[trigger] count_named(fb, fa[i].0@) == count_named(fa, fa[i].0@)
                && exists|j: int|
                0 <= j < fb.len() && fb[j].0@ == fa[i].0@ && element_eq(fa[i].1, #[trigger] fb[j].1),
{
}

/// What `fields_matched_in` means.
pub proof fn lemma_fields_matched_in_unfold(fa: Seq<(Symbol, Element)>, fb: Seq<(Symbol, Element)>)
    ensures
        fields_matched_in(fa, fb) == forall|j: int|
            0 <= j < fb.len() ==> #[trigger] count_named(fa, fb[j].0@) == count_named(fb, fb[j].0@)
                && exists|i: int|
                0 <= i < fa.len() && fa[i].0@ == fb[j].0@ && element_eq(#[trigger] fa[i].1, fb[j].1),
{
}

/// What `element_ion_eq` means, over the public accessors.
pub proof fn lemma_element_ion_eq_unfold(a: Element, b: Element)
    ensures
        element_ion_eq(a, b) == (symbols_view(a.annotations_spec()) == symbols_view(
            b.annotations_spec(),
        ) && value_ion_eq(a.value_spec(), b.value_spec())),
{
}

/// What `value_ion_eq` means, over the public accessors.
pub proof fn lemma_value_ion_eq_unfold(a: Value, b: Value)
    ensures
        value_ion_eq(a, b) == match a {
            Value::Float(x) => b is Float && float_ion_eq(x, b->Float_0),
            Value::Decimal(d) => b is Decimal && decimal_ion_eq(d, b->Decimal_0),
            Value::Timestamp(t) => b is Timestamp && timestamp_ion_eq(t, b->Timestamp_0),
            Value::SExp(x) => b is SExp && elements_ion_eq(
                x.children_spec(),
                b->SExp_0.children_spec(),
            ),
            Value::List(x) => b is List && elements_ion_eq(
                x.children_spec(),
                b->List_0.children_spec(),
            ),
            _ => value_eq(a, b),
        },
{
}

/// What `elements_ion_eq` means.
pub proof fn lemma_elements_ion_eq_unfold(a: Seq<Element>, b: Seq<Element>)
    ensures
        elements_ion_eq(a, b) == (a.len() == b.len() && forall|i: int|
            0 <= i < a.len() ==> element_ion_eq(#[trigger] a[i], b[i])),
{
}

/// What `element_same` means, over the public accessors.
pub proof fn lemma_element_same_unfold(a: Element, b: Element)
    ensures
        element_same(a, b) == (a.annotations_spec() == b.annotations_spec() && value_same(
            a.value_spec(),
            b.value_spec(),
        )),
{
}

/// What `value_same` means, over the public accessors.
pub proof fn lemma_value_same_unfold(a: Value, b: Value)
    ensures
        value_same(a, b) == match a {
            Value::Int(i) => b is Int && i.value() == b->Int_0.value(),
            Value::String(x) => b is String && x@ == b->String_0@,
            Value::Blob(x) => b is Blob && x@ == b->Blob_0@,
            Value::Clob(x) => b is Clob && x@ == b->Clob_0@,
            Value::SExp(x) => b is SExp && elements_same(x.children_spec(), b->SExp_0.children_spec()),
            Value::List(x) => b is List && elements_same(x.children_spec(), b->List_0.children_spec()),
            Value::Struct(x) => b is Struct && fields_same(x.fields_spec(), b->Struct_0.fields_spec()),
            _ => a == b,
        },
{
}

/// What `elements_same` means.
pub proof fn lemma_elements_same_unfold(a: Seq<Element>, b: Seq<Element>)
    ensures
        elements_same(a, b) == (a.len() == b.len() && forall|i: int|
            0 <= i < a.len() ==> element_same(#[trigger] a[i], b[i])),
{
}

/// What `fields_same` means.
pub proof fn lemma_fields_same_unfold(a: Seq<(Symbol, Element)>, b: Seq<(Symbol, Element)>)
    ensures
        fields_same(a, b) == (a.len() == b.len() && forall|i: int|
            0 <= i < a.len() ==> (#[trigger] a[i]).0 == b[i].0 && element_same(a[i].1, b[i].1)),
{
}

proof fn lemma_positions_named(f: Seq<(Symbol, Element)>, k: Option<Seq<char>>, n: int)
    requires
        n <= f.len(),
    ensures
        forall|t: int|
            0 <= t < positions_named(f, k, n).len() ==> 0 <= #[trigger] positions_named(
                f,
                k,
                n,
            )[t] < n && f[positions_named(f, k, n)[t]].0@ == k,
        forall|p: int|
            0 <= p < n && #[trigger] f[p].0@ == k ==> exists|t: int|
                0 <= t < positions_named(f, k, n).len() && positions_named(f, k, n)[t] == p,
    decreases n,
{
    if n > 0 {
        lemma_positions_named(f, k, n - 1);
        let prev = positions_named(f, k, n - 1);
        if f[n - 1].0@ == k {
            assert forall|p: int| 0 <= p < n && #[trigger] f[p].0@ == k implies exists|t: int|
                0 <= t < positions_named(f, k, n).len() && positions_named(f, k, n)[t] == p by {
                if p == n - 1 {
                    assert(positions_named(f, k, n)[prev.len() as int] == p);
                } else {
                    let t = choose|t: int| 0 <= t < prev.len() && prev[t] == p;
                    assert(positions_named(f, k, n)[t] == p);
                }
            }
        }
    }
}

/// Structural equality is symmetric.
pub proof fn lemma_element_eq_symmetric(a: Element, b: Element)
    ensures
        element_eq(a, b) == element_eq(b, a),
    decreases a,
{
    lemma_value_eq_symmetric(a.value, b.value);
}

/// Structural equality of values is symmetric.
pub proof fn lemma_value_eq_symmetric(a: Value, b: Value)
    ensures
        value_eq(a, b) == value_eq(b, a),
    decreases a,
{
    match a {
        Value::SExp(s) => {
            if b is SExp {
                lemma_elements_eq_symmetric(s.children@, b->SExp_0.children@);
            }
        },
        Value::List(l) => {
            if b is List {
                lemma_elements_eq_symmetric(l.children@, b->List_0.children@);
            }
        },
        Value::Struct(s) => {
            if b is Struct {
                lemma_struct_eq_symmetric(s, b->Struct_0);
            }
        },
        _ => {},
    }
}

/// Position-wise structural equality is symmetric.
pub proof fn lemma_elements_eq_symmetric(a: Seq<Element>, b: Seq<Element>)
    ensures
        elements_eq(a, b) == elements_eq(b, a),
    decreases a,
{
    assert forall|i: int| 0 <= i < a.len() && i < b.len() implies element_eq(a[i], b[i])
        == element_eq(b[i], a[i]) by {
        lemma_element_eq_symmetric(a[i], b[i]);
    }
}

/// Struct equality is symmetric: `a == b` exactly when `b == a`.
pub proof fn lemma_struct_eq_symmetric(a: Struct, b: Struct)
    ensures
        struct_eq(a, b) == struct_eq(b, a),
    decreases a,
{
    let fa = a.fields.by_index@;
    let fb = b.fields.by_index@;
    if fields_matched(fa, fb) {
        lemma_matched_flip(fa, fb);
    }
    if fields_matched_in(fa, fb) {
        lemma_matched_in_flip(fa, fb);
    }
    if fields_matched_in(fb, fa) {
        lemma_matched_unflip(fa, fb);
    }
    if fields_matched(fb, fa) {
        lemma_matched_in_unflip(fa, fb);
    }
}

proof fn lemma_matched_flip(fa: Seq<(Symbol, Element)>, fb: Seq<(Symbol, Element)>)
    requires
        fields_matched(fa, fb),
    ensures
        fields_matched_in(fb, fa),
    decreases fa,
{
    assert forall|i: int| 0 <= i < fa.len() implies #[trigger] count_named(fb, fa[i].0@)
        == count_named(fa, fa[i].0@) && exists|j: int|
        0 <= j < fb.len() && fb[j].0@ == fa[i].0@ && element_eq(#[trigger] fb[j].1, fa[i].1) by {
        assert(count_named(fb, fa[i].0@) == count_named(fa, fa[i].0@));
        let j = choose|j: int|
            0 <= j < fb.len() && fb[j].0@ == fa[i].0@ && element_eq(fa[i].1, #[trigger] fb[j].1);
        lemma_element_eq_symmetric(fa[i].1, fb[j].1);
    }
}

proof fn lemma_matched_unflip(fa: Seq<(Symbol, Element)>, fb: Seq<(Symbol, Element)>)
    requires
        fields_matched_in(fb, fa),
    ensures
        fields_matched(fa, fb),
    decreases fa,
{
    assert forall|i: int| 0 <= i < fa.len() implies #[trigger] count_named(fb, fa[i].0@)
        == count_named(fa, fa[i].0@) && exists|j: int|
        0 <= j < fb.len() && fb[j].0@ == fa[i].0@ && element_eq(fa[i].1, #[trigger] fb[j].1) by {
        assert(count_named(fb, fa[i].0@) == count_named(fa, fa[i].0@));
        let j = choose|j: int|
            0 <= j < fb.len() && fb[j].0@ == fa[i].0@ && element_eq(#[trigger] fb[j].1, fa[i].1);
        lemma_element_eq_symmetric(fa[i].1, fb[j].1);
    }
}

proof fn lemma_matched_in_flip(fa: Seq<(Symbol, Element)>, fb: Seq<(Symbol, Element)>)
    requires
        fields_matched_in(fa, fb),
    ensures
        fields_matched(fb, fa),
    decreases fa,
{
    assert forall|j: int| 0 <= j < fb.len() implies #[trigger] count_named(fa, fb[j].0@)
        == count_named(fb, fb[j].0@) && exists|i: int|
        0 <= i < fa.len() && fa[i].0@ == fb[j].0@ && element_eq(fb[j].1, #[trigger] fa[i].1) by {
        assert(count_named(fa, fb[j].0@) == count_named(fb, fb[j].0@));
        let i = choose|i: int|
            0 <= i < fa.len() && fa[i].0@ == fb[j].0@ && element_eq(#[trigger] fa[i].1, fb[j].1);
        lemma_element_eq_symmetric(fa[i].1, fb[j].1);
    }
}

proof fn lemma_matched_in_unflip(fa: Seq<(Symbol, Element)>, fb: Seq<(Symbol, Element)>)
    requires
        fields_matched(fb, fa),
    ensures
        fields_matched_in(fa, fb),
    decreases fa,
{
    assert forall|j: int| 0 <= j < fb.len() implies #[trigger] count_named(fa, fb[j].0@)
        == count_named(fb, fb[j].0@) && exists|i: int|
        0 <= i < fa.len() && fa[i].0@ == fb[j].0@ && element_eq(#[trigger] fa[i].1, fb[j].1) by {
        assert(count_named(fa, fb[j].0@) == count_named(fb, fb[j].0@));
        let i = choose|i: int|
            0 <= i < fa.len() && fa[i].0@ == fb[j].0@ && element_eq(fb[j].1, #[trigger] fa[i].1);
        lemma_element_eq_symmetric(fa[i].1, fb[j].1);
    }
}

/// Elements whose annotation sequences differ are neither equal nor
/// equivalent, whatever their values.
pub proof fn lemma_annotations_distinguish(a: Element, b: Element)
    requires
        symbols_view(a.annotations_spec()) != symbols_view(b.annotations_spec()),
    ensures
        !element_eq(a, b),
        !element_ion_eq(a, b),
{
}

/// A float element holding a NaN is Ion-equivalent to any element with the
/// same annotations that holds a NaN, and structurally equal to none.
pub proof fn lemma_nan_equivalent_not_equal(a: Element, b: Element)
    requires
        a.value_spec() is Float,
        b.value_spec() is Float,
        bits_are_nan(a.value_spec()->Float_0.bits),
        bits_are_nan(b.value_spec()->Float_0.bits),
        symbols_view(a.annotations_spec()) == symbols_view(b.annotations_spec()),
    ensures
        element_ion_eq(a, b),
        !element_eq(a, b),
{
}

proof fn lemma_positions_same_names(
    fa: Seq<(Symbol, Element)>,
    fb: Seq<(Symbol, Element)>,
    k: Option<Seq<char>>,
    n: int,
)
    requires
        n <= fa.len(),
        fa.len() == fb.len(),
        forall|p: int| 0 <= p < fa.len() ==> fa[p].0 == fb[p].0,
    ensures
        positions_named(fa, k, n) == positions_named(fb, k, n),
    decreases n,
{
    if n > 0 {
        lemma_positions_same_names(fa, fb, k, n - 1);
    }
}

/// Replacing the right-hand side of a comparison by a copy of it does not
/// change the outcome.
pub proof fn lemma_eq_copy_right(x: Element, y: Element, y2: Element)
    requires
        element_same(y, y2),
    ensures
        element_eq(x, y) == element_eq(x, y2),
    decreases x,
{
    lemma_value_eq_copy_right(x.value, y.value, y2.value);
}

proof fn lemma_value_eq_copy_right(x: Value, y: Value, y2: Value)
    requires
        value_same(y, y2),
    ensures
        value_eq(x, y) == value_eq(x, y2),
    decreases x,
{
    match x {
        Value::SExp(s) => {
            if y is SExp {
                lemma_elements_eq_copy_right(s.children@, y->SExp_0.children@, y2->SExp_0.children@);
            }
        },
        Value::List(s) => {
            if y is List {
                lemma_elements_eq_copy_right(s.children@, y->List_0.children@, y2->List_0.children@);
            }
        },
        Value::Struct(s) => {
            if y is Struct {
                let fx = s.fields.by_index@;
                let fy = y->Struct_0.fields.by_index@;
                let fy2 = y2->Struct_0.fields.by_index@;
                if fields_matched(fx, fy) {
                    lemma_matched_copy(fx, fy, fy2);
                }
                if fields_matched(fx, fy2) {
                    lemma_matched_copy_back(fx, fy, fy2);
                }
                if fields_matched_in(fx, fy) {
                    lemma_matched_in_copy(fx, fy, fy2);
                }
                if fields_matched_in(fx, fy2) {
                    lemma_matched_in_copy_back(fx, fy, fy2);
                }
            }
        },
        _ => {},
    }
}

proof fn lemma_elements_eq_copy_right(x: Seq<Element>, y: Seq<Element>, y2: Seq<Element>)
    requires
        elements_same(y, y2),
    ensures
        elements_eq(x, y) == elements_eq(x, y2),
    decreases x,
{
    assert forall|i: int| 0 <= i < x.len() && i < y.len() implies element_eq(x[i], y[i])
        == element_eq(x[i], y2[i]) by {
        lemma_eq_copy_right(x[i], y[i], y2[i]);
    }
}

proof fn lemma_counts_same(fy: Seq<(Symbol, Element)>, fy2: Seq<(Symbol, Element)>)
    requires
        fields_same(fy, fy2),
    ensures
        forall|k: Option<Seq<char>>| #[trigger] count_named(fy, k) == count_named(fy2, k),
{
    assert forall|k: Option<Seq<char>>| #[trigger] count_named(fy, k) == count_named(fy2, k) by {
        lemma_positions_same_names(fy, fy2, k, fy.len() as int);
    }
}

proof fn lemma_matched_copy(
    fx: Seq<(Symbol, Element)>,
    fy: Seq<(Symbol, Element)>,
    fy2: Seq<(Symbol, Element)>,
)
    requires
        fields_same(fy, fy2),
        fields_matched(fx, fy),
    ensures
        fields_matched(fx, fy2),
    decreases fx,
{
    lemma_counts_same(fy, fy2);
    assert forall|i: int| 0 <= i < fx.len() implies #[trigger] count_named(fy2, fx[i].0@)
        == count_named(fx, fx[i].0@) && exists|j: int|
        0 <= j < fy2.len() && fy2[j].0@ == fx[i].0@ && element_eq(fx[i].1, #[trigger] fy2[j].1) by {
        assert(count_named(fy, fx[i].0@) == count_named(fx, fx[i].0@));
        let j = choose|j: int|
            0 <= j < fy.len() && fy[j].0@ == fx[i].0@ && element_eq(fx[i].1, #[trigger] fy[j].1);
        lemma_eq_copy_right(fx[i].1, fy[j].1, fy2[j].1);
    }
}

proof fn lemma_matched_copy_back(
    fx: Seq<(Symbol, Element)>,
    fy: Seq<(Symbol, Element)>,
    fy2: Seq<(Symbol, Element)>,
)
    requires
        fields_same(fy, fy2),
        fields_matched(fx, fy2),
    ensures
        fields_matched(fx, fy),
    decreases fx,
{
    lemma_counts_same(fy, fy2);
    assert forall|i: int| 0 <= i < fx.len() implies #[trigger] count_named(fy, fx[i].0@)
        == count_named(fx, fx[i].0@) && exists|j: int|
        0 <= j < fy.len() && fy[j].0@ == fx[i].0@ && element_eq(fx[i].1, #[trigger] fy[j].1) by {
        assert(count_named(fy2, fx[i].0@) == count_named(fx, fx[i].0@));
        let j = choose|j: int|
            0 <= j < fy2.len() && fy2[j].0@ == fx[i].0@ && element_eq(fx[i].1, #[trigger] fy2[j].1);
        lemma_eq_copy_right(fx[i].1, fy[j].1, fy2[j].1);
    }
}

proof fn lemma_matched_in_copy(
    fx: Seq<(Symbol, Element)>,
    fy: Seq<(Symbol, Element)>,
    fy2: Seq<(Symbol, Element)>,
)
    requires
        fields_same(fy, fy2),
        fields_matched_in(fx, fy),
    ensures
        fields_matched_in(fx, fy2),
    decreases fx,
{
    lemma_counts_same(fy, fy2);
    assert forall|j: int| 0 <= j < fy2.len() implies #[trigger] count_named(fx, fy2[j].0@)
        == count_named(fy2, fy2[j].0@) && exists|i: int|
        0 <= i < fx.len() && fx[i].0@ == fy2[j].0@ && element_eq(#[trigger] fx[i].1, fy2[j].1) by {
        assert(count_named(fx, fy[j].0@) == count_named(fy, fy[j].0@));
        let i = choose|i: int|
            0 <= i < fx.len() && fx[i].0@ == fy[j].0@ && element_eq(#[trigger] fx[i].1, fy[j].1);
        lemma_eq_copy_right(fx[i].1, fy[j].1, fy2[j].1);
    }
}

proof fn lemma_matched_in_copy_back(
    fx: Seq<(Symbol, Element)>,
    fy: Seq<(Symbol, Element)>,
    fy2: Seq<(Symbol, Element)>,
)
    requires
        fields_same(fy, fy2),
        fields_matched_in(fx, fy2),
    ensures
        fields_matched_in(fx, fy),
    decreases fx,
{
    lemma_counts_same(fy, fy2);
    assert forall|j: int| 0 <= j < fy.len() implies #[trigger] count_named(fx, fy[j].0@)
        == count_named(fy, fy[j].0@) && exists|i: int|
        0 <= i < fx.len() && fx[i].0@ == fy[j].0@ && element_eq(#[trigger] fx[i].1, fy[j].1) by {
        assert(count_named(fx, fy2[j].0@) == count_named(fy2, fy2[j].0@));
        let i = choose|i: int|
            0 <= i < fx.len() && fx[i].0@ == fy2[j].0@ && element_eq(#[trigger] fx[i].1, fy2[j].1);
        lemma_eq_copy_right(fx[i].1, fy[j].1, fy2[j].1);
    }
}

/// When `a` is a copy of `a2`, every sequence `b` equal to `a2` is also
/// equal to `a`; in particular `a2 == a` whenever `a2` equals itself (it
/// holds no NaN).
pub proof fn lemma_copy_keeps_equality(a: Seq<Element>, b: Seq<Element>, a2: Seq<Element>)
    requires
        elements_same(a2, a),
        elements_eq(b, a2),
    ensures
        elements_eq(b, a),
{
    lemma_elements_eq_copy_right(b, a2, a);
}

/// When `copy` holds copies of the fields of `s`, every struct `b` equal to
/// `s` is also equal to `copy`.
pub proof fn lemma_struct_copy_keeps_equality(s: Struct, copy: Struct, b: Struct)
    requires
        fields_same(s.fields_spec(), copy.fields_spec()),
        struct_eq(b, s),
    ensures
        struct_eq(b, copy),
{
    lemma_value_eq_copy_right(Value::Struct(b), Value::Struct(s), Value::Struct(copy));
}

/// Structurally equal elements are Ion-equivalent.
pub proof fn lemma_eq_implies_ion_eq(a: Element, b: Element)
    requires
        element_eq(a, b),
    ensures
        element_ion_eq(a, b),
    decreases a,
{
    lemma_value_eq_implies_ion_eq(a.value, b.value);
}

proof fn lemma_value_eq_implies_ion_eq(a: Value, b: Value)
    requires
        value_eq(a, b),
    ensures
        value_ion_eq(a, b),
    decreases a,
{
    match a {
        Value::SExp(s) => {
            lemma_elements_eq_implies_ion_eq(s.children@, b->SExp_0.children@);
        },
        Value::List(l) => {
            lemma_elements_eq_implies_ion_eq(l.children@, b->List_0.children@);
        },
        _ => {},
    }
}

proof fn lemma_elements_eq_implies_ion_eq(a: Seq<Element>, b: Seq<Element>)
    requires
        elements_eq(a, b),
    ensures
        elements_ion_eq(a, b),
    decreases a,
{
    assert forall|i: int| 0 <= i < a.len() implies element_ion_eq(a[i], b[i]) by {
        lemma_eq_implies_ion_eq(a[i], b[i]);
    }
}

/// The position of the bucket named like `k`, if there is one.
fn find_bucket(by_name: &Vec<(Symbol, Vec<usize>)>, k: &Symbol) -> (r: Option<usize>)
    ensures
        match r {
            Some(x) => x < by_name@.len() && by_name@[x as int].0@ == k@,
            None => forall|x: int| 0 <= x < by_name@.len() ==> by_name@[x].0@ != k@,
        },
{
    let mut x: usize = 0;
    while x < by_name.len()
        invariant
            x <= by_name@.len(),
            forall|y: int| 0 <= y < x ==> by_name@[y].0@ != k@,
        decreases by_name@.len() - x,
    {
        if by_name[x].0 == *k {
            return Some(x);
        }
        x = x + 1;
    }
    None
}

impl Struct {
    /// A struct holding `fields` in the given order, with its name index
    /// built over them.
    pub fn from_fields(fields: Vec<(Symbol, Element)>) -> (r: Struct)
        ensures
            r.fields_spec() == fields@,
    {
        let mut by_name: Vec<(Symbol, Vec<usize>)> = Vec::new();
        let mut i: usize = 0;
        while i < fields.len()
            invariant
                i <= fields@.len(),
                index_over(fields@, by_name@, i as int),
            decreases fields@.len() - i,
        {
            let ghost f = fields@;
            let ghost k = f[i as int].0@;
            let ghost old_b = by_name@;
            proof {
                lemma_positions_named(f, k, i as int);
            }
            assert(positions_named(f, k, i + 1) == positions_named(f, k, i as int).push(i as int));
            assert forall|k2: Option<Seq<char>>| k2 != k implies positions_named(f, k2, i + 1)
                == positions_named(f, k2, i as int) by {}
            match find_bucket(&by_name, &fields[i].0) {
                Some(x) => {
                    let (name, mut idxs) = by_name.remove(x);
                    idxs.push(i);
                    by_name.insert(x, (name, idxs));
                    assert(by_name@ =~= old_b.update(x as int, (name, idxs)));
                    assert(bucket_view(idxs@) =~= bucket_view(old_b[x as int].1@).push(i as int));
                    assert forall|p: int| 0 <= p < i + 1 implies exists|y: int|
                        0 <= y < by_name@.len() && by_name@[y].0@ == (#[trigger] f[p]).0@ by {
                        if p == i {
                            assert(by_name@[x as int].0@ == f[p].0@);
                        } else {
                            let y = choose|y: int|
                                0 <= y < old_b.len() && old_b[y].0@ == (#[trigger] f[p]).0@;
                            assert(by_name@[y].0@ == f[p].0@);
                        }
                    }
                },
                None => {
                    proof {
                        if positions_named(f, k, i as int).len() > 0 {
                            let p = positions_named(f, k, i as int)[0];
                            assert(f[p].0@ == k);
                        }
                    }
                    let mut idxs: Vec<usize> = Vec::new();
                    idxs.push(i);
                    let name = fields[i].0.clone();
                    by_name.push((name, idxs));
                    assert(by_name@ =~= old_b.push((name, idxs)));
                    assert(bucket_view(idxs@) =~= positions_named(f, k, i + 1));
                    assert forall|p: int| 0 <= p < i + 1 implies exists|y: int|
                        0 <= y < by_name@.len() && by_name@[y].0@ == (#[trigger] f[p]).0@ by {
                        if p == i {
                            assert(by_name@[old_b.len() as int].0@ == f[p].0@);
                        } else {
                            let y = choose|y: int|
                                0 <= y < old_b.len() && old_b[y].0@ == (#[trigger] f[p]).0@;
                            assert(by_name@[y].0@ == f[p].0@);
                        }
                    }
                },
            }
            i = i + 1;
        }
        Struct { fields: Fields { by_index: fields, by_name } }
    }
}

impl Struct {
    /// The positions of the fields named like `field_name`, in insertion
    /// order; `None` when no field has that name.
    ///
    /// A name with known text finds the fields with that text; a name with
    /// unknown text finds every field whose name has unknown text.
    fn get_indexes(&self, field_name: &Symbol) -> (r: Option<&Vec<usize>>)
        ensures
            match r {
                Some(v) => bucket_view(v@) == positions_named(
                    self.fields_spec(),
                    field_name@,
                    self.fields_spec().len() as int,
                ) && v@.len() > 0,
                None => count_named(self.fields_spec(), field_name@) == 0,
            },
    {
        proof {
            use_type_invariant(self);
        }
        match find_bucket(&self.fields.by_name, field_name) {
            Some(x) => Some(&self.fields.by_name[x].1),
            None => {
                proof {
                    let f = self.fields.by_index@;
                    lemma_positions_named(f, field_name@, f.len() as int);
                    if count_named(f, field_name@) > 0 {
                        let p = positions_named(f, field_name@, f.len() as int)[0];
                        assert(f[p].0@ == field_name@);
                    }
                }
                None
            },
        }
    }

    /// The value of the last field named like `field_name`, in insertion
    /// order.
    pub fn get(&self, field_name: &Symbol) -> (r: Option<&Element>)
        ensures
            ({
                let vals = values_named(self.fields_spec(), field_name@);
                match r {
                    Some(e) => vals.len() > 0 && *e == vals.last(),
                    None => vals.len() == 0,
                }
            }),
    {
        proof {
            use_type_invariant(self);
            let f = self.fields.by_index@;
            lemma_positions_named(f, field_name@, f.len() as int);
        }
        match self.get_indexes(field_name) {
            Some(idxs) => {
                if idxs.len() == 0 {
                    None
                } else {
                    let p = idxs[idxs.len() - 1];
                    Some(&self.fields.by_index[p].1)
                }
            },
            None => None,
        }
    }

    /// The values of all fields named like `field_name`, in insertion order.
    pub fn get_all(&self, field_name: &Symbol) -> (r: Vec<&Element>)
        ensures
            derefs(r@) == values_named(self.fields_spec(), field_name@),
    {
        let ghost f = self.fields.by_index@;
        let ghost pos = positions_named(f, field_name@, f.len() as int);
        proof {
            use_type_invariant(self);
            lemma_positions_named(f, field_name@, f.len() as int);
        }
        let mut out: Vec<&Element> = Vec::new();
        match self.get_indexes(field_name) {
            Some(idxs) => {
                let mut t: usize = 0;
                while t < idxs.len()
                    invariant
                        t <= idxs@.len(),
                        bucket_view(idxs@) == pos,
                        forall|u: int| 0 <= u < pos.len() ==> 0 <= #[trigger] pos[u] < f.len(),
                        f == self.fields.by_index@,
                        derefs(out@) == pos.take(t as int).map_values(|p: int| f[p].1),
                    decreases idxs@.len() - t,
                {
                    assert(pos[t as int] == idxs@[t as int]);
                    let ghost old_out = out@;
                    out.push(&self.fields.by_index[idxs[t]].1);
                    assert(derefs(out@) =~= derefs(old_out).push(f[pos[t as int]].1));
                    assert(pos.take(t + 1) =~= pos.take(t as int).push(pos[t as int]));
                    t = t + 1;
                    assert(derefs(out@) =~= pos.take(t as int).map_values(|p: int| f[p].1));
                }
                assert(pos.take(t as int) =~= pos);
            },
            None => {
                assert(derefs(out@) =~= values_named(f, field_name@));
            },
        }
        out
    }

    /// The fields in insertion order.
    pub fn fields(&self) -> (r: &Vec<(Symbol, Element)>)
        ensures
            r@ == self.fields_spec(),
    {
        &self.fields.by_index
    }

    /// The fields in insertion order.
    pub fn iter(&self) -> (r: &Vec<(Symbol, Element)>)
        ensures
            r@ == self.fields_spec(),
    {
        &self.fields.by_index
    }

    /// The number of fields.
    pub fn len(&self) -> (r: usize)
        ensures
            r == self.fields_spec().len(),
    {
        self.fields.by_index.len()
    }

    /// Whether there are no fields.
    pub fn is_empty(&self) -> (r: bool)
        ensures
            r == (self.fields_spec().len() == 0),
    {
        self.len() == 0
    }
}

fn symbols_equal(a: &Vec<Symbol>, b: &Vec<Symbol>) -> (r: bool)
    ensures
        r == (symbols_view(a@) == symbols_view(b@)),
{
    if a.len() != b.len() {
        return false;
    }
    let mut i: usize = 0;
    while i < a.len()
        invariant
            a@.len() == b@.len(),
            i <= a@.len(),
            forall|j: int| 0 <= j < i ==> a@[j]@ == b@[j]@,
        decreases a@.len() - i,
    {
        if a[i] != b[i] {
            assert(symbols_view(a@)[i as int] != symbols_view(b@)[i as int]);
            return false;
        }
        i = i + 1;
    }
    assert(symbols_view(a@) =~= symbols_view(b@));
    true
}

fn bytes_equal(a: &Vec<u8>, b: &Vec<u8>) -> (r: bool)
    ensures
        r == (a@ == b@),
{
    if a.len() != b.len() {
        return false;
    }
    let mut i: usize = 0;
    while i < a.len()
        invariant
            a@.len() == b@.len(),
            i <= a@.len(),
            forall|j: int| 0 <= j < i ==> a@[j] == b@[j],
        decreases a@.len() - i,
    {
        if a[i] != b[i] {
            return false;
        }
        i = i + 1;
    }
    assert(a@ =~= b@);
    true
}

impl Element {
    /// Structural equality.
    fn equals(&self, other: &Element) -> (r: bool)
        ensures
            r == element_eq(*self, *other),
        decreases *self,
    {
        self.value.equals(&other.value) && symbols_equal(&self.annotations, &other.annotations)
    }
}

impl Value {
    /// Structural equality.
    fn equals(&self, other: &Value) -> (r: bool)
        ensures
            r == value_eq(*self, *other),
        decreases *self,
    {
        match self {
            Value::Null(t) => match other {
                Value::Null(u) => *t == *u,
                _ => false,
            },
            Value::Int(i) => match other {
                Value::Int(j) => i.equals(j),
                _ => false,
            },
            Value::Float(x) => match other {
                Value::Float(y) => x.float_equals(*y),
                _ => false,
            },
            Value::Decimal(d) => match other {
                Value::Decimal(e) => *d == *e,
                _ => false,
            },
            Value::Timestamp(t) => match other {
                Value::Timestamp(u) => *t == *u,
                _ => false,
            },
            Value::String(x) => match other {
                Value::String(y) => crate::symbol::str_eq(x.as_str(), y.as_str()),
                _ => false,
            },
            Value::Symbol(x) => match other {
                Value::Symbol(y) => *x == *y,
                _ => false,
            },
            Value::Bool(x) => match other {
                Value::Bool(y) => *x == *y,
                _ => false,
            },
            Value::Blob(x) => match other {
                Value::Blob(y) => bytes_equal(x, y),
                _ => false,
            },
            Value::Clob(x) => match other {
                Value::Clob(y) => bytes_equal(x, y),
                _ => false,
            },
            Value::SExp(x) => match other {
                Value::SExp(y) => elements_equal(&x.children, &y.children),
                _ => false,
            },
            Value::List(x) => match other {
                Value::List(y) => elements_equal(&x.children, &y.children),
                _ => false,
            },
            Value::Struct(x) => match other {
                Value::Struct(y) => {
                    x.len() == y.len() && x.fields_eq(y) && x.fields_eq_reverse(y)
                },
                _ => false,
            },
        }
    }
}

/// Position-wise structural equality.
fn elements_equal(a: &Vec<Element>, b: &Vec<Element>) -> (r: bool)
    ensures
        r == elements_eq(a@, b@),
    decreases a,
{
    if a.len() != b.len() {
        return false;
    }
    let mut i: usize = 0;
    while i < a.len()
        invariant
            a@.len() == b@.len(),
            i <= a@.len(),
            forall|j: int| 0 <= j < i ==> element_eq(a@[j], b@[j]),
        decreases a@.len() - i,
    {
        if !a[i].equals(&b[i]) {
            return false;
        }
        i = i + 1;
    }
    true
}

impl Struct {
    /// Whether every field of `self` is found in `other`.
    #[verifier::loop_isolation(false)]
    fn fields_eq(&self, other: &Struct) -> (r: bool)
        ensures
            r == fields_matched(self.fields_spec(), other.fields_spec()),
        decreases *self,
    {
        let ghost fa = self.fields.by_index@;
        let ghost fb = other.fields.by_index@;
        let mut i: usize = 0;
        while i < self.fields.by_index.len()
            invariant
                fa == self.fields.by_index@,
                fb == other.fields.by_index@,
                i <= fa.len(),
                forall|i2: int|
                    0 <= i2 < i ==> #[trigger] count_named(fb, fa[i2].0@) == count_named(
                        fa,
                        fa[i2].0@,
                    ) && exists|j: int|
                        0 <= j < fb.len() && fb[j].0@ == fa[i2].0@ && element_eq(
                            fa[i2].1,
                            #[trigger] fb[j].1,
                        ),
            decreases fa.len() - i,
        {
            let name = &self.fields.by_index[i].0;
            let ghost k = fa[i as int].0@;
            proof {
                use_type_invariant(self);
                use_type_invariant(other);
                lemma_positions_named(fa, k, fa.len() as int);
                lemma_positions_named(fb, k, fb.len() as int);
            }
            let mine = match self.get_indexes(name) {
                Some(v) => v,
                None => {
                    return false;
                },
            };
            let theirs = match other.get_indexes(name) {
                Some(v) => v,
                None => {
                    proof {
                        let t = choose|t: int|
                            0 <= t < positions_named(fa, k, fa.len() as int).len()
                                && positions_named(fa, k, fa.len() as int)[t] == i;
                    }
                    return false;
                },
            };
            if mine.len() != theirs.len() {
                assert(bucket_view(mine@).len() == mine@.len());
                assert(bucket_view(theirs@).len() == theirs@.len());
                assert(count_named(fb, fa[i as int].0@) != count_named(fa, fa[i as int].0@));
                return false;
            }
            assert(bucket_view(mine@).len() == mine@.len());
            assert(bucket_view(theirs@).len() == theirs@.len());
            let ghost pos = positions_named(fb, k, fb.len() as int);
            let mut found = false;
            let mut t: usize = 0;
            while t < theirs.len() && !found
                invariant
                    fa == self.fields.by_index@,
                    fb == other.fields.by_index@,
                    0 <= i < fa.len(),
                    k == fa[i as int].0@,
                    count_named(fb, k) == count_named(fa, k),
                    bucket_view(theirs@) == pos,
                    t <= theirs@.len(),
                    forall|u: int| 0 <= u < pos.len() ==> 0 <= #[trigger] pos[u] < fb.len() && fb[pos[u]].0@ == k,
                    found ==> exists|j: int|
                        0 <= j < fb.len() && fb[j].0@ == k && element_eq(fa[i as int].1, #[trigger] fb[j].1),
                    !found ==> forall|u: int| 0 <= u < t ==> !element_eq(fa[i as int].1, fb[#[trigger] pos[u]].1),
                decreases theirs@.len() - t,
            {
                assert(pos[t as int] == theirs@[t as int]);
                if self.fields.by_index[i].1.equals(&other.fields.by_index[theirs[t]].1) {
                    found = true;
                }
                t = t + 1;
            }
            if !found {
                proof {
                    assert forall|j: int| 0 <= j < fb.len() && fb[j].0@ == k implies !element_eq(
                        fa[i as int].1,
                        #[trigger] fb[j].1,
                    ) by {
                        let u = choose|u: int| 0 <= u < pos.len() && pos[u] == j;
                    }
                    assert(count_named(fb, fa[i as int].0@) == count_named(fa, fa[i as int].0@));
                }
                return false;
            }
            assert(count_named(fb, fa[i as int].0@) == count_named(fa, fa[i as int].0@));
            i = i + 1;
        }
        true
    }

    /// Whether every field of `other` is found in `self`.
    #[verifier::loop_isolation(false)]
    fn fields_eq_reverse(&self, other: &Struct) -> (r: bool)
        ensures
            r == fields_matched_in(self.fields_spec(), other.fields_spec()),
        decreases *self,
    {
        let ghost fa = self.fields.by_index@;
        let ghost fb = other.fields.by_index@;
        let mut j: usize = 0;
        while j < other.fields.by_index.len()
            invariant
                fa == self.fields.by_index@,
                fb == other.fields.by_index@,
                j <= fb.len(),
                forall|j2: int|
                    0 <= j2 < j ==> #[trigger] count_named(fa, fb[j2].0@) == count_named(
                        fb,
                        fb[j2].0@,
                    ) && exists|i: int|
                        0 <= i < fa.len() && fa[i].0@ == fb[j2].0@ && element_eq(
                            #[trigger] fa[i].1,
                            fb[j2].1,
                        ),
            decreases fb.len() - j,
        {
            let name = &other.fields.by_index[j].0;
            let ghost k = fb[j as int].0@;
            proof {
                use_type_invariant(self);
                use_type_invariant(other);
                lemma_positions_named(fa, k, fa.len() as int);
                lemma_positions_named(fb, k, fb.len() as int);
            }
            let theirs = match other.get_indexes(name) {
                Some(v) => v,
                None => {
                    return false;
                },
            };
            let mine = match self.get_indexes(name) {
                Some(v) => v,
                None => {
                    proof {
                        let t = choose|t: int|
                            0 <= t < positions_named(fb, k, fb.len() as int).len()
                                && positions_named(fb, k, fb.len() as int)[t] == j;
                    }
                    return false;
                },
            };
            if mine.len() != theirs.len() {
                assert(bucket_view(mine@).len() == mine@.len());
                assert(bucket_view(theirs@).len() == theirs@.len());
                assert(count_named(fa, fb[j as int].0@) != count_named(fb, fb[j as int].0@));
                return false;
            }
            assert(bucket_view(mine@).len() == mine@.len());
            assert(bucket_view(theirs@).len() == theirs@.len());
            assert(count_named(fa, fb[j as int].0@) == count_named(fb, fb[j as int].0@));
            let ghost pos = positions_named(fa, k, fa.len() as int);
            let mut found = false;
            let mut t: usize = 0;
            while t < mine.len() && !found
                invariant
                    fa == self.fields.by_index@,
                    fb == other.fields.by_index@,
                    0 <= j < fb.len(),
                    k == fb[j as int].0@,
                    count_named(fa, k) == count_named(fb, k),
                    bucket_view(mine@) == pos,
                    t <= mine@.len(),
                    forall|u: int| 0 <= u < pos.len() ==> 0 <= #[trigger] pos[u] < fa.len() && fa[pos[u]].0@ == k,
                    found ==> exists|i: int|
                        0 <= i < fa.len() && fa[i].0@ == k && element_eq(#[trigger] fa[i].1, fb[j as int].1),
                    !found ==> forall|u: int| 0 <= u < t ==> !element_eq(fa[#[trigger] pos[u]].1, fb[j as int].1),
                decreases mine@.len() - t,
            {
                assert(pos[t as int] == mine@[t as int]);
                if self.fields.by_index[mine[t]].1.equals(&other.fields.by_index[j].1) {
                    found = true;
                }
                t = t + 1;
            }
            if !found {
                proof {
                    assert forall|i: int| 0 <= i < fa.len() && fa[i].0@ == k implies !element_eq(
                        #[trigger] fa[i].1,
                        fb[j as int].1,
                    ) by {
                        let u = choose|u: int| 0 <= u < pos.len() && pos[u] == i;
                    }
                    assert(count_named(fa, fb[j as int].0@) == count_named(fb, fb[j as int].0@));
                }
                return false;
            }
            assert(count_named(fa, fb[j as int].0@) == count_named(fb, fb[j as int].0@));
            j = j + 1;
        }
        true
    }
}

impl Element {
    /// Ion equivalence.
    fn ion_equals(&self, other: &Element) -> (r: bool)
        ensures
            r == element_ion_eq(*self, *other),
        decreases *self,
    {
        symbols_equal(&self.annotations, &other.annotations) && self.value.ion_equals(&other.value)
    }
}

impl Value {
    /// Ion equivalence.
    fn ion_equals(&self, other: &Value) -> (r: bool)
        ensures
            r == value_ion_eq(*self, *other),
        decreases *self,
    {
        match (self, other) {
            (Value::Float(x), Value::Float(y)) => x.float_ion_equals(*y),
            (Value::Decimal(x), Value::Decimal(y)) => x.decimal_ion_equals(y),
            (Value::Timestamp(x), Value::Timestamp(y)) => x.timestamp_ion_equals(y),
            (Value::List(x), Value::List(y)) => elements_ion_equal(&x.children, &y.children),
            (Value::SExp(x), Value::SExp(y)) => elements_ion_equal(&x.children, &y.children),
            _ => self.equals(other),
        }
    }
}

/// Position-wise Ion equivalence.
fn elements_ion_equal(a: &Vec<Element>, b: &Vec<Element>) -> (r: bool)
    ensures
        r == elements_ion_eq(a@, b@),
    decreases a,
{
    if a.len() != b.len() {
        return false;
    }
    let mut i: usize = 0;
    while i < a.len()
        invariant
            a@.len() == b@.len(),
            i <= a@.len(),
            forall|j: int| 0 <= j < i ==> element_ion_eq(a@[j], b@[j]),
        decreases a@.len() - i,
    {
        if !a[i].ion_equals(&b[i]) {
            return false;
        }
        i = i + 1;
    }
    true
}

/// Ion equivalence: a relation distinct from `==` that the Ion data model
/// defines (for instance, a NaN float is equivalent to itself).
pub trait IonEq {
    spec fn ion_eq_spec(&self, other: &Self) -> bool;

    fn ion_eq(&self, other: &Self) -> (r: bool)
        ensures
            r == self.ion_eq_spec(other),
    ;
}

impl IonEq for Element {
    open spec fn ion_eq_spec(&self, other: &Self) -> bool {
        element_ion_eq(*self, *other)
    }

    fn ion_eq(&self, other: &Self) -> (r: bool) {
        self.ion_equals(other)
    }
}

impl IonEq for Value {
    open spec fn ion_eq_spec(&self, other: &Self) -> bool {
        value_ion_eq(*self, *other)
    }

    fn ion_eq(&self, other: &Self) -> (r: bool) {
        self.ion_equals(other)
    }
}

impl IonEq for List {
    open spec fn ion_eq_spec(&self, other: &Self) -> bool {
        elements_ion_eq(self.children_spec(), other.children_spec())
    }

    fn ion_eq(&self, other: &Self) -> (r: bool) {
        elements_ion_equal(&self.children, &other.children)
    }
}

impl IonEq for SExp {
    open spec fn ion_eq_spec(&self, other: &Self) -> bool {
        elements_ion_eq(self.children_spec(), other.children_spec())
    }

    fn ion_eq(&self, other: &Self) -> (r: bool) {
        elements_ion_equal(&self.children, &other.children)
    }
}

impl IonEq for Vec<Element> {
    open spec fn ion_eq_spec(&self, other: &Self) -> bool {
        elements_ion_eq(self@, other@)
    }

    fn ion_eq(&self, other: &Self) -> (r: bool) {
        elements_ion_equal(self, other)
    }
}

impl PartialEq for Element {
    fn eq(&self, other: &Element) -> (r: bool) {
        self.equals(other)
    }
}

impl vstd::std_specs::cmp::PartialEqSpecImpl for Element {
    open spec fn obeys_eq_spec() -> bool {
        true
    }

    open spec fn eq_spec(&self, other: &Element) -> bool {
        element_eq(*self, *other)
    }
}

impl Eq for Element {
}

impl PartialEq for Value {
    fn eq(&self, other: &Value) -> (r: bool) {
        self.equals(other)
    }
}

impl vstd::std_specs::cmp::PartialEqSpecImpl for Value {
    open spec fn obeys_eq_spec() -> bool {
        true
    }

    open spec fn eq_spec(&self, other: &Value) -> bool {
        value_eq(*self, *other)
    }
}

impl PartialEq for List {
    fn eq(&self, other: &List) -> (r: bool) {
        elements_equal(&self.children, &other.children)
    }
}

impl vstd::std_specs::cmp::PartialEqSpecImpl for List {
    open spec fn obeys_eq_spec() -> bool {
        true
    }

    open spec fn eq_spec(&self, other: &List) -> bool {
        elements_eq(self.children_spec(), other.children_spec())
    }
}

impl Eq for List {
}

impl PartialEq for SExp {
    fn eq(&self, other: &SExp) -> (r: bool) {
        elements_equal(&self.children, &other.children)
    }
}

impl vstd::std_specs::cmp::PartialEqSpecImpl for SExp {
    open spec fn obeys_eq_spec() -> bool {
        true
    }

    open spec fn eq_spec(&self, other: &SExp) -> bool {
        elements_eq(self.children_spec(), other.children_spec())
    }
}

impl Eq for SExp {
}

impl PartialEq for Struct {
    fn eq(&self, other: &Struct) -> (r: bool) {
        self.len() == other.len() && self.fields_eq(other) && self.fields_eq_reverse(other)
    }
}

impl vstd::std_specs::cmp::PartialEqSpecImpl for Struct {
    open spec fn obeys_eq_spec() -> bool {
        true
    }

    open spec fn eq_spec(&self, other: &Struct) -> bool {
        struct_eq(*self, *other)
    }
}

impl Eq for Struct {
}

/// The kind of Ion value that `v` holds; a null carries its own kind.
pub open spec fn ion_type_of(v: Value) -> IonType {
    match v {
        Value::Null(t) => t,
        Value::Int(_) => IonType::Int,
        Value::Float(_) => IonType::Float,
        Value::Decimal(_) => IonType::Decimal,
        Value::Timestamp(_) => IonType::Timestamp,
        Value::String(_) => IonType::String,
        Value::Symbol(_) => IonType::Symbol,
        Value::Bool(_) => IonType::Bool,
        Value::Blob(_) => IonType::Blob,
        Value::Clob(_) => IonType::Clob,
        Value::SExp(_) => IonType::SExp,
        Value::List(_) => IonType::List,
        Value::Struct(_) => IonType::Struct,
    }
}

fn bytes_to_vec(bytes: &[u8]) -> (r: Vec<u8>)
    ensures
        r@ == bytes@,
{
    let mut out: Vec<u8> = Vec::new();
    let mut i: usize = 0;
    while i < bytes.len()
        invariant
            i <= bytes@.len(),
            out@ == bytes@.subrange(0, i as int),
        decreases bytes@.len() - i,
    {
        out.push(bytes[i]);
        i = i + 1;
        assert(out@ =~= bytes@.subrange(0, i as int));
    }
    assert(out@ =~= bytes@);
    out
}

impl Element {
    /// An element with the given annotations and value.
    pub fn new(annotations: Vec<Symbol>, value: Value) -> (r: Element)
        ensures
            r.annotations_spec() == annotations@,
            r.value_spec() == value,
    {
        Element { annotations, value }
    }

    /// An element with no annotations.
    pub fn from_value(value: Value) -> (r: Element)
        ensures
            r.annotations_spec().len() == 0,
            r.value_spec() == value,
    {
        Element { annotations: Vec::new(), value }
    }

    /// A null of the given kind.
    pub fn null(null_type: IonType) -> (r: Element)
        ensures
            r.annotations_spec().len() == 0,
            r.value_spec() == Value::Null(null_type),
    {
        Element::from_value(Value::Null(null_type))
    }

    pub fn boolean(value: bool) -> (r: Element)
        ensures
            r.annotations_spec().len() == 0,
            r.value_spec() == Value::Bool(value),
    {
        Element::from_value(Value::Bool(value))
    }

    pub fn string(text: &str) -> (r: Element)
        ensures
            r.annotations_spec().len() == 0,
            r.value_spec() is String,
            r.value_spec()->String_0@ == text@,
    {
        Element::from_value(Value::String(text.to_owned()))
    }

    pub fn symbol(symbol: Symbol) -> (r: Element)
        ensures
            r.annotations_spec().len() == 0,
            r.value_spec() == Value::Symbol(symbol),
    {
        Element::from_value(Value::Symbol(symbol))
    }

    pub fn integer(integer: Int) -> (r: Element)
        ensures
            r.annotations_spec().len() == 0,
            r.value_spec() == Value::Int(integer),
    {
        Element::from_value(Value::Int(integer))
    }

    pub fn decimal(decimal: Decimal) -> (r: Element)
        ensures
            r.annotations_spec().len() == 0,
            r.value_spec() == Value::Decimal(decimal),
    {
        Element::from_value(Value::Decimal(decimal))
    }

    pub fn timestamp(timestamp: Timestamp) -> (r: Element)
        ensures
            r.annotations_spec().len() == 0,
            r.value_spec() == Value::Timestamp(timestamp),
    {
        Element::from_value(Value::Timestamp(timestamp))
    }

    pub fn float(float: Float64) -> (r: Element)
        ensures
            r.annotations_spec().len() == 0,
            r.value_spec() == Value::Float(float),
    {
        Element::from_value(Value::Float(float))
    }

    pub fn clob(bytes: &[u8]) -> (r: Element)
        ensures
            r.annotations_spec().len() == 0,
            r.value_spec() is Clob,
            r.value_spec()->Clob_0@ == bytes@,
    {
        Element::from_value(Value::Clob(bytes_to_vec(bytes)))
    }

    pub fn blob(bytes: &[u8]) -> (r: Element)
        ensures
            r.annotations_spec().len() == 0,
            r.value_spec() is Blob,
            r.value_spec()->Blob_0@ == bytes@,
    {
        Element::from_value(Value::Blob(bytes_to_vec(bytes)))
    }

    /// This element's value.
    pub fn value(&self) -> (r: &Value)
        ensures
            *r == self.value_spec(),
    {
        &self.value
    }

    /// This element's annotations, in order.
    pub fn annotations(&self) -> (r: &Vec<Symbol>)
        ensures
            r@ == self.annotations_spec(),
    {
        &self.annotations
    }

    /// This element's value with `annotations` in place of its own.
    pub fn with_annotations(self, annotations: Vec<Symbol>) -> (r: Element)
        ensures
            r.annotations_spec() == annotations@,
            r.value_spec() == self.value_spec(),
    {
        Element { annotations, value: self.value }
    }

    /// Whether some annotation has known text equal to `annotation`.
    pub fn has_annotation(&self, annotation: &str) -> (r: bool)
        ensures
            r == exists|i: int|
                0 <= i < self.annotations_spec().len() && #[trigger] self.annotations_spec()[i]@
                    == Some(annotation@),
    {
        let mut i: usize = 0;
        while i < self.annotations.len()
            invariant
                i <= self.annotations@.len(),
                forall|j: int| 0 <= j < i ==> self.annotations@[j]@ != Some(annotation@),
            decreases self.annotations@.len() - i,
        {
            if self.annotations[i].has_text(annotation) {
                return true;
            }
            i = i + 1;
        }
        false
    }

    /// The kind of this element's value.
    pub fn ion_type(&self) -> (r: IonType)
        ensures
            r == ion_type_of(self.value_spec()),
    {
        match &self.value {
            Value::Null(t) => *t,
            Value::Int(_) => IonType::Int,
            Value::Float(_) => IonType::Float,
            Value::Decimal(_) => IonType::Decimal,
            Value::Timestamp(_) => IonType::Timestamp,
            Value::String(_) => IonType::String,
            Value::Symbol(_) => IonType::Symbol,
            Value::Bool(_) => IonType::Bool,
            Value::Blob(_) => IonType::Blob,
            Value::Clob(_) => IonType::Clob,
            Value::SExp(_) => IonType::SExp,
            Value::List(_) => IonType::List,
            Value::Struct(_) => IonType::Struct,
        }
    }

    pub fn is_null(&self) -> (r: bool)
        ensures
            r == self.value_spec() is Null,
    {
        match &self.value {
            Value::Null(_) => true,
            _ => false,
        }
    }

    pub fn as_int(&self) -> (r: Option<&Int>)
        ensures
            match r {
                Some(i) => self.value_spec() == Value::Int(*i),
                None => !(self.value_spec() is Int),
            },
    {
        match &self.value {
            Value::Int(i) => Some(i),
            _ => None,
        }
    }

    pub fn as_float(&self) -> (r: Option<Float64>)
        ensures
            match r {
                Some(f) => self.value_spec() == Value::Float(f),
                None => !(self.value_spec() is Float),
            },
    {
        match &self.value {
            Value::Float(f) => Some(*f),
            _ => None,
        }
    }

    pub fn as_decimal(&self) -> (r: Option<&Decimal>)
        ensures
            match r {
                Some(d) => self.value_spec() == Value::Decimal(*d),
                None => !(self.value_spec() is Decimal),
            },
    {
        match &self.value {
            Value::Decimal(d) => Some(d),
            _ => None,
        }
    }

    pub fn as_timestamp(&self) -> (r: Option<&Timestamp>)
        ensures
            match r {
                Some(t) => self.value_spec() == Value::Timestamp(*t),
                None => !(self.value_spec() is Timestamp),
            },
    {
        match &self.value {
            Value::Timestamp(t) => Some(t),
            _ => None,
        }
    }

    /// The text of a string, or of a symbol whose text is known.
    pub fn as_text(&self) -> (r: Option<&str>)
        ensures
            match r {
                Some(t) => (self.value_spec() is String && self.value_spec()->String_0@ == t@) || (
                self.value_spec() is Symbol && self.value_spec()->Symbol_0@ == Some(t@)),
                None => !(self.value_spec() is String) && !(self.value_spec() is Symbol
                    && self.value_spec()->Symbol_0@ is Some),
            },
    {
        match &self.value {
            Value::String(text) => Some(text.as_str()),
            Value::Symbol(sym) => sym.text(),
            _ => None,
        }
    }

    pub fn as_string(&self) -> (r: Option<&str>)
        ensures
            match r {
                Some(t) => self.value_spec() is String && self.value_spec()->String_0@ == t@,
                None => !(self.value_spec() is String),
            },
    {
        match &self.value {
            Value::String(text) => Some(text.as_str()),
            _ => None,
        }
    }

    pub fn as_symbol(&self) -> (r: Option<&Symbol>)
        ensures
            match r {
                Some(s) => self.value_spec() == Value::Symbol(*s),
                None => !(self.value_spec() is Symbol),
            },
    {
        match &self.value {
            Value::Symbol(sym) => Some(sym),
            _ => None,
        }
    }

    pub fn as_bool(&self) -> (r: Option<bool>)
        ensures
            match r {
                Some(b) => self.value_spec() == Value::Bool(b),
                None => !(self.value_spec() is Bool),
            },
    {
        match &self.value {
            Value::Bool(b) => Some(*b),
            _ => None,
        }
    }

    /// The bytes of a blob or a clob.
    pub fn as_lob(&self) -> (r: Option<&[u8]>)
        ensures
            match r {
                Some(b) => (self.value_spec() is Blob && self.value_spec()->Blob_0@ == b@) || (
                self.value_spec() is Clob && self.value_spec()->Clob_0@ == b@),
                None => !(self.value_spec() is Blob) && !(self.value_spec() is Clob),
            },
    {
        match &self.value {
            Value::Blob(bytes) => Some(bytes.as_slice()),
            Value::Clob(bytes) => Some(bytes.as_slice()),
            _ => None,
        }
    }

    pub fn as_blob(&self) -> (r: Option<&[u8]>)
        ensures
            match r {
                Some(b) => self.value_spec() is Blob && self.value_spec()->Blob_0@ == b@,
                None => !(self.value_spec() is Blob),
            },
    {
        match &self.value {
            Value::Blob(bytes) => Some(bytes.as_slice()),
            _ => None,
        }
    }

    pub fn as_clob(&self) -> (r: Option<&[u8]>)
        ensures
            match r {
                Some(b) => self.value_spec() is Clob && self.value_spec()->Clob_0@ == b@,
                None => !(self.value_spec() is Clob),
            },
    {
        match &self.value {
            Value::Clob(bytes) => Some(bytes.as_slice()),
            _ => None,
        }
    }

    /// The children of a list or an s-expression.
    pub fn as_sequence(&self) -> (r: Option<&Vec<Element>>)
        ensures
            match r {
                Some(c) => (self.value_spec() is List && self.value_spec()->List_0.children_spec()
                    == c@) || (self.value_spec() is SExp
                    && self.value_spec()->SExp_0.children_spec() == c@),
                None => !(self.value_spec() is List) && !(self.value_spec() is SExp),
            },
    {
        match &self.value {
            Value::SExp(sexp) => Some(&sexp.children),
            Value::List(list) => Some(&list.children),
            _ => None,
        }
    }

    pub fn as_sexp(&self) -> (r: Option<&SExp>)
        ensures
            match r {
                Some(x) => self.value_spec() == Value::SExp(*x),
                None => !(self.value_spec() is SExp),
            },
    {
        match &self.value {
            Value::SExp(sexp) => Some(sexp),
            _ => None,
        }
    }

    pub fn as_list(&self) -> (r: Option<&List>)
        ensures
            match r {
                Some(x) => self.value_spec() == Value::List(*x),
                None => !(self.value_spec() is List),
            },
    {
        match &self.value {
            Value::List(list) => Some(list),
            _ => None,
        }
    }

    pub fn as_struct(&self) -> (r: Option<&Struct>)
        ensures
            match r {
                Some(x) => self.value_spec() == Value::Struct(*x),
                None => !(self.value_spec() is Struct),
            },
    {
        match &self.value {
            Value::Struct(structure) => Some(structure),
            _ => None,
        }
    }
}

/// Values that convert into a [`Value`] and can be given annotations,
/// producing an [`Element`].
pub trait IntoAnnotatedElement: Sized {
    /// The value that `self` converts into.
    spec fn as_value_spec(self) -> Value;

    fn into_value(self) -> (r: Value)
        ensures
            r == self.as_value_spec(),
    ;

    /// An element with the given annotations whose value is `self`.
    fn with_annotations(self, annotations: Vec<Symbol>) -> (r: Element)
        ensures
            r.annotations_spec() == annotations@,
            r.value_spec() == self.as_value_spec(),
    {
        Element::new(annotations, self.into_value())
    }
}

impl IntoAnnotatedElement for Value {
    open spec fn as_value_spec(self) -> Value {
        self
    }

    fn into_value(self) -> (r: Value) {
        self
    }
}

impl IntoAnnotatedElement for Int {
    open spec fn as_value_spec(self) -> Value {
        Value::Int(self)
    }

    fn into_value(self) -> (r: Value) {
        Value::Int(self)
    }
}

impl IntoAnnotatedElement for i64 {
    open spec fn as_value_spec(self) -> Value {
        Value::Int(Int::I64(self))
    }

    fn into_value(self) -> (r: Value) {
        Value::Int(Int::I64(self))
    }
}

impl IntoAnnotatedElement for bool {
    open spec fn as_value_spec(self) -> Value {
        Value::Bool(self)
    }

    fn into_value(self) -> (r: Value) {
        Value::Bool(self)
    }
}

impl IntoAnnotatedElement for Symbol {
    open spec fn as_value_spec(self) -> Value {
        Value::Symbol(self)
    }

    fn into_value(self) -> (r: Value) {
        Value::Symbol(self)
    }
}

/// Behavior that [`List`] and [`SExp`] share: an ordered sequence of
/// elements.
pub trait IonSequence {
    spec fn sequence_spec(&self) -> Seq<Element>;

    /// The children in order.
    fn elements(&self) -> (r: &Vec<Element>)
        ensures
            r@ == self.sequence_spec(),
    ;

    /// The child at `index`, if there is one.
    fn get(&self, index: usize) -> (r: Option<&Element>)
        ensures
            match r {
                Some(e) => index < self.sequence_spec().len() && *e == self.sequence_spec()[index as int],
                None => index >= self.sequence_spec().len(),
            },
    ;

    fn len(&self) -> (r: usize)
        ensures
            r == self.sequence_spec().len(),
    ;

    fn is_empty(&self) -> (r: bool)
        ensures
            r == (self.sequence_spec().len() == 0),
    ;
}

impl List {
    /// A list of the given children.
    pub fn new(children: Vec<Element>) -> (r: List)
        ensures
            r.children_spec() == children@,
    {
        List { children }
    }
}

impl SExp {
    /// An s-expression of the given children.
    pub fn new(children: Vec<Element>) -> (r: SExp)
        ensures
            r.children_spec() == children@,
    {
        SExp { children }
    }
}

impl IonSequence for List {
    open spec fn sequence_spec(&self) -> Seq<Element> {
        self.children_spec()
    }

    fn elements(&self) -> (r: &Vec<Element>) {
        &self.children
    }

    fn get(&self, index: usize) -> (r: Option<&Element>) {
        if index < self.children.len() {
            Some(&self.children[index])
        } else {
            None
        }
    }

    fn len(&self) -> (r: usize) {
        self.children.len()
    }

    fn is_empty(&self) -> (r: bool) {
        self.children.len() == 0
    }
}

impl IonSequence for SExp {
    open spec fn sequence_spec(&self) -> Seq<Element> {
        self.children_spec()
    }

    fn elements(&self) -> (r: &Vec<Element>) {
        &self.children
    }

    fn get(&self, index: usize) -> (r: Option<&Element>) {
        if index < self.children.len() {
            Some(&self.children[index])
        } else {
            None
        }
    }

    fn len(&self) -> (r: usize) {
        self.children.len()
    }

    fn is_empty(&self) -> (r: bool) {
        self.children.len() == 0
    }
}

fn clone_symbols(v: &Vec<Symbol>) -> (r: Vec<Symbol>)
    ensures
        r@ == v@,
{
    let mut out: Vec<Symbol> = Vec::new();
    let mut i: usize = 0;
    while i < v.len()
        invariant
            i <= v@.len(),
            out@ == v@.subrange(0, i as int),
        decreases v@.len() - i,
    {
        out.push(v[i].clone());
        i = i + 1;
        assert(out@ =~= v@.subrange(0, i as int));
    }
    assert(out@ =~= v@);
    out
}

/// Copies of the given elements, in order.
pub(crate) fn clone_elements(v: &Vec<Element>) -> (r: Vec<Element>)
    ensures
        elements_same(v@, r@),
    decreases v,
{
    let mut out: Vec<Element> = Vec::new();
    let mut i: usize = 0;
    while i < v.len()
        invariant
            i <= v@.len(),
            out@.len() == i,
            forall|j: int| 0 <= j < i ==> element_same(v@[j], out@[j]),
        decreases v@.len() - i,
    {
        out.push(v[i].deep_clone());
        i = i + 1;
    }
    out
}

/// Copies of the given fields, in order, with their names kept.
pub(crate) fn clone_fields(v: &Vec<(Symbol, Element)>) -> (r: Vec<(Symbol, Element)>)
    ensures
        fields_same(v@, r@),
    decreases v,
{
    let mut out: Vec<(Symbol, Element)> = Vec::new();
    let mut i: usize = 0;
    while i < v.len()
        invariant
            i <= v@.len(),
            out@.len() == i,
            forall|j: int| 0 <= j < i ==> v@[j].0 == out@[j].0 && element_same(v@[j].1, out@[j].1),
        decreases v@.len() - i,
    {
        let name = v[i].0.clone();
        let value = v[i].1.deep_clone();
        out.push((name, value));
        i = i + 1;
    }
    out
}

impl Element {
    fn deep_clone(&self) -> (r: Element)
        ensures
            element_same(*self, r),
        decreases *self,
    {
        Element { annotations: clone_symbols(&self.annotations), value: self.value.deep_clone() }
    }
}

impl Value {
    fn deep_clone(&self) -> (r: Value)
        ensures
            value_same(*self, r),
        decreases *self,
    {
        match self {
            Value::Null(t) => Value::Null(*t),
            Value::Int(i) => Value::Int(i.clone()),
            Value::Float(f) => Value::Float(*f),
            Value::Decimal(d) => Value::Decimal(*d),
            Value::Timestamp(t) => Value::Timestamp(*t),
            Value::String(x) => Value::String(x.clone()),
            Value::Symbol(x) => Value::Symbol(x.clone()),
            Value::Bool(b) => Value::Bool(*b),
            Value::Blob(x) => Value::Blob(bytes_to_vec(x.as_slice())),
            Value::Clob(x) => Value::Clob(bytes_to_vec(x.as_slice())),
            Value::SExp(x) => Value::SExp(SExp { children: clone_elements(&x.children) }),
            Value::List(x) => Value::List(List { children: clone_elements(&x.children) }),
            Value::Struct(x) => Value::Struct(Struct::from_fields(clone_fields(&x.fields.by_index))),
        }
    }
}

impl Clone for Element {
    fn clone(&self) -> (r: Self)
        ensures
            element_same(*self, r),
    {
        self.deep_clone()
    }
}

impl Clone for Value {
    fn clone(&self) -> (r: Self)
        ensures
            value_same(*self, r),
    {
        self.deep_clone()
    }
}

impl Clone for List {
    fn clone(&self) -> (r: Self)
        ensures
            elements_same(self.children_spec(), r.children_spec()),
    {
        List { children: clone_elements(&self.children) }
    }
}

impl Clone for SExp {
    fn clone(&self) -> (r: Self)
        ensures
            elements_same(self.children_spec(), r.children_spec()),
    {
        SExp { children: clone_elements(&self.children) }
    }
}

impl Clone for Struct {
    fn clone(&self) -> (r: Self)
        ensures
            fields_same(self.fields_spec(), r.fields_spec()),
    {
        Struct::from_fields(clone_fields(&self.fields.by_index))
    }
}

} // verus!
