use vstd::prelude::*;
use crate::element::{
    Element, IonSequence, List, SExp, Struct, clone_elements, clone_fields, elements_eq,
    elements_same, fields_same, lemma_copy_keeps_equality, lemma_elements_eq_symmetric,
    lemma_struct_copy_keeps_equality, lemma_struct_eq_symmetric, struct_eq,
};
use crate::symbol::Symbol;

verus! {

/// Collects elements, in the order they are pushed, into a [`List`].
pub struct ListBuilder {
    values: Vec<Element>,
}

/// Collects elements, in the order they are pushed, into an [`SExp`].
pub struct SExpBuilder {
    values: Vec<Element>,
}

/// Collects fields, in the order they are added, into a [`Struct`].
pub struct StructBuilder {
    fields: Vec<(Symbol, Element)>,
}

impl ListBuilder {
    pub closed spec fn values_spec(self) -> Seq<Element> {
        self.values@
    }

    pub fn new() -> (r: ListBuilder)
        ensures
            r.values_spec() == Seq::<Element>::empty(),
    {
        ListBuilder { values: Vec::new() }
    }

    /// A builder that starts with copies of `elements`.
    pub fn with_initial_elements(elements: &Vec<Element>) -> (r: ListBuilder)
        ensures
            elements_same(elements@, r.values_spec()),
    {
        ListBuilder { values: clone_elements(elements) }
    }

    /// Appends `element`.
    pub fn push(self, element: Element) -> (r: ListBuilder)
        ensures
            r.values_spec() == self.values_spec().push(element),
    {
        let mut values = self.values;
        values.push(element);
        ListBuilder { values }
    }

    pub fn build(self) -> (r: List)
        ensures
            r.children_spec() == self.values_spec(),
    {
        List::new(self.values)
    }
}

impl SExpBuilder {
    pub closed spec fn values_spec(self) -> Seq<Element> {
        self.values@
    }

    pub fn new() -> (r: SExpBuilder)
        ensures
            r.values_spec() == Seq::<Element>::empty(),
    {
        SExpBuilder { values: Vec::new() }
    }

    /// A builder that starts with copies of `elements`.
    pub fn with_initial_elements(elements: &Vec<Element>) -> (r: SExpBuilder)
        ensures
            elements_same(elements@, r.values_spec()),
    {
        SExpBuilder { values: clone_elements(elements) }
    }

    /// Appends `element`.
    pub fn push(self, element: Element) -> (r: SExpBuilder)
        ensures
            r.values_spec() == self.values_spec().push(element),
    {
        let mut values = self.values;
        values.push(element);
        SExpBuilder { values }
    }

    pub fn build(self) -> (r: SExp)
        ensures
            r.children_spec() == self.values_spec(),
    {
        SExp::new(self.values)
    }
}

impl StructBuilder {
    pub closed spec fn fields_spec(self) -> Seq<(Symbol, Element)> {
        self.fields@
    }

    pub fn new() -> (r: StructBuilder)
        ensures
            r.fields_spec() == Seq::<(Symbol, Element)>::empty(),
    {
        StructBuilder { fields: Vec::new() }
    }

    /// A builder that starts with copies of `fields`, names kept.
    pub fn with_initial_fields(fields: &Vec<(Symbol, Element)>) -> (r: StructBuilder)
        ensures
            fields_same(fields@, r.fields_spec()),
    {
        StructBuilder { fields: clone_fields(fields) }
    }

    /// Appends the field `(name, value)`.
    pub fn with_field(self, name: Symbol, value: Element) -> (r: StructBuilder)
        ensures
            r.fields_spec() == self.fields_spec().push((name, value)),
    {
        let mut fields = self.fields;
        fields.push((name, value));
        StructBuilder { fields }
    }

    pub fn build(self) -> (r: Struct)
        ensures
            r.fields_spec() == self.fields_spec(),
    {
        Struct::from_fields(self.fields)
    }
}

impl List {
    pub fn builder() -> (r: ListBuilder)
        ensures
            r.values_spec() == Seq::<Element>::empty(),
    {
        ListBuilder::new()
    }

    /// A builder that starts with copies of this list's children.
    pub fn clone_builder(&self) -> (r: ListBuilder)
        ensures
            elements_same(self.children_spec(), r.values_spec()),
    {
        ListBuilder::with_initial_elements(self.elements())
    }
}

impl SExp {
    pub fn builder() -> (r: SExpBuilder)
        ensures
            r.values_spec() == Seq::<Element>::empty(),
    {
        SExpBuilder::new()
    }

    /// A builder that starts with copies of this s-expression's children.
    pub fn clone_builder(&self) -> (r: SExpBuilder)
        ensures
            elements_same(self.children_spec(), r.values_spec()),
    {
        SExpBuilder::with_initial_elements(self.elements())
    }
}

impl Struct {
    pub fn builder() -> (r: StructBuilder)
        ensures
            r.fields_spec() == Seq::<(Symbol, Element)>::empty(),
    {
        StructBuilder::new()
    }

    /// A builder that starts with copies of this struct's fields, in order.
    pub fn clone_builder(&self) -> (r: StructBuilder)
        ensures
            fields_same(self.fields_spec(), r.fields_spec()),
    {
        StructBuilder::with_initial_fields(self.fields())
    }
}

impl Element {
    pub fn list_builder() -> (r: ListBuilder)
        ensures
            r.values_spec() == Seq::<Element>::empty(),
    {
        ListBuilder::new()
    }

    pub fn sexp_builder() -> (r: SExpBuilder)
        ensures
            r.values_spec() == Seq::<Element>::empty(),
    {
        SExpBuilder::new()
    }

    pub fn struct_builder() -> (r: StructBuilder)
        ensures
            r.fields_spec() == Seq::<(Symbol, Element)>::empty(),
    {
        Struct::builder()
    }
}

/// Building from a list's `clone_builder` gives a list equal to it, whenever
/// the list equals itself (no NaN float inside it).
pub proof fn lemma_clone_builder_round_trip(list: List, builder: ListBuilder, rebuilt: List)
    requires
        elements_same(list.children_spec(), builder.values_spec()),
        rebuilt.children_spec() == builder.values_spec(),
        elements_eq(list.children_spec(), list.children_spec()),
    ensures
        elements_eq(list.children_spec(), rebuilt.children_spec()),
        elements_eq(rebuilt.children_spec(), list.children_spec()),
{
    lemma_copy_keeps_equality(rebuilt.children_spec(), list.children_spec(), list.children_spec());
    lemma_elements_eq_symmetric(list.children_spec(), rebuilt.children_spec());
}

/// Building from an s-expression's `clone_builder` gives an s-expression
/// equal to it, whenever it equals itself (no NaN float inside it).
pub proof fn lemma_sexp_clone_builder_round_trip(sexp: SExp, builder: SExpBuilder, rebuilt: SExp)
    requires
        elements_same(sexp.children_spec(), builder.values_spec()),
        rebuilt.children_spec() == builder.values_spec(),
        elements_eq(sexp.children_spec(), sexp.children_spec()),
    ensures
        elements_eq(sexp.children_spec(), rebuilt.children_spec()),
        elements_eq(rebuilt.children_spec(), sexp.children_spec()),
{
    lemma_copy_keeps_equality(rebuilt.children_spec(), sexp.children_spec(), sexp.children_spec());
    lemma_elements_eq_symmetric(sexp.children_spec(), rebuilt.children_spec());
}

/// Building from a struct's `clone_builder` gives a struct equal to it,
/// whenever it equals itself (no NaN float inside it).
pub proof fn lemma_struct_clone_builder_round_trip(
    value: Struct,
    builder: StructBuilder,
    rebuilt: Struct,
)
    requires
        fields_same(value.fields_spec(), builder.fields_spec()),
        rebuilt.fields_spec() == builder.fields_spec(),
        struct_eq(value, value),
    ensures
        struct_eq(value, rebuilt),
        struct_eq(rebuilt, value),
{
    lemma_struct_copy_keeps_equality(value, rebuilt, value);
    lemma_struct_eq_symmetric(value, rebuilt);
}

} // verus!
