use ion_element::builders::ListBuilder;
use ion_element::element::{
    Element, IntoAnnotatedElement, IonEq, IonSequence, List, SExp, Struct, Value,
};
use ion_element::integer::{BigInteger, Int};
use ion_element::reader::{Decoded, IonError};
use ion_element::scalar::{Decimal, Float64, IonType, Timestamp, TimestampPrecision};
use ion_element::symbol::Symbol;
use num_bigint::BigInt;

fn int_element(v: i64) -> Element {
    Element::integer(Int::I64(v))
}

fn sym(text: &str) -> Symbol {
    Symbol::owned(text)
}

fn float(v: f64) -> Element {
    Element::float(Float64::from_bits(v.to_bits()))
}

fn struct_of(fields: Vec<(&str, Element)>) -> Struct {
    let mut builder = Struct::builder();
    for (name, value) in fields {
        builder = builder.with_field(sym(name), value);
    }
    builder.build()
}

fn list_of(values: Vec<Element>) -> List {
    let mut builder = List::builder();
    for v in values {
        builder = builder.push(v);
    }
    builder.build()
}

fn sexp_of(values: Vec<Element>) -> SExp {
    let mut builder = SExp::builder();
    for v in values {
        builder = builder.push(v);
    }
    builder.build()
}

fn as_i64(e: &Element) -> i64 {
    match e.as_int() {
        Some(Int::I64(v)) => *v,
        _ => panic!("not a fixed-width integer"),
    }
}

#[test]
fn nan_is_equivalent_to_itself_but_not_equal() {
    let a = float(f64::NAN);
    let b = float(f64::NAN);
    assert!(a.ion_eq(&b));
    assert!(a != b);
}

#[test]
fn equal_elements_are_equivalent() {
    let a = Element::new(vec![sym("x")], Value::List(list_of(vec![int_element(1), float(2.5)])));
    let b = Element::new(vec![sym("x")], Value::List(list_of(vec![int_element(1), float(2.5)])));
    assert!(a == b);
    assert!(a.ion_eq(&b));
}

#[test]
fn float_zeros_compare_equal() {
    let pos = float(0.0);
    let neg = float(-0.0);
    assert!(pos == neg);
    assert!(pos.ion_eq(&neg));
    assert!(float(1.5) != float(2.5));
}

#[test]
fn repeated_fields_with_annotation_differ_in_both_directions() {
    let plain = struct_of(vec![("a", int_element(4)), ("a", int_element(4))]);
    let annotated = struct_of(vec![("a", int_element(4)), ("a", int_element(4).with_annotations(vec![sym("a")]))]);
    assert!(!(plain == annotated));
    assert!(!(annotated == plain));
}

#[test]
fn struct_field_order_does_not_matter() {
    let ab = struct_of(vec![("a", int_element(1)), ("b", int_element(2))]);
    let ba = struct_of(vec![("b", int_element(2)), ("a", int_element(1))]);
    assert!(ab == ba);
    assert!(ba == ab);
}

#[test]
fn struct_multiplicities_matter() {
    let once = struct_of(vec![("a", int_element(1)), ("b", int_element(1))]);
    let twice = struct_of(vec![("a", int_element(1)), ("a", int_element(1))]);
    assert!(!(once == twice));
    let short = struct_of(vec![("a", int_element(1))]);
    assert!(!(short == twice));
}

#[test]
fn get_returns_last_and_get_all_returns_in_order() {
    let s = struct_of(vec![("a", int_element(1)), ("b", int_element(7)), ("a", int_element(2))]);
    assert_eq!(as_i64(s.get(&sym("a")).unwrap()), 2);
    let all: Vec<i64> = s.get_all(&sym("a")).iter().map(|e| as_i64(e)).collect();
    assert_eq!(all, vec![1, 2]);
    assert_eq!(as_i64(s.get(&sym("b")).unwrap()), 7);
    assert!(s.get(&sym("c")).is_none());
    assert!(s.get_all(&sym("c")).is_empty());
    assert_eq!(s.len(), 3);
    assert!(!s.is_empty());
}

#[test]
fn unknown_text_names_share_one_lookup() {
    let s = Struct::builder()
        .with_field(Symbol::unknown_text(), int_element(1))
        .with_field(sym("a"), int_element(2))
        .with_field(Symbol::unknown_text(), int_element(3))
        .build();
    let unknown: Vec<i64> = s.get_all(&Symbol::unknown_text()).iter().map(|e| as_i64(e)).collect();
    assert_eq!(unknown, vec![1, 3]);
    assert_eq!(as_i64(s.get(&Symbol::unknown_text()).unwrap()), 3);
    assert_eq!(as_i64(s.get(&sym("a")).unwrap()), 2);
}

#[test]
fn fields_keep_insertion_order() {
    let s = struct_of(vec![("z", int_element(1)), ("y", int_element(2)), ("z", int_element(3))]);
    let names: Vec<String> = s.fields().iter().map(|(n, _)| n.text().unwrap().to_string()).collect();
    assert_eq!(names, vec!["z", "y", "z"]);
    let empty = Struct::builder().build();
    assert!(empty.is_empty());
    assert_eq!(empty.len(), 0);
}

#[test]
fn read_first_of_empty_input_is_no_value() {
    let r = Element::read_first(Decoded { values: vec![], failure: None });
    assert!(matches!(r, Ok(None)));
    let r = Element::read_first(Decoded { values: vec![int_element(5), int_element(6)], failure: None });
    assert_eq!(as_i64(&r.unwrap().unwrap()), 5);
    let r = Element::read_first(Decoded {
        values: vec![],
        failure: Some(IonError::Decoding("bad".to_string())),
    });
    assert!(matches!(r, Err(IonError::Decoding(_))));
}

#[test]
fn read_one_counts_values() {
    let r = Element::read_one(Decoded { values: vec![int_element(1), int_element(2)], failure: None });
    assert!(matches!(r, Err(IonError::Cardinality)));
    let r = Element::read_one(Decoded { values: vec![], failure: None });
    assert!(matches!(r, Err(IonError::Cardinality)));
    let r = Element::read_one(Decoded { values: vec![int_element(9)], failure: None });
    assert_eq!(as_i64(&r.unwrap()), 9);
    let r = Element::read_one(Decoded {
        values: vec![int_element(9)],
        failure: Some(IonError::Decoding("bad".to_string())),
    });
    assert!(matches!(r, Err(IonError::Decoding(_))));
}

#[test]
fn read_all_fails_whole_on_error() {
    let r = Element::read_all(Decoded {
        values: vec![int_element(1), int_element(2)],
        failure: Some(IonError::Decoding("malformed".to_string())),
    });
    assert!(matches!(r, Err(IonError::Decoding(_))));
    let r = Element::read_all(Decoded { values: vec![int_element(1), int_element(2)], failure: None }).unwrap();
    assert_eq!(r.len(), 2);
    assert_eq!(as_i64(&r[1]), 2);
}

#[test]
fn list_clone_builder_round_trip() {
    let list = list_of(vec![int_element(1), int_element(2), int_element(3), Element::boolean(true), Element::boolean(false)]);
    let rebuilt = list.clone_builder().build();
    assert!(rebuilt == list);
    assert_eq!(rebuilt.len(), 5);
    assert_eq!(as_i64(rebuilt.get(2).unwrap()), 3);
    let extended = list.clone_builder().push(int_element(4)).build();
    assert_eq!(extended.len(), 6);
    assert!(!(extended == list));
}

#[test]
fn sexp_and_struct_clone_builder_round_trip() {
    let sexp = sexp_of(vec![int_element(1), Element::string("two")]);
    assert!(sexp.clone_builder().build() == sexp);
    let inner = list_of(vec![Element::boolean(true), Element::boolean(false)]);
    let s = struct_of(vec![("foo", int_element(1)), ("bar", int_element(2)), ("baz", Element::from_value(Value::List(inner)))]);
    let rebuilt = s.clone_builder().build();
    assert!(rebuilt == s);
    assert_eq!(rebuilt.len(), 3);
}

#[test]
fn clone_of_nested_element_is_equal() {
    let inner = struct_of(vec![("k", Element::string("v"))]);
    let e = Element::new(vec![sym("ann")], Value::Struct(inner));
    let copy = e.clone();
    assert!(copy == e);
    assert!(copy.has_annotation("ann"));
}

#[test]
fn annotations_are_part_of_equality() {
    let annotated = int_element(1).with_annotations(vec![sym("x")]);
    assert!(annotated != int_element(1));
    assert!(annotated == int_element(1).with_annotations(vec![sym("x")]));
    assert!(!annotated.ion_eq(&int_element(1)));
    let two = int_element(1).with_annotations(vec![sym("x"), sym("y")]);
    let swapped = int_element(1).with_annotations(vec![sym("y"), sym("x")]);
    assert!(two != swapped);
}

#[test]
fn integers_compare_by_value_across_forms() {
    let small = Int::I64(5);
    let big = Int::from_big_int(&BigInt::from(5));
    assert!(small.equals(&big));
    assert!(big.equals(&small));
    let other = Int::from_big_int(&BigInt::from(6));
    assert!(!small.equals(&other));
    let negative = Int::from_big_int(&BigInt::from(-5));
    assert!(!negative.equals(&small));
    assert!(negative.equals(&Int::I64(-5)));
    let huge = Int::from_big_int(&(BigInt::from(i64::MAX) * 4));
    assert!(!huge.equals(&Int::I64(i64::MAX)));
    assert!(Int::I64(i64::MIN).equals(&Int::from_big_int(&BigInt::from(i64::MIN))));
    assert!(Int::from_big_int(&BigInt::from(4294967296u64)).equals(&Int::I64(4294967296)));
    assert!(Element::integer(small) == Element::integer(Int::from_big_int(&BigInt::from(5))));
}

#[test]
fn decimal_representation_matters() {
    let one = Element::decimal(Decimal::new(1, 0));
    let one_point_zero = Element::decimal(Decimal::new(10, -1));
    assert!(one != one_point_zero);
    assert!(!one.ion_eq(&one_point_zero));
    assert!(Element::decimal(Decimal::new(0, 0)) != Element::decimal(Decimal::negative_zero(0)));
    assert!(one == Element::decimal(Decimal::new(1, 0)));
    assert!(one.ion_eq(&Element::decimal(Decimal::new(1, 0))));
}

#[test]
fn timestamp_equivalence_reads_significant_fields() {
    let a = Timestamp::with_ymd(2024, 5, 17);
    let mut b = a;
    b.hour = 13;
    assert!(Element::timestamp(a) != Element::timestamp(b));
    assert!(Element::timestamp(a).ion_eq(&Element::timestamp(b)));
    let year = Timestamp::with_year(2024);
    assert!(year.precision == TimestampPrecision::Year);
    assert!(!Element::timestamp(year).ion_eq(&Element::timestamp(a)));
}

#[test]
fn sequences_compare_in_order() {
    let a = list_of(vec![int_element(1), int_element(2)]);
    let b = list_of(vec![int_element(2), int_element(1)]);
    assert!(!(a == b));
    assert!(!a.ion_eq(&b));
    let nan_list = list_of(vec![float(f64::NAN)]);
    let nan_list2 = list_of(vec![float(f64::NAN)]);
    assert!(nan_list.ion_eq(&nan_list2));
    assert!(!(nan_list == nan_list2));
    let l = Element::from_value(Value::List(list_of(vec![int_element(1)])));
    let s = Element::from_value(Value::SExp(sexp_of(vec![int_element(1)])));
    assert!(l != s);
    assert!(!l.ion_eq(&s));
    assert!(vec![int_element(1), float(f64::NAN)].ion_eq(&vec![int_element(1), float(f64::NAN)]));
}

#[test]
fn container_lengths() {
    let s = Element::from_value(Value::Struct(struct_of(vec![
        ("greetings", Element::string("hello")),
        ("name", Element::string("Ion")),
    ])));
    assert_eq!(s.ion_type(), IonType::Struct);
    assert_eq!(s.as_struct().unwrap().len(), 2);
    let l = Element::from_value(Value::List(list_of(vec![Element::string("greetings"), int_element(5), Element::boolean(true)])));
    assert_eq!(l.as_sequence().unwrap().len(), 3);
    let x = Element::from_value(Value::SExp(sexp_of(vec![int_element(5), Element::boolean(true)])));
    assert_eq!(x.as_sequence().unwrap().len(), 2);
    assert!(!x.as_sequence().unwrap().is_empty());
    let empty = Element::from_value(Value::List(list_of(vec![])));
    assert!(empty.as_sequence().unwrap().is_empty());
    assert!(empty.as_list().unwrap().is_empty());
    let empty_sexp = Element::from_value(Value::SExp(sexp_of(vec![])));
    assert!(empty_sexp.as_sexp().unwrap().is_empty());
    assert!(list_of(vec![int_element(1)]).get(1).is_none());
}

#[test]
fn typed_accessors() {
    let s = Element::string("hello");
    assert_eq!(s.as_text(), Some("hello"));
    assert_eq!(s.as_string(), Some("hello"));
    assert!(s.as_symbol().is_none());
    let y = Element::symbol(sym("hello"));
    assert_eq!(y.as_text(), Some("hello"));
    assert!(y.as_string().is_none());
    assert!(Element::symbol(Symbol::unknown_text()).as_text().is_none());
    assert!(s != y);
    assert!(Element::string("hello") == s);
    assert_eq!(Element::boolean(true).as_bool(), Some(true));
    assert!(int_element(3).as_bool().is_none());
    assert_eq!(Element::blob(&[1, 2, 3]).as_lob(), Some(&[1u8, 2, 3][..]));
    assert_eq!(Element::clob(&[4]).as_clob(), Some(&[4u8][..]));
    assert!(Element::clob(&[4]).as_blob().is_none());
    assert!(Element::blob(&[4]) != Element::clob(&[4]));
    assert_eq!(float(2.5).as_float().map(|f| f64::from_bits(f.to_bits())), Some(2.5));
    assert!(Element::null(IonType::Int).is_null());
    assert_eq!(Element::null(IonType::Int).ion_type(), IonType::Int);
    assert!(Element::null(IonType::Int) != Element::null(IonType::String));
    assert!(!int_element(0).is_null());
    assert_eq!(int_element(0).ion_type(), IonType::Int);
    assert_eq!(Element::decimal(Decimal::new(-15, -1)).as_decimal().unwrap().magnitude, 15);
    assert_eq!(Element::timestamp(Timestamp::with_year(2001)).as_timestamp().unwrap().year, 2001);
}

#[test]
fn annotations_lookup() {
    let e = Element::boolean(true).with_annotations(vec![sym("foo"), Symbol::unknown_text(), sym("bar")]);
    assert!(e.has_annotation("foo"));
    assert!(e.has_annotation("bar"));
    assert!(!e.has_annotation("baz"));
    assert_eq!(e.annotations().len(), 3);
    assert!(matches!(e.value(), Value::Bool(true)));
    let builder: ListBuilder = Element::list_builder();
    assert_eq!(builder.build().len(), 0);
    assert_eq!(Element::sexp_builder().build().len(), 0);
    assert_eq!(Element::struct_builder().build().len(), 0);
}

#[test]
fn host_values_take_annotations() {
    let annotated = 1i64.with_annotations(vec![sym("x")]);
    assert!(annotated != int_element(1));
    assert!(annotated == 1i64.with_annotations(vec![sym("x")]));
    assert!(annotated == int_element(1).with_annotations(vec![sym("x")]));
    let flag = true.with_annotations(vec![sym("foo"), sym("bar")]);
    assert!(flag.has_annotation("bar"));
    assert_eq!(flag.as_bool(), Some(true));
    let v = Value::Symbol(sym("s")).with_annotations(vec![]);
    assert_eq!(v.as_text(), Some("s"));
    assert!(Int::I64(3).with_annotations(vec![]) == int_element(3));
    assert!(sym("t").with_annotations(vec![]) == Element::symbol(sym("t")));
}

#[test]
fn big_integers_from_digits() {
    let five = Int::BigInt(BigInteger::from_digits(false, vec![5, 0, 0]));
    assert!(five.equals(&Int::I64(5)));
    let two_pow_32 = Int::BigInt(BigInteger::from_digits(false, vec![0, 1]));
    assert!(two_pow_32.equals(&Int::I64(4294967296)));
    assert!(two_pow_32.equals(&Int::from_big_int(&BigInt::from(4294967296u64))));
    let minus = Int::BigInt(BigInteger::from_digits(true, vec![830850304, 26]));
    assert!(minus.equals(&Int::I64(-112500000000)));
    assert!(minus.equals(&Int::from_big_int(&BigInt::from(-112500000000i64))));
    let negative_zero = Int::BigInt(BigInteger::from_digits(true, vec![0]));
    assert!(negative_zero.equals(&Int::I64(0)));
    assert!(!five.equals(&Int::I64(-5)));
}
