use vstd::prelude::*;

verus! {

/// A symbol: either text that is known, or a symbol whose text is unknown.
///
/// Two symbols are equal when their text is equal; all symbols with unknown
/// text are equal to one another.
#[derive(Debug)]
pub struct Symbol {
    text: Option<String>,
}

impl View for Symbol {
    type V = Option<Seq<char>>;

    closed spec fn view(&self) -> Option<Seq<char>> {
        match self.text {
            Some(t) => Some(t@),
            None => None,
        }
    }
}

impl Symbol {
    /// A symbol with the given text.
    pub fn owned(text: &str) -> (r: Symbol)
        ensures
            r@ == Some(text@),
    {
        Symbol { text: Some(text.to_owned()) }
    }

    /// A symbol with the given text, taking ownership of the string.
    pub fn from_string(text: String) -> (r: Symbol)
        ensures
            r@ == Some(text@),
    {
        Symbol { text: Some(text) }
    }

    /// A symbol whose text is not known.
    pub fn unknown_text() -> (r: Symbol)
        ensures
            r@ == None::<Seq<char>>,
    {
        Symbol { text: None }
    }

    /// The text of this symbol, if it is known.
    pub fn text(&self) -> (r: Option<&str>)
        ensures
            match r {
                Some(t) => self@ == Some(t@),
                None => self@ == None::<Seq<char>>,
            },
    {
        match &self.text {
            Some(t) => Some(t.as_str()),
            None => None,
        }
    }

    /// True when this symbol's text is known and equals `text`.
    pub fn has_text(&self, text: &str) -> (r: bool)
        ensures
            r == (self@ == Some(text@)),
    {
        match &self.text {
            Some(t) => str_eq(t.as_str(), text),
            None => false,
        }
    }
}

/// Character-wise equality of two strings.
pub fn str_eq(a: &str, b: &str) -> (r: bool)
    ensures
        r == (a@ == b@),
{
    let a_len = a.unicode_len();
    let b_len = b.unicode_len();
    if a_len != b_len {
        return false;
    }
    let mut i: usize = 0;
    while i < a_len
        invariant
            a_len == a@.len(),
            b_len == b@.len(),
            a_len == b_len,
            i <= a_len,
            forall|j: int| 0 <= j < i ==> a@[j] == b@[j],
        decreases a_len - i,
    {
        if a.get_char(i) != b.get_char(i) {
            return false;
        }
        i = i + 1;
    }
    assert(a@ =~= b@);
    true
}

impl Clone for Symbol {
    fn clone(&self) -> (r: Self)
        ensures
            r == *self,
    {
        match &self.text {
            Some(t) => Symbol { text: Some(t.clone()) },
            None => Symbol { text: None },
        }
    }
}

impl PartialEq for Symbol {
    fn eq(&self, other: &Symbol) -> (r: bool) {
        match (&self.text, &other.text) {
            (Some(a), Some(b)) => str_eq(a.as_str(), b.as_str()),
            (None, None) => true,
            _ => false,
        }
    }
}

impl vstd::std_specs::cmp::PartialEqSpecImpl for Symbol {
    open spec fn obeys_eq_spec() -> bool {
        true
    }

    open spec fn eq_spec(&self, other: &Symbol) -> bool {
        self@ == other@
    }
}

impl Eq for Symbol {
}

} // verus!
