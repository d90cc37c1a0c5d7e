use vstd::prelude::*;
use crate::element::Element;

verus! {

/// Why reading elements failed.
#[derive(Debug)]
pub enum IonError {
    /// The input is not valid Ion.
    Decoding(String),
    /// The input holds a number of values other than the one expected.
    Cardinality,
}

/// What a decoder produced from an input: the values it decoded, in order,
/// and the error it stopped on, if it did not reach the end cleanly.
#[derive(Debug)]
pub struct Decoded {
    pub values: Vec<Element>,
    pub failure: Option<IonError>,
}

impl Element {
    /// The first value of the input: `Ok(None)` for an input with no values,
    /// the decoder's error if it failed before producing one.
    pub fn read_first(decoded: Decoded) -> (r: Result<Option<Element>, IonError>)
        ensures
            decoded.values@.len() > 0 ==> r == Ok::<Option<Element>, IonError>(
                Some(decoded.values@[0]),
            ),
            decoded.values@.len() == 0 ==> match decoded.failure {
                Some(e) => r == Err::<Option<Element>, IonError>(e),
                None => r == Ok::<Option<Element>, IonError>(None),
            },
    {
        let mut values = decoded.values;
        if values.len() > 0 {
            Ok(Some(values.remove(0)))
        } else {
            match decoded.failure {
                Some(e) => Err(e),
                None => Ok(None),
            }
        }
    }

    /// The single value of the input. An input with no value, or with more
    /// than one, gives `Cardinality`; a decoding error met before the second
    /// value is returned as it is.
    pub fn read_one(decoded: Decoded) -> (r: Result<Element, IonError>)
        ensures
            decoded.values@.len() >= 2 ==> r == Err::<Element, IonError>(IonError::Cardinality),
            decoded.values@.len() < 2 && decoded.failure is Some ==> r == Err::<Element, IonError>(
                decoded.failure->0,
            ),
            decoded.values@.len() == 0 && decoded.failure is None ==> r == Err::<
                Element,
                IonError,
            >(IonError::Cardinality),
            decoded.values@.len() == 1 && decoded.failure is None ==> r == Ok::<Element, IonError>(
                decoded.values@[0],
            ),
    {
        let mut values = decoded.values;
        if values.len() >= 2 {
            return Err(IonError::Cardinality);
        }
        match decoded.failure {
            Some(e) => Err(e),
            None => {
                if values.len() == 1 {
                    Ok(values.remove(0))
                } else {
                    Err(IonError::Cardinality)
                }
            },
        }
    }

    /// Every value of the input, in order, or the decoder's error if it
    /// failed anywhere: no partial result.
    pub fn read_all(decoded: Decoded) -> (r: Result<Vec<Element>, IonError>)
        ensures
            match decoded.failure {
                Some(e) => r == Err::<Vec<Element>, IonError>(e),
                None => r is Ok && r->Ok_0@ == decoded.values@,
            },
    {
        match decoded.failure {
            Some(e) => Err(e),
            None => Ok(decoded.values),
        }
    }
}

} // verus!
