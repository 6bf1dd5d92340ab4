//! Search criteria: how one field takes part in a search, and how a criterion
//! is read from the value of a query parameter.

use crate::errors::{WebdevError, WebdevErrorKind};
use crate::text::{chars_of, is_unsigned, parse_unsigned, same_text, unsigned_value};
use vstd::prelude::*;

verus! {

/// How one field takes part in a search.
#[derive(Debug, PartialEq, Eq)]
pub enum Search<T> {
    /// The field begins with the value; on a number, the field equals it.
    Partial(T),
    /// The field equals the value.
    Exact(T),
    /// The field is not looked at.
    NoSearch,
}

/// How one field that may be absent takes part in a search.
#[derive(Debug, PartialEq, Eq)]
pub enum NullableSearch<T> {
    /// The field is present and begins with the value.
    Partial(T),
    /// The field is present and equals the value.
    Exact(T),
    /// The field is present.
    NotNull,
    /// The field is absent.
    Null,
    /// The field is not looked at.
    NoSearch,
}

impl<T: View> View for Search<T> {
    type V = Search<T::V>;

    open spec fn view(&self) -> Search<T::V> {
        match self {
            Search::Partial(value) => Search::Partial(value@),
            Search::Exact(value) => Search::Exact(value@),
            Search::NoSearch => Search::NoSearch,
        }
    }
}

impl<T: View> View for NullableSearch<T> {
    type V = NullableSearch<T::V>;

    open spec fn view(&self) -> NullableSearch<T::V> {
        match self {
            NullableSearch::Partial(value) => NullableSearch::Partial(value@),
            NullableSearch::Exact(value) => NullableSearch::Exact(value@),
            NullableSearch::NotNull => NullableSearch::NotNull,
            NullableSearch::Null => NullableSearch::Null,
            NullableSearch::NoSearch => NullableSearch::NoSearch,
        }
    }
}

/// A type of value that a criterion can carry, with the way it is read from text.
pub trait QueryValue: View + Sized {
    /// The value that `text` writes, if it writes one.
    spec fn parsed(text: Seq<char>) -> Option<Self::V>;

    fn parse(text: &str) -> (value: Option<Self>)
        ensures
            match value {
                Some(v) => Self::parsed(text@) == Some(v@),
                None => Self::parsed(text@) is None,
            },
    ;
}

impl QueryValue for String {
    /// Every text is a string.
    open spec fn parsed(text: Seq<char>) -> Option<Seq<char>> {
        Some(text)
    }

    fn parse(text: &str) -> (value: Option<String>) {
        Some(text.to_owned())
    }
}

impl QueryValue for u64 {
    /// An unsigned decimal literal that fits 64 bits.
    open spec fn parsed(text: Seq<char>) -> Option<u64> {
        if is_unsigned(text, u64::MAX as nat) {
            Some(unsigned_value(text) as u64)
        } else {
            None
        }
    }

    fn parse(text: &str) -> (value: Option<u64>) {
        let chars = chars_of(text);
        parse_unsigned(&chars, u64::MAX)
    }
}

impl QueryValue for u32 {
    /// An unsigned decimal literal that fits 32 bits.
    open spec fn parsed(text: Seq<char>) -> Option<u32> {
        if is_unsigned(text, u32::MAX as nat) {
            Some(unsigned_value(text) as u32)
        } else {
            None
        }
    }

    fn parse(text: &str) -> (value: Option<u32>) {
        let chars = chars_of(text);
        match parse_unsigned(&chars, 0xffff_ffff) {
            Some(wide) => Some(wide as u32),
            None => None,
        }
    }
}

/// The marker that, at the end of a parameter's value, asks for a prefix match.
pub open spec fn wildcard() -> char {
    '*'
}

/// The value that asks for an absent field.
pub open spec fn null_token() -> Seq<char> {
    seq!['n', 'u', 'l', 'l']
}

/// The value that asks for a present field.
pub open spec fn not_null_token() -> Seq<char> {
    seq!['~', 'n', 'u', 'l', 'l']
}

impl<T: QueryValue> Search<T> {
    /// The criterion that a parameter's value writes: a value that ends in the
    /// wildcard asks for a prefix match on what stands before it, any other
    /// value for an exact match. `None` where the value cannot be read as a `T`.
    pub open spec fn parsed(text: Seq<char>) -> Option<Search<T::V>> {
        if text.len() > 0 && text.last() == wildcard() {
            match T::parsed(text.drop_last()) {
                Some(value) => Some(Search::Partial(value)),
                None => None,
            }
        } else {
            match T::parsed(text) {
                Some(value) => Some(Search::Exact(value)),
                None => None,
            }
        }
    }

    /// Reads a criterion from the value of a query parameter.
    pub fn from_query(query: &str) -> (result: Result<Search<T>, WebdevError>)
        ensures
            match result {
                Ok(search) => Self::parsed(query@) == Some(search@),
                Err(error) => Self::parsed(query@) is None && error.kind
                    == WebdevErrorKind::Format,
            },
    {
        let chars = chars_of(query);
        let n = chars.len();
        if n > 0 && chars[n - 1] == '*' {
            let head = query.substring_char(0, n - 1);
            assert(head@ =~= query@.drop_last());
            match T::parse(head) {
                Some(value) => Ok(Search::Partial(value)),
                None => Err(WebdevError::new(WebdevErrorKind::Format)),
            }
        } else {
            match T::parse(query) {
                Some(value) => Ok(Search::Exact(value)),
                None => Err(WebdevError::new(WebdevErrorKind::Format)),
            }
        }
    }
}

impl<T: QueryValue> NullableSearch<T> {
    /// The criterion that a parameter's value writes: the two reserved values
    /// come first, every other value is read as for a field that is always present.
    pub open spec fn parsed(text: Seq<char>) -> Option<NullableSearch<T::V>> {
        if text == null_token() {
            Some(NullableSearch::Null)
        } else if text == not_null_token() {
            Some(NullableSearch::NotNull)
        } else {
            match Search::<T>::parsed(text) {
                Some(Search::Partial(value)) => Some(NullableSearch::Partial(value)),
                Some(Search::Exact(value)) => Some(NullableSearch::Exact(value)),
                Some(Search::NoSearch) => Some(NullableSearch::NoSearch),
                None => None,
            }
        }
    }

    /// Reads a criterion from the value of a query parameter.
    pub fn from_query(query: &str) -> (result: Result<NullableSearch<T>, WebdevError>)
        ensures
            match result {
                Ok(search) => Self::parsed(query@) == Some(search@),
                Err(error) => Self::parsed(query@) is None && error.kind
                    == WebdevErrorKind::Format,
            },
    {
        proof {
            reveal_strlit("null");
            reveal_strlit("~null");
            assert("null"@ =~= null_token());
            assert("~null"@ =~= not_null_token());
        }
        if same_text(query, "null") {
            Ok(NullableSearch::Null)
        } else if same_text(query, "~null") {
            Ok(NullableSearch::NotNull)
        } else {
            match Search::<T>::from_query(query) {
                Ok(Search::Partial(value)) => Ok(NullableSearch::Partial(value)),
                Ok(Search::Exact(value)) => Ok(NullableSearch::Exact(value)),
                Ok(Search::NoSearch) => Ok(NullableSearch::NoSearch),
                Err(error) => Err(error),
            }
        }
    }
}

} // verus!
