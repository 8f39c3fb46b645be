//! The values read from one profile file, looked up by variable name.
//!
//! A reader fills a [`Container`] with what the file holds for its first
//! profile: dimension lengths, the raw bytes of text variables, integer
//! scalars, and numeric variables with their `units` and `long_name`
//! attributes. Lookups take the first entry with the requested name.
use vstd::prelude::*;

use crate::text::texts;
use crate::text::is_padding;
use crate::unpack::{
    bytes_of,
    first_byte_is,
    fixed_string,
    fixed_strings,
    unpack_fixed_string,
    unpack_fixed_string_array,
};

verus! {

/// A named value.
#[derive(Debug, Clone, PartialEq)]
pub struct Entry<V> {
    pub name: String,
    pub value: V,
}

/// A numeric variable: its values for the first profile, and its descriptive
/// attributes where present.
#[derive(Debug, Clone, PartialEq)]
pub struct NumericVariable<N> {
    pub values: Vec<N>,
    pub units: Option<String>,
    pub long_name: Option<String>,
}

/// The variables of one profile file.
#[derive(Debug, Clone, PartialEq)]
pub struct Container<N> {
    pub dimensions: Vec<Entry<usize>>,
    pub texts: Vec<Entry<Vec<u8>>>,
    pub integers: Vec<Entry<i32>>,
    pub numerics: Vec<Entry<NumericVariable<N>>>,
}

/// The value of the first entry named `name`.
pub open spec fn lookup<V>(entries: Seq<Entry<V>>, name: Seq<char>) -> Option<V>
    decreases entries.len(),
{
    if entries.len() == 0 {
        None
    } else if entries[0].name@ == name {
        Some(entries[0].value)
    } else {
        lookup(entries.drop_first(), name)
    }
}

/// The text of an optional string, empty where it is absent.
pub open spec fn text_or_empty(s: Option<String>) -> Seq<char> {
    match s {
        Some(t) => t@,
        None => Seq::empty(),
    }
}

/// The position of the first entry named `name`.
pub fn find<V>(entries: &Vec<Entry<V>>, name: &String) -> (r: Option<usize>)
    ensures
        match r {
            Some(k) => k < entries@.len() && lookup(entries@, name@) == Some(entries@[k as int].value),
            None => lookup(entries@, name@) is None,
        },
{
    let mut i: usize = 0;
    assert(entries@.subrange(0, entries@.len() as int) =~= entries@);
    while i < entries.len()
        invariant
            i <= entries@.len(),
            lookup(entries@, name@) == lookup(
                entries@.subrange(i as int, entries@.len() as int),
                name@,
            ),
        decreases entries@.len() - i,
    {
        if entries[i].name == *name {
            return Some(i);
        }
        assert(entries@.subrange(i as int, entries@.len() as int).drop_first() =~= entries@.subrange(
            i + 1,
            entries@.len() as int,
        ));
        i = i + 1;
    }
    None
}

impl<N> Container<N> {
    /// The raw bytes of the text variable `name`.
    pub open spec fn text_of(&self, name: Seq<char>) -> Option<Seq<u8>> {
        match lookup(self.texts@, name) {
            Some(b) => Some(b@),
            None => None,
        }
    }

    /// The value of the integer variable `name`, or `fallback`.
    pub open spec fn integer_or(&self, name: Seq<char>, fallback: i32) -> i32 {
        match lookup(self.integers@, name) {
            Some(v) => v,
            None => fallback,
        }
    }

    /// The first value of the numeric variable `name`, or `fallback` where it
    /// is absent or holds no value.
    pub open spec fn scalar_or(&self, name: Seq<char>, fallback: N) -> N {
        match lookup(self.numerics@, name) {
            Some(v) => if v.values@.len() > 0 {
                v.values@[0]
            } else {
                fallback
            },
            None => fallback,
        }
    }

    /// The length of the dimension `name`, if it is declared.
    pub fn dimension(&self, name: &str) -> (r: Option<usize>)
        ensures
            r == lookup(self.dimensions@, name@),
    {
        let key = String::from_str(name);
        match find(&self.dimensions, &key) {
            Some(k) => Some(self.dimensions[k].value),
            None => None,
        }
    }

    /// The raw bytes of the text variable `name`, if it is present.
    pub fn text_bytes(&self, name: &str) -> (r: Option<&[u8]>)
        ensures
            bytes_of(r) == self.text_of(name@),
    {
        let key = String::from_str(name);
        match find(&self.texts, &key) {
            Some(k) => Some(self.texts[k].value.as_slice()),
            None => None,
        }
    }

    /// The position of the numeric variable `name` in `numerics`.
    pub fn numeric_index(&self, name: &str) -> (r: Option<usize>)
        ensures
            match r {
                Some(k) => k < self.numerics@.len() && lookup(self.numerics@, name@) == Some(
                    self.numerics@[k as int].value,
                ),
                None => lookup(self.numerics@, name@) is None,
            },
    {
        let key = String::from_str(name);
        find(&self.numerics, &key)
    }

    /// Reads the fixed-width text variable `name` of `byte_width` bytes; an
    /// absent variable reads as the empty text.
    pub fn unpack_string(&self, name: &str, byte_width: usize) -> (r: String)
        ensures
            r@ == fixed_string(self.text_of(name@), byte_width as nat),
            r@.len() <= byte_width,
            r@.len() == 0 || !is_padding(r@.last()),
            byte_width == 1 ==> (r@ == seq!['R'] <==> first_byte_is(self.text_of(name@), 0x52u8)),
    {
        unpack_fixed_string(self.text_bytes(name), byte_width)
    }

    /// Reads the variable `name` as `count` fixed-width texts of `byte_width`
    /// bytes each; an absent variable reads as `count` empty texts.
    pub fn unpack_string_array(&self, name: &str, byte_width: usize, count: usize) -> (r: Vec<
        String,
    >)
        ensures
            r@.len() == count,
            texts(r@) == fixed_strings(self.text_of(name@), byte_width as nat, count as nat),
            forall|i: int|
                0 <= i < count ==> #[trigger] r@[i]@.len() <= byte_width && (r@[i]@.len() == 0
                    || !is_padding(r@[i]@.last())),
    {
        unpack_fixed_string_array(self.text_bytes(name), byte_width, count)
    }

    /// Reads the integer variable `name`, or `fallback` where it is absent.
    pub fn unpack_integer(&self, name: &str, fallback: i32) -> (r: i32)
        ensures
            r == self.integer_or(name@, fallback),
    {
        let key = String::from_str(name);
        match find(&self.integers, &key) {
            Some(k) => self.integers[k].value,
            None => fallback,
        }
    }

    /// Reads the first value of the numeric variable `name`, or `fallback`
    /// where it is absent or empty.
    pub fn unpack_scalar(&self, name: &str, fallback: N) -> (r: N)
        where
            N: Copy,
        ensures
            r == self.scalar_or(name@, fallback),
    {
        match self.numeric_index(name) {
            Some(k) => {
                if self.numerics[k].value.values.len() > 0 {
                    self.numerics[k].value.values[0]
                } else {
                    fallback
                }
            },
            None => fallback,
        }
    }
}

} // verus!
