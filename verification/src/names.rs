//! The names of variables and functions, as the source of a program gives
//! them.

use vstd::prelude::*;

use crate::text;

verus! {

/// The name of a variable or of a function that is no primitive.
#[derive(Debug, Clone, Copy)]
pub enum Local<'a> {
    /// A name that the program gives.
    Name(&'a str),
    /// The name `_`, which binds nothing.
    Wildcard,
    /// A name that a stage of the compiler made up.
    Temp(usize),
}

impl<'a> Local<'a> {
    /// The name as it is written: the name itself, `_`, or `#` and the
    /// number of a made-up name.
    pub open spec fn text(self) -> Seq<char> {
        match self {
            Local::Name(name) => name@,
            Local::Wildcard => "_"@,
            Local::Temp(id) => "#"@ + text::letters(text::numeral(id as nat, 10)),
        }
    }

    /// The name as it is written.
    pub fn to_string(&self) -> (s: String)
        ensures
            s@ == self.text(),
    {
        match self {
            Local::Name(name) => (*name).to_owned(),
            Local::Wildcard => "_".to_owned(),
            Local::Temp(id) => {
                let mut s = "#".to_owned();
                text::append_index(&mut s, *id);
                s
            },
        }
    }

    /// Whether two names are given names with the same letters.
    pub open spec fn same(self, other: Self) -> bool {
        self matches Local::Name(n1) && other matches Local::Name(n2) && n1@ == n2@
    }
}

impl<'a> PartialEq for Local<'a> {
    /// Two names are equal where both are given by the program and are the
    /// same. The wildcard and the made-up names equal nothing, not even
    /// themselves.
    fn eq(&self, other: &Self) -> (equal: bool) {
        match (self, other) {
            (Local::Name(n1), Local::Name(n2)) => (*n1).to_owned() == (*n2).to_owned(),
            _ => false,
        }
    }
}

impl<'a> vstd::std_specs::cmp::PartialEqSpecImpl for Local<'a> {
    open spec fn obeys_eq_spec() -> bool {
        true
    }

    open spec fn eq_spec(&self, other: &Self) -> bool {
        self.same(*other)
    }
}

impl<'a> Eq for Local<'a> {

}

} // verus!
