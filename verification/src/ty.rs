//! Static types, and the side table that gives each term its type.

use std::collections::HashMap;
use vstd::prelude::*;

use crate::ir::TermId;
use crate::names::Local;
use crate::text;

verus! {

/// The static type of a term.
#[derive(Debug, PartialEq, Eq)]
pub enum Ty {
    /// The type of booleans.
    Bool,
    /// The type of signed integers.
    Int,
    /// The unit type.
    Unit,
    /// The type of functions from the first type to the second.
    Arrow(Box<Ty>, Box<Ty>),
    /// A type variable that inference left unsolved.
    Var(usize),
}

impl Clone for Ty {
    fn clone(&self) -> (ty: Self)
        ensures
            ty == *self,
        decreases self,
    {
        match self {
            Ty::Bool => Ty::Bool,
            Ty::Int => Ty::Int,
            Ty::Unit => Ty::Unit,
            Ty::Arrow(from, to) => Ty::Arrow(Box::new((**from).clone()), Box::new((**to).clone())),
            Ty::Var(index) => Ty::Var(*index),
        }
    }
}

impl Ty {
    /// The type as it is written: `Bool`, `Int`, `Unit`, an arrow between the
    /// two sides of a function type, with the left side in brackets where it
    /// is a function type itself, and `?` with its number for a variable.
    pub open spec fn text(self) -> Seq<char>
        decreases self,
    {
        match self {
            Ty::Bool => "Bool"@,
            Ty::Int => "Int"@,
            Ty::Unit => "Unit"@,
            Ty::Arrow(from, to) => if *from is Arrow {
                "("@ + from.text() + ") -> "@ + to.text()
            } else {
                from.text() + " -> "@ + to.text()
            },
            Ty::Var(index) => "?"@ + text::letters(text::numeral(index as nat, 10)),
        }
    }

    /// The type as it is written.
    pub fn to_string(&self) -> (s: String)
        ensures
            s@ == self.text(),
        decreases self,
    {
        match self {
            Ty::Bool => "Bool".to_owned(),
            Ty::Int => "Int".to_owned(),
            Ty::Unit => "Unit".to_owned(),
            Ty::Arrow(from, to) => {
                let left = from.to_string();
                let right = to.to_string();
                let mut s = String::new();
                match **from {
                    Ty::Arrow(_, _) => {
                        s.append("(");
                        s.append(left.as_str());
                        s.append(") -> ");
                    },
                    _ => {
                        s.append(left.as_str());
                        s.append(" -> ");
                    },
                }
                s.append(right.as_str());
                assert(s@ =~= self.text());
                s
            },
            Ty::Var(index) => {
                let mut s = "?".to_owned();
                text::append_index(&mut s, *index);
                s
            },
        }
    }
}

/// A name together with its type.
#[derive(Debug, Clone, PartialEq, Eq)]
pub struct Binding<'a> {
    pub name: Local<'a>,
    pub ty: Ty,
}

/// The types that the earlier stages inferred, by term identifier.
pub struct Context {
    types: HashMap<u64, Ty>,
}

impl View for Context {
    type V = Map<TermId, Ty>;

    closed spec fn view(&self) -> Map<TermId, Ty> {
        Map::new(|id: TermId| self.types@.contains_key(id.0), |id: TermId| self.types@[id.0])
    }
}

impl Context {
    /// A context that knows no term.
    pub fn new() -> (ctx: Context)
        ensures
            ctx@ == Map::<TermId, Ty>::empty(),
    {
        let ctx = Context { types: HashMap::new() };
        assert(ctx@ =~= Map::<TermId, Ty>::empty());
        ctx
    }

    /// Records the type of a term, replacing what was known of it.
    pub fn insert_type_info(&mut self, id: TermId, ty: Ty)
        ensures
            final(self)@ == old(self)@.insert(id, ty),
    {
        self.types.insert(id.0, ty);
        assert(self@ =~= old(self)@.insert(id, ty));
    }

    /// The type of a term, if the context knows it.
    pub fn get_type_info(&self, id: TermId) -> (ty: Option<&Ty>)
        ensures
            ty == (if self@.contains_key(id) {
                Some(&self@[id])
            } else {
                None
            }),
    {
        self.types.get(&id.0)
    }
}

} // verus!
