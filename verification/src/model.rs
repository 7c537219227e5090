//! The model container: a named list of definitions, generic over the
//! definition body (structural model in, schema model out).

use vstd::prelude::*;

verus! {

/// An import of names from another module; carried through from the front
/// end and dropped by the schema compiler.
#[derive(Debug, PartialEq)]
pub struct Import {
    pub what: Vec<String>,
    pub from: String,
    pub from_oid: Option<String>,
}

/// Mathematical model of an [`Import`].
#[verifier::ext_equal]
pub struct ImportV {
    pub what: Seq<Seq<char>>,
    pub from: Seq<char>,
    pub from_oid: Option<Seq<char>>,
}

impl View for Import {
    type V = ImportV;

    open spec fn view(&self) -> ImportV {
        ImportV {
            what: self.what@.map_values(|w: String| w@),
            from: self.from@,
            from_oid: match self.from_oid {
                Some(ref s) => Some(s@),
                None => None,
            },
        }
    }
}

/// A named definition: a name together with a definition body.
#[derive(Debug, PartialEq)]
pub struct Definition<T>(pub String, pub T);

/// Mathematical model of a [`Definition`].
#[verifier::ext_equal]
pub struct DefinitionV<V> {
    pub name: Seq<char>,
    pub value: V,
}

impl<T: View> View for Definition<T> {
    type V = DefinitionV<T::V>;

    open spec fn view(&self) -> DefinitionV<T::V> {
        DefinitionV { name: self.0@, value: self.1@ }
    }
}

impl<T> Definition<T> {
    /// The definition's name.
    pub fn name(&self) -> (r: &String)
        ensures
            r == self.0,
    {
        &self.0
    }

    /// The definition's body.
    pub fn value(&self) -> (r: &T)
        ensures
            r == self.1,
    {
        &self.1
    }
}

/// A whole model: its name, its imports and its definitions in declared
/// order.
#[derive(Debug, PartialEq)]
pub struct Model<T> {
    pub name: String,
    pub imports: Vec<Import>,
    pub definitions: Vec<Definition<T>>,
}

/// Mathematical model of a [`Model`].
#[verifier::ext_equal]
pub struct ModelV<V> {
    pub name: Seq<char>,
    pub imports: Seq<ImportV>,
    pub definitions: Seq<DefinitionV<V>>,
}

impl<T: View> View for Model<T> {
    type V = ModelV<T::V>;

    open spec fn view(&self) -> ModelV<T::V> {
        ModelV {
            name: self.name@,
            imports: self.imports@.map_values(|i: Import| i@),
            definitions: self.definitions@.map_values(|d: Definition<T>| d@),
        }
    }
}

impl<T> Default for Model<T> {
    /// The empty, unnamed model.
    fn default() -> (r: Self)
        ensures
            r.name@ == Seq::<char>::empty(),
            r.imports@ == Seq::<Import>::empty(),
            r.definitions@ == Seq::<Definition<T>>::empty(),
    {
        Model { name: String::new(), imports: Vec::new(), definitions: Vec::new() }
    }
}

} // verus!
