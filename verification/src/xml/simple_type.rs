use crate::diagnostic::{ModelError, ModelErrorModel};
use crate::types::{type_of_kind, EnumImpl, EnumModel, TypeName};
use crate::xml::kind::{Kind, KindModel};
use vstd::prelude::*;

verus! {

/// A scalar type that is restricted to some values.
#[derive(Debug, PartialEq, Eq)]
pub struct SimpleType {
    pub name: String,
    pub restrictions: Vec<Restriction>,
}

/// The values that a simple type admits, and the type that they are taken
/// from.
#[derive(Debug, PartialEq, Eq)]
pub struct Restriction {
    pub base: Kind,
    pub enumerations: Vec<Enumeration>,
}

/// One admitted value.
#[derive(Debug, PartialEq, Eq)]
pub struct Enumeration {
    pub value: String,
}

/// What an [`Enumeration`] stands for.
pub struct EnumerationModel {
    pub value: Seq<char>,
}

impl View for Enumeration {
    type V = EnumerationModel;

    open spec fn view(&self) -> EnumerationModel {
        EnumerationModel { value: self.value@ }
    }
}

/// What a [`Restriction`] stands for.
pub struct RestrictionModel {
    pub base: KindModel,
    pub enumerations: Seq<EnumerationModel>,
}

impl View for Restriction {
    type V = RestrictionModel;

    open spec fn view(&self) -> RestrictionModel {
        RestrictionModel {
            base: self.base@,
            enumerations: self.enumerations@.map_values(|e: Enumeration| e@),
        }
    }
}

/// What a [`SimpleType`] stands for.
pub struct SimpleTypeModel {
    pub name: Seq<char>,
    pub restrictions: Seq<RestrictionModel>,
}

impl View for SimpleType {
    type V = SimpleTypeModel;

    open spec fn view(&self) -> SimpleTypeModel {
        SimpleTypeModel {
            name: self.name@,
            restrictions: self.restrictions@.map_values(|r: Restriction| r@),
        }
    }
}

/// The enumeration that a simple type with a restriction gives: its first
/// restriction decides, and the values keep their order.
pub open spec fn enum_of(simple: SimpleTypeModel) -> EnumModel
    recommends
        simple.restrictions.len() > 0,
{
    EnumModel {
        name: simple.name,
        base: type_of_kind(simple.restrictions[0].base),
        variants: simple.restrictions[0].enumerations.map_values(|e: EnumerationModel| e.value),
    }
}

/// What converting a simple type gives: its enumeration, or the error that
/// it has no restriction.
pub open spec fn enum_result(simple: SimpleTypeModel) -> Result<EnumModel, ModelErrorModel> {
    if simple.restrictions.len() == 0 {
        Err(ModelErrorModel::NoRestrictions(simple.name))
    } else {
        Ok(enum_of(simple))
    }
}

impl SimpleType {
    /// Converts the simple type into the enumeration of its values.
    pub fn into_enum_impl(self) -> (r: Result<EnumImpl, ModelError>)
        ensures
            match r {
                Ok(made) => enum_result(self@) == Ok::<EnumModel, ModelErrorModel>(made@),
                Err(error) => enum_result(self@) == Err::<EnumModel, ModelErrorModel>(error@),
            },
    {
        let name = self.name;
        let mut restrictions = self.restrictions;
        if restrictions.len() == 0 {
            return Err(ModelError::NoRestrictions(name));
        }
        let restriction = restrictions.remove(0);
        let ghost values = restriction.enumerations@;
        let base = TypeName::from(restriction.base);
        let mut variants: Vec<String> = Vec::new();
        for enumeration in it: restriction.enumerations
            invariant
                it.seq() == values,
                variants.len() == it.index(),
                forall|j: int| 0 <= j < it.index() ==> (#[trigger] variants@[j])@ == values[j].value@,
        {
            variants.push(enumeration.value);
        }
        let made = EnumImpl { name, base, variants };
        assert(made@.variants =~= enum_of(self@).variants);
        Ok(made)
    }
}

} // verus!
