//! The structured records that the extractor produces and the emitter
//! consumes: one class per qualifying source text, with its exposed fields
//! and methods in source order.

use vstd::prelude::*;

verus! {

/// One parameter of an extracted method: a `(type, name)` pair.
#[derive(Debug, Clone)]
pub struct ApexParameter {
    pub name: String,
    pub param_type: String,
}

/// Mathematical image of an [`ApexParameter`].
pub ghost struct ParamView {
    pub name: Seq<char>,
    pub param_type: Seq<char>,
}

impl View for ApexParameter {
    type V = ParamView;

    open spec fn view(&self) -> ParamView {
        ParamView { name: self.name@, param_type: self.param_type@ }
    }
}

/// One exposed field of an extracted class.  `is_optional` is reserved for
/// a future nullable marker and is always `false` today.
#[derive(Debug, Clone)]
pub struct ApexField {
    pub name: String,
    pub field_type: String,
    pub is_optional: bool,
}

/// Mathematical image of an [`ApexField`].
pub ghost struct FieldView {
    pub name: Seq<char>,
    pub field_type: Seq<char>,
    pub is_optional: bool,
}

impl View for ApexField {
    type V = FieldView;

    open spec fn view(&self) -> FieldView {
        FieldView {
            name: self.name@,
            field_type: self.field_type@,
            is_optional: self.is_optional,
        }
    }
}

/// One exposed method of an extracted class.
#[derive(Debug, Clone)]
pub struct ApexMethod {
    pub name: String,
    pub return_type: String,
    pub parameters: Vec<ApexParameter>,
    pub is_static: bool,
}

/// Mathematical image of an [`ApexMethod`].
pub ghost struct MethodView {
    pub name: Seq<char>,
    pub return_type: Seq<char>,
    pub parameters: Seq<ParamView>,
    pub is_static: bool,
}

impl View for ApexMethod {
    type V = MethodView;

    open spec fn view(&self) -> MethodView {
        MethodView {
            name: self.name@,
            return_type: self.return_type@,
            parameters: self.parameters@.map_values(|p: ApexParameter| p@),
            is_static: self.is_static,
        }
    }
}

/// One class that carried the inclusion marker, with its exposed members
/// in source order.
#[derive(Debug, Clone)]
pub struct ApexClass {
    pub name: String,
    pub fields: Vec<ApexField>,
    pub methods: Vec<ApexMethod>,
}

/// Mathematical image of an [`ApexClass`].
pub ghost struct ClassView {
    pub name: Seq<char>,
    pub fields: Seq<FieldView>,
    pub methods: Seq<MethodView>,
}

impl View for ApexClass {
    type V = ClassView;

    open spec fn view(&self) -> ClassView {
        ClassView {
            name: self.name@,
            fields: self.fields@.map_values(|f: ApexField| f@),
            methods: self.methods@.map_values(|m: ApexMethod| m@),
        }
    }
}

} // verus!
