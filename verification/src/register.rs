//! The per-register generation plan: the names of the register's value,
//! snapshot-reader and staged-writer types, the variant type definitions
//! of its enumerated fields, and one codec per field.
//!
//! Access modes gate what exists: a write-only register gets no snapshot
//! reader, a read-only register gets no staged writer, and each field's
//! effective capability is the register's mode narrowed by the field's
//! own.

use vstd::prelude::*;

use crate::GenError;
use crate::codec::{
    enum_base_name_of, field_type, mask_of, field_mask, selected_field_type, width_supported,
    FieldType,
};
use crate::model::{Access, Field, Register};
use crate::names::{
    field_accessor_name, field_setter_name, pascal_case_of, register_getter_name,
    register_type_name, register_updater_name, snake_case_of, to_pascal_case,
};

verus! {

/// One variant of a generated enumerated value type.
#[derive(Debug, PartialEq)]
pub struct EnumVariant {
    /// The variant's name in PascalCase.
    pub name: String,
    /// The raw field value the variant stands for.
    pub value: u32,
}

/// The generated variant type of one enumerated field.
#[derive(Debug, PartialEq)]
pub struct EnumDef {
    /// The type's name in PascalCase.
    pub ty_name: String,
    pub variants: Vec<EnumVariant>,
}

/// The generated codec of one field: accessor names, value type, bit
/// position, the generation-time mask literal, and the field's effective
/// capabilities.
#[derive(Debug, PartialEq)]
pub struct FieldCodec {
    /// The accessor name: the field's name in snake_case.
    pub name: String,
    /// The setter name: `set_` before the accessor name.
    pub setter_name: String,
    /// The type the accessors traffic in.
    pub ty: FieldType,
    /// Index of the lowest bit of the field.
    pub offset: u32,
    /// Number of bits in the field.
    pub width: u32,
    /// The mask literal of the field's width.
    pub mask: u64,
    /// Whether a getter is generated: neither the register nor the field
    /// is write-only.
    pub readable: bool,
    /// Whether a setter is generated: neither the register nor the field
    /// is read-only.
    pub writable: bool,
}

/// The full generation plan of one register.
#[derive(Debug, PartialEq)]
pub struct RegisterPlan {
    /// The register value type's name: the register's name in PascalCase.
    pub ty_name: String,
    /// The snapshot-reader type's name; absent for a write-only register.
    pub getter_name: Option<String>,
    /// The staged-writer type's name; absent for a read-only register.
    pub updater_name: Option<String>,
    /// One variant type per enumerated field, in field order.
    pub enum_defs: Vec<EnumDef>,
    /// One codec per field, in field order.
    pub fields: Vec<FieldCodec>,
}

/// Whether a field of a register with access mode `reg_access` decodes:
/// neither the register nor the field is write-only.
pub open spec fn field_readable(reg_access: Option<Access>, f: Field) -> bool {
    reg_access != Some(Access::WriteOnly) && f.access != Some(Access::WriteOnly)
}

/// Whether a field of a register with access mode `reg_access` encodes:
/// neither the register nor the field is read-only.
pub open spec fn field_writable(reg_access: Option<Access>, f: Field) -> bool {
    reg_access != Some(Access::ReadOnly) && f.access != Some(Access::ReadOnly)
}

/// Whether `c` is the codec generated for the field `f` of a register
/// with access mode `reg_access`.
pub open spec fn field_codec_matches(f: Field, reg_access: Option<Access>, c: FieldCodec) -> bool {
    &&& c.name@ == snake_case_of(f.name@)
    &&& c.setter_name@ == "set_"@ + snake_case_of(f.name@)
    &&& selected_field_type(f, c.ty)
    &&& c.offset == f.bit_range.offset
    &&& c.width == f.bit_range.width
    &&& c.mask == mask_of(f.bit_range.width as u64)
    &&& c.readable == field_readable(reg_access, f)
    &&& c.writable == field_writable(reg_access, f)
}

/// Whether `d` is the variant type definition generated for the
/// enumerated field `f`.
pub open spec fn enum_def_matches(f: Field, d: EnumDef) -> bool {
    &&& f.enumerated_values is Some
    &&& d.ty_name@ == pascal_case_of(enum_base_name_of(f))
    &&& d.variants@.len() == f.enumerated_values->0.values@.len()
    &&& forall|i: int|
        0 <= i < d.variants@.len() ==> (#[trigger] d.variants@[i]).name@ == pascal_case_of(
            f.enumerated_values->0.values@[i].name@,
        ) && d.variants@[i].value == f.enumerated_values->0.values@[i].value
}

/// The subsequence of a register's fields that carry enumerated values,
/// in field order.
pub open spec fn enumerated_fields(fs: Seq<Field>) -> Seq<Field>
    decreases fs.len(),
{
    if fs.len() == 0 {
        Seq::empty()
    } else {
        let rest = enumerated_fields(fs.drop_last());
        if fs.last().enumerated_values is Some {
            rest.push(fs.last())
        } else {
            rest
        }
    }
}

/// Whether every field of a register has a supported bit width.
pub open spec fn register_widths_supported(reg: Register) -> bool {
    match reg.fields {
        None => true,
        Some(fs) => forall|i: int|
            0 <= i < fs@.len() ==> width_supported((#[trigger] fs@[i]).bit_range.width),
    }
}

/// Whether `p` is the generation plan of the register `reg`.
pub open spec fn register_plan_matches(reg: Register, p: RegisterPlan) -> bool {
    &&& p.ty_name@ == pascal_case_of(reg.name@)
    &&& (p.getter_name is Some <==> reg.access != Some(Access::WriteOnly))
    &&& (p.getter_name matches Some(n) ==> n@ == pascal_case_of(reg.name@) + "Get"@)
    &&& (p.updater_name is Some <==> reg.access != Some(Access::ReadOnly))
    &&& (p.updater_name matches Some(n) ==> n@ == pascal_case_of(reg.name@) + "Update"@)
    &&& match reg.fields {
        None => p.fields@.len() == 0 && p.enum_defs@.len() == 0,
        Some(fs) => {
            &&& p.fields@.len() == fs@.len()
            &&& (forall|i: int|
                0 <= i < fs@.len() ==> field_codec_matches(
                    fs@[i],
                    reg.access,
                    #[trigger] p.fields@[i],
                ))
            &&& p.enum_defs@.len() == enumerated_fields(fs@).len()
            &&& (forall|i: int|
                0 <= i < p.enum_defs@.len() ==> enum_def_matches(
                    enumerated_fields(fs@)[i],
                    #[trigger] p.enum_defs@[i],
                ))
        },
    }
}

/// Builds the codec of one field of a register with access mode
/// `reg_access`. Fails exactly on an unsupported bit width.
pub fn field_codec(f: &Field, reg_access: Option<Access>) -> (r: Result<FieldCodec, GenError>)
    ensures
        r is Ok <==> width_supported(f.bit_range.width),
        r is Err ==> r == Err::<FieldCodec, GenError>(GenError::UnsupportedBitWidth),
        r matches Ok(c) ==> field_codec_matches(*f, reg_access, c),
{
    let ty = match field_type(f) {
        Ok(t) => t,
        Err(e) => {
            return Err(e);
        },
    };
    let w = f.bit_range.width;
    Ok(
        FieldCodec {
            name: field_accessor_name(f.name.as_str()),
            setter_name: field_setter_name(f.name.as_str()),
            ty,
            offset: f.bit_range.offset,
            width: w,
            mask: field_mask(w as u64),
            readable: !matches!(reg_access, Some(Access::WriteOnly)) && !matches!(
                f.access,
                Some(Access::WriteOnly),
            ),
            writable: !matches!(reg_access, Some(Access::ReadOnly)) && !matches!(
                f.access,
                Some(Access::ReadOnly),
            ),
        },
    )
}

/// Builds the variant type definition of a field: one variant per
/// enumerated value, named in PascalCase; nothing for a field without
/// enumerated values.
pub fn enum_def(f: &Field) -> (r: Option<EnumDef>)
    ensures
        r is Some <==> f.enumerated_values is Some,
        r matches Some(d) ==> enum_def_matches(*f, d),
{
    let ev = match f.enumerated_values.as_ref() {
        Some(ev) => ev,
        None => {
            return None;
        },
    };
    let base = match ev.name.as_ref() {
        Some(n) => n.as_str(),
        None => f.name.as_str(),
    };
    let ty_name = to_pascal_case(base);
    let mut variants: Vec<EnumVariant> = Vec::new();
    let mut i: usize = 0;
    while i < ev.values.len()
        invariant
            i <= ev.values@.len(),
            variants@.len() == i,
            forall|j: int|
                0 <= j < i ==> (#[trigger] variants@[j]).name@ == pascal_case_of(
                    ev.values@[j].name@,
                ) && variants@[j].value == ev.values@[j].value,
        decreases ev.values@.len() - i,
    {
        let v = EnumVariant {
            name: to_pascal_case(ev.values[i].name.as_str()),
            value: ev.values[i].value,
        };
        variants.push(v);
        i = i + 1;
    }
    Some(EnumDef { ty_name, variants })
}

/// Builds the full generation plan of one register: the type names its
/// access mode calls for, a codec per field, and a variant type per
/// enumerated field. Fails exactly when some field has an unsupported
/// bit width.
pub fn register_plan(reg: &Register) -> (r: Result<RegisterPlan, GenError>)
    ensures
        r is Ok <==> register_widths_supported(*reg),
        r is Err ==> r == Err::<RegisterPlan, GenError>(GenError::UnsupportedBitWidth),
        r matches Ok(p) ==> register_plan_matches(*reg, p),
{
    let ty_name = register_type_name(reg.name.as_str());
    let getter_name = if !matches!(reg.access, Some(Access::WriteOnly)) {
        Some(register_getter_name(reg.name.as_str()))
    } else {
        None
    };
    let updater_name = if !matches!(reg.access, Some(Access::ReadOnly)) {
        Some(register_updater_name(reg.name.as_str()))
    } else {
        None
    };
    let mut fields: Vec<FieldCodec> = Vec::new();
    let mut enum_defs: Vec<EnumDef> = Vec::new();
    match reg.fields.as_ref() {
        None => {},
        Some(fs) => {
            let mut i: usize = 0;
            while i < fs.len()
                invariant
                    reg.fields is Some,
                    *fs == reg.fields->0,
                    i <= fs@.len(),
                    fields@.len() == i,
                    forall|j: int|
                        0 <= j < i ==> width_supported((#[trigger] fs@[j]).bit_range.width),
                    forall|j: int|
                        0 <= j < i ==> field_codec_matches(
                            fs@[j],
                            reg.access,
                            #[trigger] fields@[j],
                        ),
                    enum_defs@.len() == enumerated_fields(fs@.take(i as int)).len(),
                    forall|j: int|
                        0 <= j < enum_defs@.len() ==> enum_def_matches(
                            enumerated_fields(fs@.take(i as int))[j],
                            #[trigger] enum_defs@[j],
                        ),
                decreases fs@.len() - i,
            {
                let f = &fs[i];
                let codec = match field_codec(f, reg.access) {
                    Ok(c) => c,
                    Err(e) => {
                        proof {
                            assert(reg.fields->0 == *fs);
                            assert(!width_supported(fs@[i as int].bit_range.width));
                            assert(!register_widths_supported(*reg));
                        }
                        return Err(e);
                    },
                };
                fields.push(codec);
                let ghost prev_enumerated = enumerated_fields(fs@.take(i as int));
                proof {
                    assert(fs@.take(i + 1).drop_last() =~= fs@.take(i as int));
                    assert(fs@.take(i + 1).last() == fs@[i as int]);
                }
                match enum_def(f) {
                    Some(d) => {
                        enum_defs.push(d);
                        proof {
                            assert(enumerated_fields(fs@.take(i + 1)) == prev_enumerated.push(
                                fs@[i as int],
                            ));
                        }
                    },
                    None => {
                        proof {
                            assert(enumerated_fields(fs@.take(i + 1)) == prev_enumerated);
                        }
                    },
                }
                i = i + 1;
            }
            proof {
                assert(fs@.take(i as int) =~= fs@);
            }
        },
    }
    Ok(RegisterPlan { ty_name, getter_name, updater_name, enum_defs, fields })
}

} // verus!
