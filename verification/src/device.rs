//! The device assembler: resolves peripheral aliasing, assigns link
//! symbols, and assembles the whole-device generation plan.
//!
//! A peripheral naming another through `derived_from` reuses that
//! peripheral's register layout at its own base address: no register or
//! field code is generated for it, only a link declaration binding its
//! instance to hardware through the base peripheral's type. Every
//! peripheral that is not itself derived gets its full plan once, in a
//! module named after its group when dependents exist and the group name
//! is still free, else after its own name.

use vstd::prelude::*;

use crate::GenError;
use crate::layout::{peripheral_layout, peripheral_layout_shapes, shapes_of, LayoutSlot};
use crate::model::{Device, Peripheral, Register};
use crate::names::{
    constant_case_of, link_symbol, link_symbol_of, pascal_case_of, snake_case_of,
    to_constant_case, to_pascal_case, to_snake_case,
};
use crate::register::{register_plan, register_plan_matches, register_widths_supported, RegisterPlan};

verus! {

/// The generation plan of one non-derived peripheral: its type name, the
/// layout of its register block, and the per-register plans.
#[derive(Debug, PartialEq)]
pub struct PeripheralPlan {
    /// The register block type's name: the group name when present, else
    /// the peripheral's name, in PascalCase.
    pub ty_name: String,
    /// The ordered layout of the register block.
    pub layout: Vec<LayoutSlot>,
    /// One plan per register, in the model's register order.
    pub registers: Vec<RegisterPlan>,
}

/// One link declaration: the symbol an external linker resolves to a
/// hardware base address, and the instance it binds.
#[derive(Debug, PartialEq)]
pub struct LinkDecl {
    /// The link symbol: prefix, device name and peripheral name, in
    /// snake_case.
    pub symbol: String,
    /// The bound instance's name: the peripheral's name in CONSTANT_CASE.
    pub instance_name: String,
    /// The register block type the instance carries: always the base
    /// peripheral's generated type.
    pub ty_name: String,
    /// The peripheral instance's hardware base address.
    pub base_address: u32,
}

/// One generated peripheral module: the module's name, the peripheral's
/// plan, and the link declarations of the base instance and of every
/// alias derived from it.
#[derive(Debug, PartialEq)]
pub struct PeripheralModule {
    /// The module's name in snake_case.
    pub module_name: String,
    pub plan: PeripheralPlan,
    /// The base instance's link first, then one link per derived alias,
    /// in the model's peripheral order.
    pub links: Vec<LinkDecl>,
}

/// The whole-device generation plan: one module per non-derived
/// peripheral, inside a module named after the device.
#[derive(Debug, PartialEq)]
pub struct DevicePlan {
    /// The device module's name in snake_case.
    pub module_name: String,
    pub peripherals: Vec<PeripheralModule>,
}

/// The registers of a peripheral; empty when the model carries none.
pub open spec fn periph_registers(p: Peripheral) -> Seq<Register> {
    match p.registers {
        None => Seq::empty(),
        Some(rs) => rs@,
    }
}

/// The model name a peripheral's register block type is named after: the
/// group name when present, else the peripheral's own name.
pub open spec fn periph_type_base(p: Peripheral) -> Seq<char> {
    if p.group_name is Some {
        p.group_name->0@
    } else {
        p.name@
    }
}

/// Whether every field of every register of a peripheral has a supported
/// bit width.
pub open spec fn periph_widths_supported(p: Peripheral) -> bool {
    forall|i: int|
        0 <= i < periph_registers(p).len() ==> register_widths_supported(
            #[trigger] periph_registers(p)[i],
        )
}

/// Whether `plan` is the generation plan of the peripheral `p`.
pub open spec fn periph_plan_matches(p: Peripheral, plan: PeripheralPlan) -> bool {
    &&& plan.ty_name@ == pascal_case_of(periph_type_base(p))
    &&& shapes_of(plan.layout@) == peripheral_layout_shapes(periph_registers(p))
    &&& plan.registers@.len() == periph_registers(p).len()
    &&& forall|i: int|
        0 <= i < periph_registers(p).len() ==> register_plan_matches(
            periph_registers(p)[i],
            #[trigger] plan.registers@[i],
        )
}

/// Whether a peripheral is a derived alias of another.
pub open spec fn is_derived(p: Peripheral) -> bool {
    p.derived_from is Some
}

/// The peripherals that are not derived aliases, in model order: exactly
/// those the assembler generates a module for.
pub open spec fn base_periphs(ps: Seq<Peripheral>) -> Seq<Peripheral>
    decreases ps.len(),
{
    if ps.len() == 0 {
        Seq::empty()
    } else {
        let rest = base_periphs(ps.drop_last());
        if !is_derived(ps.last()) {
            rest.push(ps.last())
        } else {
            rest
        }
    }
}

/// The peripherals deriving from the peripheral named `base`, in model
/// order: the aliasing group of `base`.
pub open spec fn dependents_of(ps: Seq<Peripheral>, base: Seq<char>) -> Seq<Peripheral>
    decreases ps.len(),
{
    if ps.len() == 0 {
        Seq::empty()
    } else {
        let rest = dependents_of(ps.drop_last(), base);
        let q = ps.last();
        if q.derived_from is Some && q.derived_from->0@ == base {
            rest.push(q)
        } else {
            rest
        }
    }
}

/// Whether some peripheral derives from the peripheral named `name`.
pub open spec fn has_dependents(ps: Seq<Peripheral>, name: Seq<char>) -> bool {
    exists|i: int|
        0 <= i < ps.len() && (#[trigger] ps[i]).derived_from is Some && ps[i].derived_from->0@
            == name
}

/// The module names the assembler picks for a sequence of non-derived
/// peripherals, in order: the group name when the peripheral has
/// dependents, carries a group name, and no earlier module took that
/// name; else the peripheral's own name.
pub open spec fn chosen_names(bs: Seq<Peripheral>, all: Seq<Peripheral>) -> Seq<Seq<char>>
    decreases bs.len(),
{
    if bs.len() == 0 {
        Seq::empty()
    } else {
        let prev = chosen_names(bs.drop_last(), all);
        let p = bs.last();
        let pick = if has_dependents(all, p.name@) && p.group_name is Some && !prev.contains(
            p.group_name->0@,
        ) {
            p.group_name->0@
        } else {
            p.name@
        };
        prev.push(pick)
    }
}

/// The assembler picks exactly one module name per non-derived
/// peripheral.
pub proof fn lemma_chosen_names_len(bs: Seq<Peripheral>, all: Seq<Peripheral>)
    ensures
        chosen_names(bs, all).len() == bs.len(),
    decreases bs.len(),
{
    if bs.len() > 0 {
        lemma_chosen_names_len(bs.drop_last(), all);
    }
}

/// Whether `l` is the link declaration of the peripheral instance named
/// `pname` at address `addr`, carrying the register block type `ty`.
pub open spec fn link_matches(
    l: LinkDecl,
    dev: Seq<char>,
    pname: Seq<char>,
    addr: u32,
    ty: Seq<char>,
) -> bool {
    &&& l.symbol@ == link_symbol_of(dev, pname)
    &&& l.instance_name@ == constant_case_of(pname)
    &&& l.ty_name@ == ty
    &&& l.base_address == addr
}

/// Whether `m` is the module the assembler generates for the `k`-th
/// non-derived peripheral of `all` (`bs` being the non-derived prefix it
/// belongs to): the picked module name, the peripheral's full plan, and
/// the links of the base instance and of its whole aliasing group.
pub open spec fn peripheral_module_matches(
    bs: Seq<Peripheral>,
    all: Seq<Peripheral>,
    k: int,
    m: PeripheralModule,
    dev: Seq<char>,
) -> bool
    recommends
        0 <= k < bs.len(),
{
    let p = bs[k];
    let deps = dependents_of(all, p.name@);
    let ty = pascal_case_of(periph_type_base(p));
    &&& m.module_name@ == snake_case_of(chosen_names(bs, all)[k])
    &&& periph_plan_matches(p, m.plan)
    &&& m.links@.len() == 1 + deps.len()
    &&& link_matches(m.links@[0], dev, p.name@, p.base_address, ty)
    &&& forall|j: int|
        0 <= j < deps.len() ==> link_matches(
            #[trigger] m.links@[j + 1],
            dev,
            deps[j].name@,
            deps[j].base_address,
            ty,
        )
}

/// Builds the generation plan of one peripheral: the register block's
/// type name, the padded layout of its registers, and one plan per
/// register. Fails exactly when some field of some register has an
/// unsupported bit width.
pub fn gen_periph(p: &Peripheral) -> (r: Result<PeripheralPlan, GenError>)
    ensures
        r is Ok <==> periph_widths_supported(*p),
        r is Err ==> r == Err::<PeripheralPlan, GenError>(GenError::UnsupportedBitWidth),
        r matches Ok(plan) ==> periph_plan_matches(*p, plan),
{
    let base = match p.group_name.as_ref() {
        Some(g) => g.as_str(),
        None => p.name.as_str(),
    };
    let ty_name = to_pascal_case(base);
    let mut registers: Vec<RegisterPlan> = Vec::new();
    let layout: Vec<LayoutSlot>;
    match p.registers.as_ref() {
        None => {
            layout = Vec::new();
            proof {
                assert(shapes_of(Seq::<LayoutSlot>::empty()) =~= Seq::empty());
            }
        },
        Some(rs) => {
            layout = peripheral_layout(rs);
            let mut i: usize = 0;
            while i < rs.len()
                invariant
                    p.registers is Some,
                    *rs == p.registers->0,
                    i <= rs@.len(),
                    registers@.len() == i,
                    forall|j: int|
                        0 <= j < i ==> register_widths_supported(#[trigger] rs@[j]),
                    forall|j: int|
                        0 <= j < i ==> register_plan_matches(rs@[j], #[trigger] registers@[j]),
                decreases rs@.len() - i,
            {
                match register_plan(&rs[i]) {
                    Ok(rp) => {
                        registers.push(rp);
                    },
                    Err(e) => {
                        proof {
                            assert(!register_widths_supported(periph_registers(*p)[i as int]));
                        }
                        return Err(e);
                    },
                }
                i = i + 1;
            }
        },
    }
    Ok(PeripheralPlan { ty_name, layout, registers })
}

/// Whether `v` holds a string whose characters are `x`'s.
fn contains_string(v: &Vec<String>, x: &String) -> (r: bool)
    ensures
        r == v@.map_values(|s: String| s@).contains(x@),
{
    let ghost names = v@.map_values(|s: String| s@);
    let mut k: usize = 0;
    while k < v.len()
        invariant
            names == v@.map_values(|s: String| s@),
            k <= v@.len(),
            forall|j: int| 0 <= j < k ==> #[trigger] names[j] != x@,
        decreases v@.len() - k,
    {
        proof {
            assert(names[k as int] == v@[k as int]@);
        }
        if v[k] == *x {
            proof {
                assert(names[k as int] == x@);
            }
            return true;
        }
        k = k + 1;
    }
    false
}

/// Whether some peripheral of `ps` derives from the peripheral named
/// `name`.
fn any_derived_from(ps: &Vec<Peripheral>, name: &String) -> (r: bool)
    ensures
        r == has_dependents(ps@, name@),
{
    let mut k: usize = 0;
    while k < ps.len()
        invariant
            k <= ps@.len(),
            forall|j: int|
                0 <= j < k ==> !((#[trigger] ps@[j]).derived_from is Some && ps@[j].derived_from->0@
                    == name@),
        decreases ps@.len() - k,
    {
        match ps[k].derived_from.as_ref() {
            Some(d) => {
                if *d == *name {
                    proof {
                        assert(ps@[k as int].derived_from is Some && ps@[
                            k as int
                        ].derived_from->0@ == name@);
                    }
                    return true;
                }
            },
            None => {},
        }
        k = k + 1;
    }
    false
}

/// Builds the link declarations of one base peripheral's aliasing group:
/// the base instance's link first, then one link per peripheral deriving
/// from it, in model order.
fn gen_links(device_name: &String, ps: &Vec<Peripheral>, p: &Peripheral, ty_name: &String) -> (r:
    Vec<LinkDecl>)
    ensures
        r@.len() == 1 + dependents_of(ps@, p.name@).len(),
        link_matches(r@[0], device_name@, p.name@, p.base_address, ty_name@),
        forall|j: int|
            0 <= j < dependents_of(ps@, p.name@).len() ==> link_matches(
                #[trigger] r@[j + 1],
                device_name@,
                dependents_of(ps@, p.name@)[j].name@,
                dependents_of(ps@, p.name@)[j].base_address,
                ty_name@,
            ),
{
    let mut links: Vec<LinkDecl> = Vec::new();
    links.push(
        LinkDecl {
            symbol: link_symbol(device_name.as_str(), p.name.as_str()),
            instance_name: to_constant_case(p.name.as_str()),
            ty_name: ty_name.clone(),
            base_address: p.base_address,
        },
    );
    let mut j: usize = 0;
    while j < ps.len()
        invariant
            j <= ps@.len(),
            links@.len() == 1 + dependents_of(ps@.take(j as int), p.name@).len(),
            link_matches(links@[0], device_name@, p.name@, p.base_address, ty_name@),
            forall|jj: int|
                0 <= jj < dependents_of(ps@.take(j as int), p.name@).len() ==> link_matches(
                    #[trigger] links@[jj + 1],
                    device_name@,
                    dependents_of(ps@.take(j as int), p.name@)[jj].name@,
                    dependents_of(ps@.take(j as int), p.name@)[jj].base_address,
                    ty_name@,
                ),
        decreases ps@.len() - j,
    {
        let q = &ps[j];
        proof {
            assert(ps@.take(j + 1).drop_last() =~= ps@.take(j as int));
            assert(ps@.take(j + 1).last() == ps@[j as int]);
        }
        let ghost prev_deps = dependents_of(ps@.take(j as int), p.name@);
        let ghost prev_links = links@;
        match q.derived_from.as_ref() {
            Some(d) => {
                if *d == p.name {
                    links.push(
                        LinkDecl {
                            symbol: link_symbol(device_name.as_str(), q.name.as_str()),
                            instance_name: to_constant_case(q.name.as_str()),
                            ty_name: ty_name.clone(),
                            base_address: q.base_address,
                        },
                    );
                    proof {
                        assert(dependents_of(ps@.take(j + 1), p.name@) == prev_deps.push(
                            ps@[j as int],
                        ));
                        assert(forall|k: int|
                            0 <= k < prev_links.len() ==> #[trigger] links@[k] == prev_links[k]);
                    }
                } else {
                    proof {
                        assert(dependents_of(ps@.take(j + 1), p.name@) == prev_deps);
                    }
                }
            },
            None => {
                proof {
                    assert(dependents_of(ps@.take(j + 1), p.name@) == prev_deps);
                }
            },
        }
        j = j + 1;
    }
    proof {
        assert(ps@.take(j as int) =~= ps@);
    }
    links
}

/// Assembles the whole-device generation plan: one module per
/// non-derived peripheral, holding its full plan and the links of its
/// aliasing group; derived peripherals produce no plan of their own.
/// Fails exactly when some non-derived peripheral holds a field of
/// unsupported bit width.
pub fn gen_device(device: &Device) -> (r: Result<DevicePlan, GenError>)
    ensures
        r is Ok <==> (forall|i: int|
            0 <= i < device.peripherals@.len() ==> (is_derived(#[trigger] device.peripherals@[i])
                || periph_widths_supported(device.peripherals@[i]))),
        r is Err ==> r == Err::<DevicePlan, GenError>(GenError::UnsupportedBitWidth),
        r matches Ok(d) ==> {
            &&& d.module_name@ == snake_case_of(device.name@)
            &&& d.peripherals@.len() == base_periphs(device.peripherals@).len()
            &&& forall|k: int|
                0 <= k < d.peripherals@.len() ==> peripheral_module_matches(
                    base_periphs(device.peripherals@),
                    device.peripherals@,
                    k,
                    #[trigger] d.peripherals@[k],
                    device.name@,
                )
        },
{
    let ps = &device.peripherals;
    let mut modules: Vec<PeripheralModule> = Vec::new();
    let mut seen: Vec<String> = Vec::new();
    let mut i: usize = 0;
    while i < ps.len()
        invariant
            *ps == device.peripherals,
            i <= ps@.len(),
            seen@.map_values(|s: String| s@) == chosen_names(
                base_periphs(ps@.take(i as int)),
                ps@,
            ),
            modules@.len() == base_periphs(ps@.take(i as int)).len(),
            forall|j: int|
                0 <= j < i ==> (is_derived(#[trigger] ps@[j]) || periph_widths_supported(ps@[j])),
            forall|k: int|
                0 <= k < modules@.len() ==> peripheral_module_matches(
                    base_periphs(ps@.take(i as int)),
                    ps@,
                    k,
                    #[trigger] modules@[k],
                    device.name@,
                ),
        decreases ps@.len() - i,
    {
        let p = &ps[i];
        let ghost prev_bases = base_periphs(ps@.take(i as int));
        let ghost prev_chosen = chosen_names(prev_bases, ps@);
        proof {
            assert(ps@.take(i + 1).drop_last() =~= ps@.take(i as int));
            assert(ps@.take(i + 1).last() == ps@[i as int]);
        }
        if p.derived_from.is_none() {
            let plan = match gen_periph(p) {
                Ok(plan) => plan,
                Err(e) => {
                    proof {
                        assert(!is_derived(ps@[i as int]) && !periph_widths_supported(
                            ps@[i as int],
                        ));
                    }
                    return Err(e);
                },
            };
            let has_deps = any_derived_from(ps, &p.name);
            let chosen: &String = if has_deps {
                match p.group_name.as_ref() {
                    Some(g) => {
                        if !contains_string(&seen, g) {
                            g
                        } else {
                            &p.name
                        }
                    },
                    None => &p.name,
                }
            } else {
                &p.name
            };
            let module_name = to_snake_case(chosen.as_str());
            let links = gen_links(&device.name, ps, p, &plan.ty_name);
            let ghost prev_seen = seen@;
            let ghost prev_modules = modules@;
            seen.push(chosen.clone());
            modules.push(PeripheralModule { module_name, plan, links });
            proof {
                let pi = ps@[i as int];
                let bs2 = base_periphs(ps@.take(i + 1));
                assert(bs2 == prev_bases.push(pi));
                assert(bs2.drop_last() =~= prev_bases);
                assert(bs2.last() == pi);
                lemma_chosen_names_len(prev_bases, ps@);
                let pick: Seq<char> = if has_dependents(ps@, pi.name@) && pi.group_name is Some
                    && !prev_chosen.contains(pi.group_name->0@) {
                    pi.group_name->0@
                } else {
                    pi.name@
                };
                assert(chosen_names(bs2, ps@) == prev_chosen.push(pick));
                assert(pick == chosen@);
                assert(seen@.map_values(|s: String| s@) =~= prev_chosen.push(chosen@));
                assert(forall|k: int|
                    0 <= k < prev_modules.len() ==> #[trigger] modules@[k] == prev_modules[k]);
                assert(bs2[prev_modules.len() as int] == pi);
                assert(chosen_names(bs2, ps@)[prev_modules.len() as int] == pick);
                assert(forall|k: int|
                    0 <= k < prev_modules.len() ==> #[trigger] bs2[k] == prev_bases[k]);
                assert(forall|k: int|
                    0 <= k < prev_modules.len() ==> #[trigger] chosen_names(bs2, ps@)[k]
                        == prev_chosen[k]);
                assert(peripheral_module_matches(
                    bs2,
                    ps@,
                    prev_modules.len() as int,
                    modules@[prev_modules.len() as int],
                    device.name@,
                ));
                assert(forall|k: int|
                    0 <= k < prev_modules.len() ==> peripheral_module_matches(
                        bs2,
                        ps@,
                        k,
                        #[trigger] modules@[k],
                        device.name@,
                    ));
            }
        } else {
            proof {
                assert(base_periphs(ps@.take(i + 1)) == prev_bases);
            }
        }
        i = i + 1;
    }
    proof {
        assert(ps@.take(i as int) =~= ps@);
    }
    Ok(DevicePlan { module_name: to_snake_case(device.name.as_str()), peripherals: modules })
}

} // verus!
