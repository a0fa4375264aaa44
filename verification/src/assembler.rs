//! The binding assembler: builds the generated-module IR from the resolved
//! entries — one method per function, one event type per event with its
//! parameters partitioned into topic and data fields in declaration order,
//! exactly one constructor (synthesized with no inputs when the artifact
//! declares none), and one deployment unit carrying the bytecode with its
//! unresolved library-link placeholders. Assembly is total: it never fails
//! on well-formed input.

use crate::artifact::{AbiEntry, Mutability, SpecAbiEntry, entries_model, entry_model,
    lemma_entries_model};
use crate::binding::{TypeBinding, SpecTypeBinding, binding_for, binding_model, spec_binding_of};
use crate::resolver::{ResolvedUnit, SpecResolvedUnit, lemma_resolved_list_model, resolved_model,
    resolved_list_model};
use crate::types::{Parameter, SpecParameter, lemma_params_model, param_model, params_model};
use vstd::prelude::*;

verus! {

/// A parameter together with its host binding.
pub struct BoundParam {
    pub name: Vec<u8>,
    pub solidity_type: crate::types::SolidityType,
    pub binding: TypeBinding,
}

/// Mathematical model of `BoundParam`.
pub struct SpecBoundParam {
    pub name: Seq<u8>,
    pub ty: crate::types::SpecSolidityType,
    pub binding: SpecTypeBinding,
}

pub open spec fn bound_model(p: BoundParam) -> SpecBoundParam {
    SpecBoundParam {
        name: p.name@,
        ty: crate::types::type_model(p.solidity_type),
        binding: binding_model(p.binding),
    }
}

pub open spec fn bound_list_model(s: Seq<BoundParam>, i: int) -> Seq<SpecBoundParam>
    decreases s.len() - i,
{
    if i < 0 || i >= s.len() {
        Seq::empty()
    } else {
        seq![bound_model(s[i])] + bound_list_model(s, i + 1)
    }
}

pub proof fn lemma_bound_list_model(s: Seq<BoundParam>, i: int)
    requires
        0 <= i <= s.len(),
    ensures
        bound_list_model(s, i).len() == s.len() - i,
        forall|j: int| i <= j < s.len() ==> bound_list_model(s, i)[j - i] == bound_model(s[j]),
    decreases s.len() - i,
{
    if i < s.len() {
        lemma_bound_list_model(s, i + 1);
    }
}

/// A parameter bound to its host representation.
pub open spec fn spec_bind_param(p: SpecParameter) -> SpecBoundParam {
    SpecBoundParam { name: p.name, ty: p.ty, binding: spec_binding_of(p.ty) }
}

pub open spec fn spec_bind_params(ps: Seq<SpecParameter>, i: int) -> Seq<SpecBoundParam>
    decreases ps.len() - i,
{
    if i < 0 || i >= ps.len() {
        Seq::empty()
    } else {
        seq![spec_bind_param(ps[i])] + spec_bind_params(ps, i + 1)
    }
}

pub proof fn lemma_spec_bind_params(ps: Seq<SpecParameter>, i: int)
    requires
        0 <= i <= ps.len(),
    ensures
        spec_bind_params(ps, i).len() == ps.len() - i,
        forall|j: int|
            i <= j < ps.len() ==> spec_bind_params(ps, i)[j - i] == spec_bind_param(ps[j]),
    decreases ps.len() - i,
{
    if i < ps.len() {
        lemma_spec_bind_params(ps, i + 1);
    }
}

/// Binds every parameter of the list, in order.
pub fn bind_params(ps: Vec<Parameter>) -> (r: Vec<BoundParam>)
    ensures
        bound_list_model(r@, 0) == spec_bind_params(params_model(ps@, 0), 0),
    decreases ps@.len(),
{
    let ghost orig = ps@;
    let mut ps = ps;
    if ps.len() == 0 {
        let r: Vec<BoundParam> = Vec::new();
        proof {
            assert(bound_list_model(r@, 0) =~= spec_bind_params(params_model(orig, 0), 0));
        }
        r
    } else {
        let p = ps.remove(0);
        let ghost tail = ps@;
        let b = binding_for(&p.solidity_type);
        let bp = BoundParam { name: p.name, solidity_type: p.solidity_type, binding: b };
        let ghost bpg = bp;
        let mut rest = bind_params(ps);
        let ghost rest0 = rest@;
        rest.insert(0, bp);
        proof {
            assert(rest@ =~= seq![bpg] + rest0);
            assert forall|j: int| 0 <= j < tail.len() implies tail[j] == orig[j + 1] by {
                assert(tail[j] == orig.remove(0)[j]);
            }
            lemma_bound_list_model(rest@, 0);
            lemma_bound_list_model(rest0, 0);
            lemma_params_model(orig, 0);
            lemma_params_model(tail, 0);
            lemma_spec_bind_params(params_model(orig, 0), 0);
            lemma_spec_bind_params(params_model(tail, 0), 0);
            assert forall|j: int|
                0 <= j < orig.len() implies bound_list_model(rest@, 0)[j] == spec_bind_params(
                params_model(orig, 0), 0)[j] by {
                assert(params_model(orig, 0)[j] == param_model(orig[j]));
                if j == 0 {
                    assert(rest@[0] == bpg);
                    assert(bound_list_model(rest@, 0)[0] == bound_model(bpg));
                } else {
                    assert(rest@[j] == rest0[j - 1]);
                    assert(bound_list_model(rest@, 0)[j] == bound_model(rest0[j - 1]));
                    assert(bound_list_model(rest0, 0)[j - 1] == bound_model(rest0[j - 1]));
                    assert(params_model(tail, 0)[j - 1] == param_model(tail[j - 1]));
                    assert(tail[j - 1] == orig[j]);
                }
            }
            assert(bound_list_model(rest@, 0) =~= spec_bind_params(params_model(orig, 0), 0));
        }
        rest
    }
}

/// The parameters whose `indexed` flag equals `want`, in declaration order.
pub open spec fn spec_filter(ps: Seq<SpecParameter>, want: bool) -> Seq<SpecParameter>
    decreases ps.len(),
{
    if ps.len() == 0 {
        Seq::empty()
    } else if ps[0].indexed == want {
        seq![ps[0]] + spec_filter(ps.drop_first(), want)
    } else {
        spec_filter(ps.drop_first(), want)
    }
}

/// Splits event parameters into indexed (topic) and non-indexed (data)
/// parameters, each partition keeping declaration order.
pub fn event_partition(ps: Vec<Parameter>) -> (r: (Vec<Parameter>, Vec<Parameter>))
    ensures
        params_model(r.0@, 0) == spec_filter(params_model(ps@, 0), true),
        params_model(r.1@, 0) == spec_filter(params_model(ps@, 0), false),
    decreases ps@.len(),
{
    let ghost orig = ps@;
    let mut ps = ps;
    if ps.len() == 0 {
        let a: Vec<Parameter> = Vec::new();
        let b: Vec<Parameter> = Vec::new();
        proof {
            assert(params_model(a@, 0) =~= spec_filter(params_model(orig, 0), true));
            assert(params_model(b@, 0) =~= spec_filter(params_model(orig, 0), false));
        }
        (a, b)
    } else {
        let p = ps.remove(0);
        let ghost pg = p;
        let ghost tail = ps@;
        proof {
            assert forall|j: int| 0 <= j < tail.len() implies tail[j] == orig[j + 1] by {
                assert(tail[j] == orig.remove(0)[j]);
            }
            lemma_params_model(orig, 0);
            lemma_params_model(tail, 0);
            assert forall|k: int|
                0 <= k < tail.len() implies params_model(tail, 0)[k] == params_model(
                orig, 0).drop_first()[k] by {
                assert(params_model(tail, 0)[k] == param_model(tail[k]));
                assert(params_model(orig, 0).drop_first()[k] == params_model(orig, 0)[k + 1]);
                assert(params_model(orig, 0)[k + 1] == param_model(orig[k + 1]));
            }
            assert(params_model(tail, 0) =~= params_model(orig, 0).drop_first());
            assert(params_model(orig, 0)[0] == param_model(pg));
        }
        let indexed = p.indexed;
        let (mut ts, mut ds) = event_partition(ps);
        if indexed {
            let ghost ts0 = ts@;
            ts.insert(0, p);
            proof {
                assert(ts@ =~= seq![pg] + ts0);
                lemma_params_model(ts@, 0);
                lemma_params_model(ts0, 0);
                assert forall|k: int|
                    0 <= k < ts@.len() implies params_model(ts@, 0)[k] == (seq![param_model(pg)]
                    + params_model(ts0, 0))[k] by {
                    assert(params_model(ts@, 0)[k] == param_model(ts@[k]));
                    if k == 0 {
                        assert(ts@[0] == pg);
                    } else {
                        assert(ts@[k] == ts0[k - 1]);
                        assert(params_model(ts0, 0)[k - 1] == param_model(ts0[k - 1]));
                    }
                }
                assert(params_model(ts@, 0) =~= seq![param_model(pg)] + params_model(ts0, 0));
            }
        } else {
            let ghost ds0 = ds@;
            ds.insert(0, p);
            proof {
                assert(ds@ =~= seq![pg] + ds0);
                lemma_params_model(ds@, 0);
                lemma_params_model(ds0, 0);
                assert forall|k: int|
                    0 <= k < ds@.len() implies params_model(ds@, 0)[k] == (seq![param_model(pg)]
                    + params_model(ds0, 0))[k] by {
                    assert(params_model(ds@, 0)[k] == param_model(ds@[k]));
                    if k == 0 {
                        assert(ds@[0] == pg);
                    } else {
                        assert(ds@[k] == ds0[k - 1]);
                        assert(params_model(ds0, 0)[k - 1] == param_model(ds0[k - 1]));
                    }
                }
                assert(params_model(ds@, 0) =~= seq![param_model(pg)] + params_model(ds0, 0));
            }
        }
        (ts, ds)
    }
}

/// Topic and data partitions are exact: topics are precisely the indexed
/// parameters, data fields precisely the rest, and together they carry
/// every parameter.
pub proof fn lemma_filter_partition(ps: Seq<SpecParameter>)
    ensures
        forall|k: int| 0 <= k < spec_filter(ps, true).len() ==> spec_filter(ps, true)[k].indexed,
        forall|k: int|
            0 <= k < spec_filter(ps, false).len() ==> !spec_filter(ps, false)[k].indexed,
        spec_filter(ps, true).len() + spec_filter(ps, false).len() == ps.len(),
    decreases ps.len(),
{
    if ps.len() > 0 {
        lemma_filter_partition(ps.drop_first());
    }
}

// ---------------------------------------------------------------------------
// Link placeholders
// ---------------------------------------------------------------------------

/// An unresolved library-link placeholder found in the bytecode text.
pub struct LinkRef {
    pub name: Vec<u8>,
    pub offset: usize,
}

/// Mathematical model of `LinkRef`.
pub struct SpecLinkRef {
    pub name: Seq<u8>,
    pub offset: usize,
}

pub open spec fn linkref_model(r: LinkRef) -> SpecLinkRef {
    SpecLinkRef { name: r.name@, offset: r.offset }
}

pub open spec fn linkrefs_model(s: Seq<LinkRef>, i: int) -> Seq<SpecLinkRef>
    decreases s.len() - i,
{
    if i < 0 || i >= s.len() {
        Seq::empty()
    } else {
        seq![linkref_model(s[i])] + linkrefs_model(s, i + 1)
    }
}

pub proof fn lemma_linkrefs_model(s: Seq<LinkRef>, i: int)
    requires
        0 <= i <= s.len(),
    ensures
        linkrefs_model(s, i).len() == s.len() - i,
        forall|j: int| i <= j < s.len() ==> linkrefs_model(s, i)[j - i] == linkref_model(s[j]),
    decreases s.len() - i,
{
    if i < s.len() {
        lemma_linkrefs_model(s, i + 1);
    }
}

/// The end of the placeholder name: backs up over trailing underscores,
/// never below `lo`.
pub open spec fn spec_trim_idx(s: Seq<u8>, lo: int, e: int) -> int
    decreases e - lo,
{
    if e <= lo || e > s.len() || e < 0 {
        e
    } else if s[e - 1] != 95 {
        e
    } else {
        spec_trim_idx(s, lo, e - 1)
    }
}

fn trim_idx(s: &Vec<u8>, lo: usize, e: usize) -> (r: usize)
    requires
        lo <= e <= s@.len(),
    ensures
        r == spec_trim_idx(s@, lo as int, e as int),
        lo <= r <= e,
    decreases e - lo,
{
    if e <= lo {
        e
    } else if s[e - 1] != 95 {
        e
    } else {
        trim_idx(s, lo, e - 1)
    }
}

fn copy_range(s: &Vec<u8>, a: usize, b: usize) -> (r: Vec<u8>)
    requires
        a <= b <= s@.len(),
    ensures
        r@ == s@.subrange(a as int, b as int),
{
    let mut r: Vec<u8> = Vec::new();
    let mut j: usize = a;
    while j < b
        invariant
            a <= j <= b <= s@.len(),
            r@ == s@.subrange(a as int, j as int),
        decreases b - j,
    {
        r.push(s[j]);
        proof {
            assert(r@ =~= s@.subrange(a as int, j + 1));
        }
        j += 1;
    }
    r
}

/// The library-link placeholders of a bytecode text: a placeholder is a
/// 40-byte window opening with two underscores; its name is the window
/// without the opening underscores and without trailing padding
/// underscores. Scanning resumes after the window, or one byte on.
pub open spec fn spec_link_refs(s: Seq<u8>, i: int) -> Seq<SpecLinkRef>
    decreases s.len() - i,
{
    if i < 0 || i >= s.len() {
        Seq::empty()
    } else if i + 40 <= s.len() && s[i] == 95 && s[i + 1] == 95 {
        seq![
            SpecLinkRef {
                name: s.subrange(i + 2, spec_trim_idx(s, i + 2, i + 40)),
                offset: i as usize,
            },
        ] + spec_link_refs(s, i + 40)
    } else {
        spec_link_refs(s, i + 1)
    }
}

/// Reports (without resolving) every link placeholder in the bytecode.
pub fn scan_link_refs(bc: &Vec<u8>) -> (r: Vec<LinkRef>)
    ensures
        linkrefs_model(r@, 0) == spec_link_refs(bc@, 0),
{
    let mut acc: Vec<LinkRef> = Vec::new();
    let mut i: usize = 0;
    proof {
        assert(linkrefs_model(acc@, 0) =~= Seq::<SpecLinkRef>::empty());
    }
    while i < bc.len()
        invariant
            i <= bc@.len(),
            spec_link_refs(bc@, 0) == linkrefs_model(acc@, 0) + spec_link_refs(bc@, i as int),
        decreases bc@.len() - i,
    {
        if 40 <= bc.len() - i && bc[i] == 95 && bc[i + 1] == 95 {
            let t = trim_idx(bc, i + 2, i + 40);
            let name = copy_range(bc, i + 2, t);
            let lr = LinkRef { name, offset: i };
            let ghost lrg = lr;
            let ghost acc0 = acc@;
            acc.push(lr);
            proof {
                assert(acc@ =~= acc0.push(lrg));
                lemma_linkrefs_model(acc@, 0);
                lemma_linkrefs_model(acc0, 0);
                assert forall|k: int|
                    0 <= k < acc@.len() implies linkrefs_model(acc@, 0)[k] == (linkrefs_model(
                    acc0, 0).push(linkref_model(lrg)))[k] by {
                    assert(linkrefs_model(acc@, 0)[k] == linkref_model(acc@[k]));
                    if k < acc0.len() {
                        assert(acc@[k] == acc0[k]);
                        assert(linkrefs_model(acc0, 0)[k] == linkref_model(acc0[k]));
                    } else {
                        assert(acc@[k] == lrg);
                    }
                }
                assert(linkrefs_model(acc@, 0) =~= linkrefs_model(acc0, 0).push(
                    linkref_model(lrg)));
                assert(linkref_model(lrg) == (SpecLinkRef {
                    name: bc@.subrange(i + 2, spec_trim_idx(bc@, i + 2, i + 40)),
                    offset: i as usize,
                }));
                assert(linkrefs_model(acc0, 0).push(linkref_model(lrg)) + spec_link_refs(
                    bc@, i + 40) =~= linkrefs_model(acc0, 0) + (seq![linkref_model(lrg)]
                    + spec_link_refs(bc@, i + 40)));
            }
            i += 40;
        } else {
            i += 1;
        }
    }
    proof {
        assert(spec_link_refs(bc@, i as int) =~= Seq::<SpecLinkRef>::empty());
        assert(linkrefs_model(acc@, 0) =~= linkrefs_model(acc@, 0) + Seq::<
            SpecLinkRef,
        >::empty());
    }
    acc
}

// ---------------------------------------------------------------------------
// The module IR
// ---------------------------------------------------------------------------

/// Which primitives of the runtime support package the generated module
/// needs to import.
#[derive(Clone, Copy, PartialEq, Eq, Structural, Debug)]
pub enum RuntimeImport {
    /// Read-only contract calls (pure and view methods).
    CallPrimitive,
    /// Transaction submission (non-payable and payable methods).
    TransactPrimitive,
    /// Event decoding.
    EventDecoding,
    /// The deployment helper, always required.
    DeployPrimitive,
}

/// One unit of the generated module.
pub enum GeneratedUnit {
    Method {
        identifier: Vec<u8>,
        inputs: Vec<BoundParam>,
        outputs: Vec<BoundParam>,
        mutability: Mutability,
    },
    EventType {
        identifier: Vec<u8>,
        topic_fields: Vec<BoundParam>,
        data_fields: Vec<BoundParam>,
    },
    ConstructorFn { inputs: Vec<BoundParam> },
    Deployment { bytecode: Vec<u8>, link_refs: Vec<LinkRef> },
}

/// Mathematical model of `GeneratedUnit`.
pub enum SpecGeneratedUnit {
    Method {
        identifier: Seq<u8>,
        inputs: Seq<SpecBoundParam>,
        outputs: Seq<SpecBoundParam>,
        mutability: Mutability,
    },
    EventType {
        identifier: Seq<u8>,
        topic_fields: Seq<SpecBoundParam>,
        data_fields: Seq<SpecBoundParam>,
    },
    ConstructorFn { inputs: Seq<SpecBoundParam> },
    Deployment { bytecode: Seq<u8>, link_refs: Seq<SpecLinkRef> },
}

pub open spec fn gen_unit_model(u: GeneratedUnit) -> SpecGeneratedUnit {
    match u {
        GeneratedUnit::Method { identifier, inputs, outputs, mutability } =>
            SpecGeneratedUnit::Method {
            identifier: identifier@,
            inputs: bound_list_model(inputs@, 0),
            outputs: bound_list_model(outputs@, 0),
            mutability,
        },
        GeneratedUnit::EventType { identifier, topic_fields, data_fields } =>
            SpecGeneratedUnit::EventType {
            identifier: identifier@,
            topic_fields: bound_list_model(topic_fields@, 0),
            data_fields: bound_list_model(data_fields@, 0),
        },
        GeneratedUnit::ConstructorFn { inputs } => SpecGeneratedUnit::ConstructorFn {
            inputs: bound_list_model(inputs@, 0),
        },
        GeneratedUnit::Deployment { bytecode, link_refs } => SpecGeneratedUnit::Deployment {
            bytecode: bytecode@,
            link_refs: linkrefs_model(link_refs@, 0),
        },
    }
}

pub open spec fn gen_units_model(s: Seq<GeneratedUnit>, i: int) -> Seq<SpecGeneratedUnit>
    decreases s.len() - i,
{
    if i < 0 || i >= s.len() {
        Seq::empty()
    } else {
        seq![gen_unit_model(s[i])] + gen_units_model(s, i + 1)
    }
}

pub proof fn lemma_gen_units_model(s: Seq<GeneratedUnit>, i: int)
    requires
        0 <= i <= s.len(),
    ensures
        gen_units_model(s, i).len() == s.len() - i,
        forall|j: int| i <= j < s.len() ==> gen_units_model(s, i)[j - i] == gen_unit_model(s[j]),
    decreases s.len() - i,
{
    if i < s.len() {
        lemma_gen_units_model(s, i + 1);
    }
}

/// The generated module: its ordered units plus the runtime imports they
/// require. Built once per artifact, immutable thereafter.
pub struct Module {
    pub units: Vec<GeneratedUnit>,
    pub imports: Vec<RuntimeImport>,
}

/// Mathematical model of `Module`.
pub struct SpecModule {
    pub units: Seq<SpecGeneratedUnit>,
    pub imports: Seq<RuntimeImport>,
}

pub open spec fn module_model(m: Module) -> SpecModule {
    SpecModule { units: gen_units_model(m.units@, 0), imports: m.imports@ }
}

// ---------------------------------------------------------------------------
// Constructor extraction
// ---------------------------------------------------------------------------

/// The inputs of the first constructor entry, if any is declared.
pub open spec fn spec_first_ctor(s: Seq<SpecAbiEntry>) -> Option<Seq<SpecParameter>>
    decreases s.len(),
{
    if s.len() == 0 {
        Option::None
    } else {
        match s[0] {
            SpecAbiEntry::Constructor { inputs } => Option::Some(inputs),
            _ => spec_first_ctor(s.drop_first()),
        }
    }
}

/// The entries that are not constructors, in order.
pub open spec fn spec_nonctor(s: Seq<SpecAbiEntry>) -> Seq<SpecAbiEntry>
    decreases s.len(),
{
    if s.len() == 0 {
        Seq::empty()
    } else if s[0] is Constructor {
        spec_nonctor(s.drop_first())
    } else {
        seq![s[0]] + spec_nonctor(s.drop_first())
    }
}

/// Splits the interface entries into the first constructor's inputs (if
/// any) and the remaining non-constructor entries.
pub fn extract_ctor(abi: Vec<AbiEntry>) -> (r: (Option<Vec<Parameter>>, Vec<AbiEntry>))
    ensures
        (match r.0 {
            Option::Some(ps) => Option::Some(params_model(ps@, 0)),
            Option::None => Option::None,
        }) == spec_first_ctor(entries_model(abi@, 0)),
        entries_model(r.1@, 0) == spec_nonctor(entries_model(abi@, 0)),
    decreases abi@.len(),
{
    let ghost sorig = entries_model(abi@, 0);
    proof {
        lemma_entries_model(abi@, 0);
    }
    let mut abi = abi;
    if abi.len() == 0 {
        let rest: Vec<AbiEntry> = Vec::new();
        proof {
            assert(entries_model(rest@, 0) =~= spec_nonctor(sorig));
        }
        (Option::None, rest)
    } else {
        let ghost orig_abi = abi@;
        let e = abi.remove(0);
        let ghost tail = abi@;
        proof {
            assert forall|k: int| 0 <= k < tail.len() implies tail[k] == orig_abi[k + 1] by {
                assert(tail[k] == orig_abi.remove(0)[k]);
            }
            lemma_entries_model(tail, 0);
            lemma_entries_model(orig_abi, 0);
            assert forall|k: int|
                0 <= k < tail.len() implies entries_model(tail, 0)[k] == sorig.drop_first()[k] by {
                assert(entries_model(tail, 0)[k] == entry_model(tail[k]));
                assert(tail[k] == orig_abi[k + 1]);
                assert(sorig[k + 1] == entry_model(orig_abi[k + 1]));
                assert(sorig.drop_first()[k] == sorig[k + 1]);
            }
            assert(entries_model(tail, 0) =~= sorig.drop_first());
        }
        match e {
            AbiEntry::Constructor { inputs } => {
                let (_, rest) = extract_ctor(abi);
                (Option::Some(inputs), rest)
            },
            other => {
                let ghost og = other;
                let (c, mut rest) = extract_ctor(abi);
                let ghost rest0 = rest@;
                rest.insert(0, other);
                proof {
                    assert(rest@ =~= seq![og] + rest0);
                    lemma_entries_model(rest@, 0);
                    lemma_entries_model(rest0, 0);
                    assert forall|k: int|
                        0 <= k < rest@.len() implies entries_model(rest@, 0)[k] == (seq![
                        entry_model(og)] + entries_model(rest0, 0))[k] by {
                        assert(entries_model(rest@, 0)[k] == entry_model(rest@[k]));
                        if k == 0 {
                            assert(rest@[0] == og);
                        } else {
                            assert(rest@[k] == rest0[k - 1]);
                            assert(entries_model(rest0, 0)[k - 1] == entry_model(rest0[k - 1]));
                        }
                    }
                    assert(entries_model(rest@, 0) =~= seq![entry_model(og)] + entries_model(
                        rest0, 0));
                    assert(!(sorig[0] is Constructor));
                }
                (c, rest)
            },
        }
    }
}

// ---------------------------------------------------------------------------
// Unit construction
// ---------------------------------------------------------------------------

/// The generated unit of one resolved entry: a method per function; an
/// event type per event, with its parameters partitioned into indexed
/// (topic) and non-indexed (data) fields, declaration order kept within
/// each partition.
pub open spec fn spec_unit_of(u: SpecResolvedUnit) -> SpecGeneratedUnit {
    match u {
        SpecResolvedUnit::Fn { identifier, inputs, outputs, mutability } =>
            SpecGeneratedUnit::Method {
            identifier,
            inputs: spec_bind_params(inputs, 0),
            outputs: spec_bind_params(outputs, 0),
            mutability,
        },
        SpecResolvedUnit::Ev { identifier, inputs, anonymous } => SpecGeneratedUnit::EventType {
            identifier,
            topic_fields: spec_bind_params(spec_filter(inputs, true), 0),
            data_fields: spec_bind_params(spec_filter(inputs, false), 0),
        },
    }
}

pub open spec fn spec_gen_units(rus: Seq<SpecResolvedUnit>) -> Seq<SpecGeneratedUnit>
    decreases rus.len(),
{
    if rus.len() == 0 {
        Seq::empty()
    } else {
        seq![spec_unit_of(rus[0])] + spec_gen_units(rus.drop_first())
    }
}

fn map_units(rus: Vec<ResolvedUnit>) -> (r: Vec<GeneratedUnit>)
    ensures
        gen_units_model(r@, 0) == spec_gen_units(resolved_list_model(rus@, 0)),
    decreases rus@.len(),
{
    let ghost sorig = resolved_list_model(rus@, 0);
    proof {
        lemma_resolved_list_model(rus@, 0);
    }
    let mut rus = rus;
    if rus.len() == 0 {
        let r: Vec<GeneratedUnit> = Vec::new();
        proof {
            assert(gen_units_model(r@, 0) =~= spec_gen_units(sorig));
        }
        r
    } else {
        let ghost orig_rus = rus@;
        let u = rus.remove(0);
        let ghost tail = rus@;
        proof {
            assert forall|k: int| 0 <= k < tail.len() implies tail[k] == orig_rus[k + 1] by {
                assert(tail[k] == orig_rus.remove(0)[k]);
            }
            lemma_resolved_list_model(tail, 0);
            lemma_resolved_list_model(orig_rus, 0);
            assert forall|k: int|
                0 <= k < tail.len() implies resolved_list_model(tail, 0)[k]
                == sorig.drop_first()[k] by {
                assert(resolved_list_model(tail, 0)[k] == resolved_model(tail[k]));
                assert(sorig[k + 1] == resolved_model(orig_rus[k + 1]));
                assert(sorig.drop_first()[k] == sorig[k + 1]);
            }
            assert(resolved_list_model(tail, 0) =~= sorig.drop_first());
        }
        let gu: GeneratedUnit = match u {
            ResolvedUnit::Fn { identifier, inputs, outputs, mutability } => GeneratedUnit::Method {
                identifier,
                inputs: bind_params(inputs),
                outputs: bind_params(outputs),
                mutability,
            },
            ResolvedUnit::Ev { identifier, inputs, anonymous: _ } => {
                let (ts, ds) = event_partition(inputs);
                GeneratedUnit::EventType {
                    identifier,
                    topic_fields: bind_params(ts),
                    data_fields: bind_params(ds),
                }
            },
        };
        let ghost gug = gu;
        let mut rest = map_units(rus);
        let ghost rest0 = rest@;
        rest.insert(0, gu);
        proof {
            assert(rest@ =~= seq![gug] + rest0);
            lemma_gen_units_model(rest@, 0);
            lemma_gen_units_model(rest0, 0);
            assert forall|k: int|
                0 <= k < rest@.len() implies gen_units_model(rest@, 0)[k] == (seq![gen_unit_model(
                gug)] + gen_units_model(rest0, 0))[k] by {
                assert(gen_units_model(rest@, 0)[k] == gen_unit_model(rest@[k]));
                if k == 0 {
                    assert(rest@[0] == gug);
                } else {
                    assert(rest@[k] == rest0[k - 1]);
                    assert(gen_units_model(rest0, 0)[k - 1] == gen_unit_model(rest0[k - 1]));
                }
            }
            assert(gen_units_model(rest@, 0) =~= seq![gen_unit_model(gug)] + gen_units_model(
                rest0, 0));
            assert(gen_unit_model(gug) == spec_unit_of(sorig[0]));
        }
        rest
    }
}

// ---------------------------------------------------------------------------
// Imports
// ---------------------------------------------------------------------------

pub open spec fn spec_has_call(us: Seq<SpecResolvedUnit>) -> bool {
    exists|k: int|
        0 <= k < us.len() && us[k] is Fn && (us[k]->Fn_mutability == Mutability::Pure
            || us[k]->Fn_mutability == Mutability::View)
}

pub open spec fn spec_has_tx(us: Seq<SpecResolvedUnit>) -> bool {
    exists|k: int|
        0 <= k < us.len() && us[k] is Fn && (us[k]->Fn_mutability == Mutability::Nonpayable
            || us[k]->Fn_mutability == Mutability::Payable)
}

pub open spec fn spec_has_event(us: Seq<SpecResolvedUnit>) -> bool {
    exists|k: int| 0 <= k < us.len() && us[k] is Ev
}

/// The set of runtime imports the module requires, in a fixed order: the
/// call primitive when a read-only method exists, the transaction primitive
/// when a state-changing method exists, event decoding when an event
/// exists, and always the deployment helper.
pub open spec fn spec_imports(us: Seq<SpecResolvedUnit>) -> Seq<RuntimeImport> {
    (if spec_has_call(us) {
        seq![RuntimeImport::CallPrimitive]
    } else {
        Seq::empty()
    }) + (if spec_has_tx(us) {
        seq![RuntimeImport::TransactPrimitive]
    } else {
        Seq::empty()
    }) + (if spec_has_event(us) {
        seq![RuntimeImport::EventDecoding]
    } else {
        Seq::empty()
    }) + seq![RuntimeImport::DeployPrimitive]
}

fn compute_imports(rus: &Vec<ResolvedUnit>) -> (r: Vec<RuntimeImport>)
    ensures
        r@ == spec_imports(resolved_list_model(rus@, 0)),
{
    let ghost us = resolved_list_model(rus@, 0);
    proof {
        lemma_resolved_list_model(rus@, 0);
    }
    let mut has_call = false;
    let mut has_tx = false;
    let mut has_ev = false;
    let mut k: usize = 0;
    while k < rus.len()
        invariant
            k <= rus@.len(),
            us == resolved_list_model(rus@, 0),
            us.len() == rus@.len(),
            forall|m: int| 0 <= m < rus@.len() ==> us[m] == resolved_model(rus@[m]),
            has_call == exists|m: int|
                0 <= m < k && us[m] is Fn && (us[m]->Fn_mutability == Mutability::Pure
                    || us[m]->Fn_mutability == Mutability::View),
            has_tx == exists|m: int|
                0 <= m < k && us[m] is Fn && (us[m]->Fn_mutability == Mutability::Nonpayable
                    || us[m]->Fn_mutability == Mutability::Payable),
            has_ev == exists|m: int| 0 <= m < k && us[m] is Ev,
        decreases rus@.len() - k,
    {
        match &rus[k] {
            ResolvedUnit::Fn { mutability, .. } => {
                match mutability {
                    Mutability::Pure => {
                        has_call = true;
                    },
                    Mutability::View => {
                        has_call = true;
                    },
                    Mutability::Nonpayable => {
                        has_tx = true;
                    },
                    Mutability::Payable => {
                        has_tx = true;
                    },
                }
            },
            ResolvedUnit::Ev { .. } => {
                has_ev = true;
            },
        }
        proof {
            assert(us[k as int] == resolved_model(rus@[k as int]));
        }
        k += 1;
    }
    proof {
        assert(has_call == spec_has_call(us));
        assert(has_tx == spec_has_tx(us));
        assert(has_ev == spec_has_event(us));
    }
    let ghost s1: Seq<RuntimeImport> = if spec_has_call(us) {
        seq![RuntimeImport::CallPrimitive]
    } else {
        Seq::empty()
    };
    let ghost s2: Seq<RuntimeImport> = if spec_has_tx(us) {
        seq![RuntimeImport::TransactPrimitive]
    } else {
        Seq::empty()
    };
    let ghost s3: Seq<RuntimeImport> = if spec_has_event(us) {
        seq![RuntimeImport::EventDecoding]
    } else {
        Seq::empty()
    };
    let mut v: Vec<RuntimeImport> = Vec::new();
    if has_call {
        v.push(RuntimeImport::CallPrimitive);
    }
    proof {
        assert(v@ =~= s1);
    }
    if has_tx {
        v.push(RuntimeImport::TransactPrimitive);
    }
    proof {
        assert(v@ =~= s1 + s2);
    }
    if has_ev {
        v.push(RuntimeImport::EventDecoding);
    }
    proof {
        assert(v@ =~= s1 + s2 + s3);
    }
    v.push(RuntimeImport::DeployPrimitive);
    proof {
        assert(v@ =~= s1 + s2 + s3 + seq![RuntimeImport::DeployPrimitive]);
    }
    v
}

// ---------------------------------------------------------------------------
// Assembly
// ---------------------------------------------------------------------------

/// The assembled module of an artifact: exactly one constructor first
/// (synthesized with no inputs when none is declared), one unit per
/// resolved function or event in declaration order, and exactly one
/// deployment unit last, carrying the bytecode (empty when absent) and its
/// link placeholders.
pub open spec fn spec_assemble(
    ctor: Option<Seq<SpecParameter>>,
    bytecode: Option<Seq<u8>>,
    rus: Seq<SpecResolvedUnit>,
) -> SpecModule {
    let ctor_inputs = match ctor {
        Option::Some(ps) => ps,
        Option::None => Seq::empty(),
    };
    let bc = match bytecode {
        Option::Some(b) => b,
        Option::None => Seq::empty(),
    };
    SpecModule {
        units: seq![
            SpecGeneratedUnit::ConstructorFn { inputs: spec_bind_params(ctor_inputs, 0) },
        ] + spec_gen_units(rus) + seq![
            SpecGeneratedUnit::Deployment { bytecode: bc, link_refs: spec_link_refs(bc, 0) },
        ],
        imports: spec_imports(rus),
    }
}

/// Assembles the module IR. Total: it cannot fail.
pub fn assemble(
    ctor: Option<Vec<Parameter>>,
    bytecode: Option<Vec<u8>>,
    rus: Vec<ResolvedUnit>,
) -> (r: Module)
    ensures
        module_model(r) == spec_assemble(
            match ctor {
                Option::Some(ps) => Option::Some(params_model(ps@, 0)),
                Option::None => Option::None,
            },
            match bytecode {
                Option::Some(b) => Option::Some(b@),
                Option::None => Option::None,
            },
            resolved_list_model(rus@, 0),
        ),
{
    let imports = compute_imports(&rus);
    let ctor_inputs: Vec<Parameter> = match ctor {
        Option::Some(ps) => ps,
        Option::None => {
            let ps: Vec<Parameter> = Vec::new();
            proof {
                assert(params_model(ps@, 0) =~= Seq::<SpecParameter>::empty());
            }
            ps
        },
    };
    let bc: Vec<u8> = match bytecode {
        Option::Some(b) => b,
        Option::None => {
            let b: Vec<u8> = Vec::new();
            proof {
                assert(b@ =~= Seq::<u8>::empty());
            }
            b
        },
    };
    let link_refs = scan_link_refs(&bc);
    let ctor_unit = GeneratedUnit::ConstructorFn { inputs: bind_params(ctor_inputs) };
    let ghost cg = ctor_unit;
    let dep_unit = GeneratedUnit::Deployment { bytecode: bc, link_refs };
    let ghost dg = dep_unit;
    let mut units = map_units(rus);
    let ghost mid = units@;
    units.insert(0, ctor_unit);
    units.push(dep_unit);
    proof {
        assert(units@ =~= seq![cg] + mid + seq![dg]);
        lemma_gen_units_model(units@, 0);
        lemma_gen_units_model(mid, 0);
        assert forall|k: int|
            0 <= k < units@.len() implies gen_units_model(units@, 0)[k] == (seq![gen_unit_model(
            cg)] + gen_units_model(mid, 0) + seq![gen_unit_model(dg)])[k] by {
            assert(gen_units_model(units@, 0)[k] == gen_unit_model(units@[k]));
            if k == 0 {
                assert(units@[0] == cg);
            } else if k < 1 + mid.len() {
                assert(units@[k] == mid[k - 1]);
                assert(gen_units_model(mid, 0)[k - 1] == gen_unit_model(mid[k - 1]));
            } else {
                assert(units@[k] == dg);
            }
        }
        assert(gen_units_model(units@, 0) =~= seq![gen_unit_model(cg)] + gen_units_model(mid, 0)
            + seq![gen_unit_model(dg)]);
    }
    Module { units, imports }
}


} // verus!
