//! The signature resolver: canonical signatures for every function and
//! event, detection of true duplicates, and deterministic assignment of
//! unique generation identifiers.
//!
//! The naming scheme, fixed and documented here: every candidate name is
//! sanitized (each byte outside `[A-Za-z0-9_]` becomes `_`, an empty name
//! becomes `_`, a leading digit gains a `_` prefix, and a reserved word of
//! the host language gains a `_` suffix). A name carried by only one entry
//! of its kind keeps its sanitized form; when several entries of one kind
//! share a sanitized base name (overloading), each gets the base name plus
//! `_` and its zero-based position among them in declaration order. Should
//! a candidate still collide with an identifier assigned earlier (to either
//! kind), underscores are appended until it is fresh, so the assignment is
//! collision-free by construction and depends only on the entry list.

use crate::artifact::{AbiEntry, Mutability, SpecAbiEntry, entries_model, entry_model,
    lemma_entries_model};
use crate::bytes::{bytes_eq, clone_bytes, is_digit, is_ident_byte, push_dec, spec_dec,
    spec_is_reserved, is_reserved};
use crate::errors::{BindError, OverloadNameCollision, SpecBindError, error_model};
use crate::types::{Parameter, SpecParameter, lemma_params_model, param_model, params_model,
    push_canon, spec_canon, type_model};
use vstd::prelude::*;

verus! {

// ---------------------------------------------------------------------------
// Canonical signatures
// ---------------------------------------------------------------------------

pub open spec fn spec_sig_params(ps: Seq<SpecParameter>, i: int) -> Seq<u8>
    decreases ps.len() - i,
{
    if i < 0 || i >= ps.len() {
        Seq::empty()
    } else if i + 1 == ps.len() {
        spec_canon(ps[i].ty)
    } else {
        spec_canon(ps[i].ty) + seq![44u8] + spec_sig_params(ps, i + 1)
    }
}

/// The canonical signature: name, then the parenthesized, comma-separated
/// canonical parameter types, parameter names ignored.
pub open spec fn spec_signature(name: Seq<u8>, ps: Seq<SpecParameter>) -> Seq<u8> {
    name + seq![40u8] + spec_sig_params(ps, 0) + seq![41u8]
}

fn push_sig_params(out: &mut Vec<u8>, ps: &Vec<Parameter>, i: usize)
    requires
        i <= ps@.len(),
    ensures
        final(out)@ == old(out)@ + spec_sig_params(params_model(ps@, 0), i as int),
    decreases ps@.len() - i,
{
    proof {
        lemma_params_model(ps@, 0);
    }
    if i == ps.len() {
        proof {
            assert(out@ =~= old(out)@ + spec_sig_params(params_model(ps@, 0), i as int));
        }
    } else if i + 1 == ps.len() {
        push_canon(out, &ps[i].solidity_type);
        proof {
            assert(out@ =~= old(out)@ + spec_sig_params(params_model(ps@, 0), i as int));
        }
    } else {
        push_canon(out, &ps[i].solidity_type);
        out.push(44);
        push_sig_params(out, ps, i + 1);
        proof {
            assert(out@ =~= old(out)@ + spec_sig_params(params_model(ps@, 0), i as int));
        }
    }
}

/// The canonical signature of a function or event, as a byte vector.
pub fn signature_bytes(name: &Vec<u8>, ps: &Vec<Parameter>) -> (r: Vec<u8>)
    ensures
        r@ == spec_signature(name@, params_model(ps@, 0)),
{
    let mut out = clone_bytes(name);
    out.push(40);
    push_sig_params(&mut out, ps, 0);
    out.push(41);
    proof {
        assert(out@ =~= spec_signature(name@, params_model(ps@, 0)));
    }
    out
}

// ---------------------------------------------------------------------------
// Sanitization
// ---------------------------------------------------------------------------

pub open spec fn spec_mapped(s: Seq<u8>) -> Seq<u8> {
    Seq::new(
        s.len(),
        |i: int|
            if is_ident_byte(s[i]) {
                s[i]
            } else {
                95u8
            },
    )
}

/// The fixed escaping rule for candidate identifiers.
pub open spec fn spec_sanitize(s: Seq<u8>) -> Seq<u8> {
    let base = if s.len() == 0 {
        seq![95u8]
    } else {
        spec_mapped(s)
    };
    let pfx = if is_digit(base[0]) {
        seq![95u8] + base
    } else {
        base
    };
    if spec_is_reserved(pfx) {
        pfx + seq![95u8]
    } else {
        pfx
    }
}

/// Sanitizes a candidate identifier, mirroring `spec_sanitize`.
pub fn sanitize(s: &Vec<u8>) -> (r: Vec<u8>)
    ensures
        r@ == spec_sanitize(s@),
{
    let mut base: Vec<u8> = Vec::new();
    if s.len() == 0 {
        base.push(95);
        proof {
            assert(base@ =~= seq![95u8]);
        }
    } else {
        let mut i: usize = 0;
        while i < s.len()
            invariant
                i <= s@.len(),
                base@.len() == i,
                forall|j: int| 0 <= j < i ==> base@[j] == spec_mapped(s@)[j],
            decreases s@.len() - i,
        {
            let c = s[i];
            if (97 <= c && c <= 122) || (65 <= c && c <= 90) || (48 <= c && c <= 57) || c == 95 {
                base.push(c);
            } else {
                base.push(95);
            }
            i += 1;
        }
        proof {
            assert(base@ =~= spec_mapped(s@));
        }
    }
    let pfx: Vec<u8> = if base.len() > 0 && 48 <= base[0] && base[0] <= 57 {
        let mut p: Vec<u8> = Vec::new();
        p.push(95);
        let mut k: usize = 0;
        while k < base.len()
            invariant
                k <= base@.len(),
                p@.len() == k + 1,
                p@[0] == 95u8,
                forall|j: int| 0 <= j < k ==> p@[j + 1] == base@[j],
            decreases base@.len() - k,
        {
            p.push(base[k]);
            k += 1;
        }
        proof {
            assert(p@ =~= seq![95u8] + base@);
        }
        p
    } else {
        base
    };
    if is_reserved(&pfx) {
        let mut out = pfx;
        out.push(95);
        proof {
            assert(out@ =~= spec_sanitize(s@));
        }
        out
    } else {
        proof {
            assert(pfx@ =~= spec_sanitize(s@));
        }
        pfx
    }
}

// ---------------------------------------------------------------------------
// Entry views
// ---------------------------------------------------------------------------

pub open spec fn is_callable(e: SpecAbiEntry) -> bool {
    e is Function || e is Event
}

pub open spec fn entry_name(e: SpecAbiEntry) -> Seq<u8> {
    match e {
        SpecAbiEntry::Function { name, .. } => name,
        SpecAbiEntry::Event { name, .. } => name,
        _ => Seq::empty(),
    }
}

pub open spec fn entry_inputs(e: SpecAbiEntry) -> Seq<SpecParameter> {
    match e {
        SpecAbiEntry::Function { inputs, .. } => inputs,
        SpecAbiEntry::Event { inputs, .. } => inputs,
        _ => Seq::empty(),
    }
}

pub open spec fn sig_of(e: SpecAbiEntry) -> Seq<u8> {
    spec_signature(entry_name(e), entry_inputs(e))
}

pub open spec fn same_class(a: SpecAbiEntry, b: SpecAbiEntry) -> bool {
    (a is Function && b is Function) || (a is Event && b is Event)
}

/// The canonical signature of a callable entry.
pub fn sig_of_entry(e: &AbiEntry) -> (r: Vec<u8>)
    requires
        is_callable(entry_model(*e)),
    ensures
        r@ == sig_of(entry_model(*e)),
{
    match e {
        AbiEntry::Function { name, inputs, .. } => signature_bytes(name, inputs),
        AbiEntry::Event { name, inputs, .. } => signature_bytes(name, inputs),
        AbiEntry::Constructor { .. } => {
            proof {
                assert(false);
            }
            Vec::new()
        },
        AbiEntry::Fallback => {
            proof {
                assert(false);
            }
            Vec::new()
        },
        AbiEntry::Receive => {
            proof {
                assert(false);
            }
            Vec::new()
        },
    }
}

// ---------------------------------------------------------------------------
// True duplicates
// ---------------------------------------------------------------------------

/// Does some earlier entry of the same kind carry the very same signature?
pub open spec fn dup_before(s: Seq<SpecAbiEntry>, j: int) -> bool {
    exists|i: int| 0 <= i < j && same_class(s[i], s[j]) && sig_of(s[i]) == sig_of(s[j])
}

/// The first entry that duplicates an earlier one, scanning from `j`.
pub open spec fn spec_first_dup(s: Seq<SpecAbiEntry>, j: int) -> Option<int>
    decreases s.len() - j,
{
    if j < 0 || j >= s.len() {
        Option::None
    } else if is_callable(s[j]) && dup_before(s, j) {
        Option::Some(j)
    } else {
        spec_first_dup(s, j + 1)
    }
}

fn same_class_at(a: &AbiEntry, b: &AbiEntry) -> (r: bool)
    ensures
        r == same_class(entry_model(*a), entry_model(*b)),
{
    match (a, b) {
        (AbiEntry::Function { .. }, AbiEntry::Function { .. }) => true,
        (AbiEntry::Event { .. }, AbiEntry::Event { .. }) => true,
        _ => false,
    }
}

fn is_callable_at(e: &AbiEntry) -> (r: bool)
    ensures
        r == is_callable(entry_model(*e)),
{
    match e {
        AbiEntry::Function { .. } => true,
        AbiEntry::Event { .. } => true,
        _ => false,
    }
}

fn dup_before_at(abi: &Vec<AbiEntry>, j: usize) -> (r: bool)
    requires
        j < abi@.len(),
        is_callable(entries_model(abi@, 0)[j as int]),
    ensures
        r == dup_before(entries_model(abi@, 0), j as int),
{
    proof {
        lemma_entries_model(abi@, 0);
    }
    let sj = sig_of_entry(&abi[j]);
    let ghost s = entries_model(abi@, 0);
    let mut i: usize = 0;
    while i < j
        invariant
            i <= j < abi@.len(),
            s == entries_model(abi@, 0),
            s.len() == abi@.len(),
            forall|k: int| 0 <= k < abi@.len() ==> s[k] == entry_model(abi@[k]),
            sj@ == sig_of(s[j as int]),
            forall|k: int| 0 <= k < i ==> !(same_class(s[k], s[j as int]) && sig_of(s[k]) == sig_of(s[j as int])),
        decreases j - i,
    {
        if same_class_at(&abi[i], &abi[j]) {
            let si = sig_of_entry(&abi[i]);
            if bytes_eq(&si, &sj) {
                proof {
                    assert(same_class(s[i as int], s[j as int]) && sig_of(s[i as int]) == sig_of(
                        s[j as int],
                    ));
                }
                return true;
            }
        }
        i += 1;
    }
    false
}

/// The first true duplicate, with its canonical signature.
pub fn find_dup(abi: &Vec<AbiEntry>, j: usize) -> (r: Option<Vec<u8>>)
    requires
        j <= abi@.len(),
    ensures
        match r {
            Option::None => spec_first_dup(entries_model(abi@, 0), j as int) is None,
            Option::Some(sig) => {
                &&& spec_first_dup(entries_model(abi@, 0), j as int) is Some
                &&& sig@ == sig_of(
                    entries_model(abi@, 0)[spec_first_dup(entries_model(abi@, 0), j as int)->Some_0],
                )
            },
        },
    decreases abi@.len() - j,
{
    proof {
        lemma_entries_model(abi@, 0);
    }
    if j == abi.len() {
        Option::None
    } else if is_callable_at(&abi[j]) {
        if dup_before_at(abi, j) {
            Option::Some(sig_of_entry(&abi[j]))
        } else {
            find_dup(abi, j + 1)
        }
    } else {
        find_dup(abi, j + 1)
    }
}

// ---------------------------------------------------------------------------
// Identifier assignment
// ---------------------------------------------------------------------------

pub open spec fn names_model(s: Seq<Vec<u8>>) -> Seq<Seq<u8>> {
    Seq::new(s.len(), |i: int| s[i]@)
}

pub open spec fn matches_group(e: SpecAbiEntry, cls_fn: bool, base: Seq<u8>) -> bool {
    is_callable(e) && (e is Function) == cls_fn && spec_sanitize(entry_name(e)) == base
}

/// How many entries before position `i` fall in the group of kind `cls_fn`
/// and sanitized base name `base`.
pub open spec fn spec_count_group(s: Seq<SpecAbiEntry>, cls_fn: bool, base: Seq<u8>, i: int) -> int
    decreases i,
{
    if i <= 0 {
        0
    } else {
        spec_count_group(s, cls_fn, base, i - 1) + if matches_group(s[i - 1], cls_fn, base) {
            1int
        } else {
            0int
        }
    }
}

fn count_group(abi: &Vec<AbiEntry>, cls_fn: bool, base: &Vec<u8>, upto: usize) -> (r: usize)
    requires
        upto <= abi@.len(),
    ensures
        r == spec_count_group(entries_model(abi@, 0), cls_fn, base@, upto as int),
        r <= upto,
{
    proof {
        lemma_entries_model(abi@, 0);
    }
    let ghost s = entries_model(abi@, 0);
    let mut cnt: usize = 0;
    let mut k: usize = 0;
    while k < upto
        invariant
            k <= upto <= abi@.len(),
            s == entries_model(abi@, 0),
            s.len() == abi@.len(),
            forall|m: int| 0 <= m < abi@.len() ==> s[m] == entry_model(abi@[m]),
            cnt == spec_count_group(s, cls_fn, base@, k as int),
            cnt <= k,
        decreases upto - k,
    {
        let is_c = is_callable_at(&abi[k]);
        if is_c {
            let cls_match = match &abi[k] {
                AbiEntry::Function { .. } => cls_fn,
                _ => !cls_fn,
            };
            if cls_match {
                let name: &Vec<u8> = match &abi[k] {
                    AbiEntry::Function { name, .. } => name,
                    AbiEntry::Event { name, .. } => name,
                    _ => base,
                };
                let sname = sanitize(name);
                if bytes_eq(&sname, base) {
                    cnt += 1;
                }
            }
        }
        k += 1;
    }
    cnt
}

/// The candidate identifier of the callable entry at `j`: its sanitized
/// base name, with the zero-based group position appended when overloaded.
pub open spec fn spec_candidate(s: Seq<SpecAbiEntry>, j: int) -> Seq<u8> {
    let base = spec_sanitize(entry_name(s[j]));
    let cls = s[j] is Function;
    if spec_count_group(s, cls, base, s.len() as int) <= 1 {
        base
    } else {
        base + seq![95u8] + spec_dec(spec_count_group(s, cls, base, j) as nat)
    }
}

fn candidate_for(abi: &Vec<AbiEntry>, j: usize, name: &Vec<u8>, cls: bool) -> (r: Vec<u8>)
    requires
        j < abi@.len(),
        is_callable(entries_model(abi@, 0)[j as int]),
        name@ == entry_name(entries_model(abi@, 0)[j as int]),
        cls == (entries_model(abi@, 0)[j as int] is Function),
    ensures
        r@ == spec_candidate(entries_model(abi@, 0), j as int),
{
    proof {
        lemma_entries_model(abi@, 0);
    }
    let base = sanitize(name);
    let total = count_group(abi, cls, &base, abi.len());
    if total <= 1 {
        base
    } else {
        let pos = count_group(abi, cls, &base, j);
        let mut out = base;
        out.push(95);
        push_dec(&mut out, pos as u64);
        proof {
            assert(out@ =~= spec_candidate(entries_model(abi@, 0), j as int));
        }
        out
    }
}

fn candidate(abi: &Vec<AbiEntry>, j: usize) -> (r: Vec<u8>)
    requires
        j < abi@.len(),
        is_callable(entries_model(abi@, 0)[j as int]),
    ensures
        r@ == spec_candidate(entries_model(abi@, 0), j as int),
{
    proof {
        lemma_entries_model(abi@, 0);
    }
    match &abi[j] {
        AbiEntry::Function { name, .. } => candidate_for(abi, j, name, true),
        AbiEntry::Event { name, .. } => candidate_for(abi, j, name, false),
        _ => {
            proof {
                assert(false);
            }
            Vec::new()
        },
    }
}

// ---------------------------------------------------------------------------
// Freshening
// ---------------------------------------------------------------------------

pub open spec fn max_len(used: Seq<Seq<u8>>) -> int
    decreases used.len(),
{
    if used.len() == 0 {
        0
    } else {
        let m = max_len(used.drop_last());
        if used.last().len() > m {
            used.last().len() as int
        } else {
            m
        }
    }
}

pub proof fn lemma_max_len(used: Seq<Seq<u8>>)
    ensures
        0 <= max_len(used),
        forall|k: int| 0 <= k < used.len() ==> used[k].len() <= max_len(used),
    decreases used.len(),
{
    if used.len() > 0 {
        lemma_max_len(used.drop_last());
        assert forall|k: int| 0 <= k < used.len() implies used[k].len() <= max_len(used) by {
            if k < used.len() - 1 {
                assert(used.drop_last()[k] == used[k]);
            }
        }
    }
}

/// Appends underscores to `cand` until it differs from everything in `used`.
pub open spec fn spec_freshen(cand: Seq<u8>, used: Seq<Seq<u8>>) -> Seq<u8>
    decreases max_len(used) + 1 - cand.len(),
{
    if used.contains(cand) {
        {
            proof {
                lemma_max_len(used);
                let k = choose|k: int| 0 <= k < used.len() && used[k] == cand;
                assert(used[k].len() <= max_len(used));
            }
            spec_freshen(cand + seq![95u8], used)
        }
    } else {
        cand
    }
}

/// What `spec_freshen` hands back is never an element of `used`.
pub proof fn lemma_freshen_fresh(cand: Seq<u8>, used: Seq<Seq<u8>>)
    ensures
        !used.contains(spec_freshen(cand, used)),
    decreases max_len(used) + 1 - cand.len(),
{
    if used.contains(cand) {
        lemma_max_len(used);
        let k = choose|k: int| 0 <= k < used.len() && used[k] == cand;
        assert(used[k].len() <= max_len(used));
        lemma_freshen_fresh(cand + seq![95u8], used);
    }
}

fn contains_name(used: &Vec<Vec<u8>>, x: &Vec<u8>) -> (r: bool)
    ensures
        r == names_model(used@).contains(x@),
{
    let mut i: usize = 0;
    while i < used.len()
        invariant
            i <= used@.len(),
            forall|k: int| 0 <= k < i ==> names_model(used@)[k] != x@,
        decreases used@.len() - i,
    {
        if bytes_eq(&used[i], x) {
            proof {
                assert(names_model(used@)[i as int] == x@);
            }
            return true;
        }
        i += 1;
    }
    proof {
        assert forall|k: int| 0 <= k < names_model(used@).len() implies names_model(used@)[k]
            != x@ by {}
    }
    false
}

fn freshen(cand: Vec<u8>, used: &Vec<Vec<u8>>) -> (r: Vec<u8>)
    ensures
        r@ == spec_freshen(cand@, names_model(used@)),
{
    let ghost orig = cand@;
    let ghost u = names_model(used@);
    let mut c = cand;
    while contains_name(used, &c)
        invariant
            u == names_model(used@),
            spec_freshen(c@, u) == spec_freshen(orig, u),
        decreases max_len(u) + 1 - c@.len(),
    {
        proof {
            lemma_max_len(u);
            let k = choose|k: int| 0 <= k < u.len() && u[k] == c@;
            assert(u[k].len() <= max_len(u));
        }
        let ghost before = c@;
        c.push(95);
        proof {
            assert(c@ =~= before + seq![95u8]);
        }
    }
    c
}

// ---------------------------------------------------------------------------
// Resolved entries
// ---------------------------------------------------------------------------

/// A callable entry with its assigned generation identifier.
pub enum ResolvedUnit {
    Fn {
        identifier: Vec<u8>,
        inputs: Vec<Parameter>,
        outputs: Vec<Parameter>,
        mutability: Mutability,
    },
    Ev { identifier: Vec<u8>, inputs: Vec<Parameter>, anonymous: bool },
}

/// Mathematical model of `ResolvedUnit`.
pub enum SpecResolvedUnit {
    Fn {
        identifier: Seq<u8>,
        inputs: Seq<SpecParameter>,
        outputs: Seq<SpecParameter>,
        mutability: Mutability,
    },
    Ev { identifier: Seq<u8>, inputs: Seq<SpecParameter>, anonymous: bool },
}

pub open spec fn resolved_model(u: ResolvedUnit) -> SpecResolvedUnit {
    match u {
        ResolvedUnit::Fn { identifier, inputs, outputs, mutability } => SpecResolvedUnit::Fn {
            identifier: identifier@,
            inputs: params_model(inputs@, 0),
            outputs: params_model(outputs@, 0),
            mutability,
        },
        ResolvedUnit::Ev { identifier, inputs, anonymous } => SpecResolvedUnit::Ev {
            identifier: identifier@,
            inputs: params_model(inputs@, 0),
            anonymous,
        },
    }
}

pub open spec fn resolved_list_model(s: Seq<ResolvedUnit>, i: int) -> Seq<SpecResolvedUnit>
    decreases s.len() - i,
{
    if i < 0 || i >= s.len() {
        Seq::empty()
    } else {
        seq![resolved_model(s[i])] + resolved_list_model(s, i + 1)
    }
}

pub proof fn lemma_resolved_list_model(s: Seq<ResolvedUnit>, i: int)
    requires
        0 <= i <= s.len(),
    ensures
        resolved_list_model(s, i).len() == s.len() - i,
        forall|j: int| i <= j < s.len() ==> resolved_list_model(s, i)[j - i] == resolved_model(s[j]),
    decreases s.len() - i,
{
    if i < s.len() {
        lemma_resolved_list_model(s, i + 1);
    }
}

/// The identifier carried by a resolved unit.
pub open spec fn unit_id(u: SpecResolvedUnit) -> Seq<u8> {
    match u {
        SpecResolvedUnit::Fn { identifier, .. } => identifier,
        SpecResolvedUnit::Ev { identifier, .. } => identifier,
    }
}

/// The identifiers assigned to the callable entries `s[j..]`, given the
/// identifiers already in use.
pub open spec fn spec_ids(s: Seq<SpecAbiEntry>, j: int, used: Seq<Seq<u8>>) -> Seq<Seq<u8>>
    decreases s.len() - j,
{
    if j < 0 || j >= s.len() {
        Seq::empty()
    } else if is_callable(s[j]) {
        let id = spec_freshen(spec_candidate(s, j), used);
        seq![id] + spec_ids(s, j + 1, used.push(id))
    } else {
        spec_ids(s, j + 1, used)
    }
}

fn assign_ids(abi: &Vec<AbiEntry>, j: usize, used: Vec<Vec<u8>>) -> (r: Vec<Vec<u8>>)
    requires
        j <= abi@.len(),
    ensures
        names_model(r@) == spec_ids(entries_model(abi@, 0), j as int, names_model(used@)),
    decreases abi@.len() - j,
{
    proof {
        lemma_entries_model(abi@, 0);
    }
    if j == abi.len() {
        let r: Vec<Vec<u8>> = Vec::new();
        proof {
            assert(names_model(r@) =~= Seq::<Seq<u8>>::empty());
        }
        r
    } else if is_callable_at(&abi[j]) {
        let cand = candidate(abi, j);
        let id = freshen(cand, &used);
        let id2 = clone_bytes(&id);
        let ghost used0 = names_model(used@);
        let ghost idg = id@;
        let mut used2 = used;
        used2.push(id);
        proof {
            assert(names_model(used2@) =~= used0.push(idg));
        }
        let mut rest = assign_ids(abi, j + 1, used2);
        let ghost rest0 = rest@;
        rest.insert(0, id2);
        proof {
            assert(rest@ =~= seq![id2] + rest0);
            assert forall|k: int| 0 <= k < rest@.len() implies names_model(rest@)[k] == (seq![idg]
                + names_model(rest0))[k] by {
                if k == 0 {
                    assert(rest@[0] == id2);
                } else {
                    assert(rest@[k] == rest0[k - 1]);
                }
            }
            assert(names_model(rest@) =~= seq![idg] + names_model(rest0));
        }
        rest
    } else {
        assign_ids(abi, j + 1, used)
    }
}

/// Zips the remaining entries with their identifiers into resolved units,
/// dropping the entries that take no identifier.
pub open spec fn mk_unit(e: SpecAbiEntry, id: Seq<u8>) -> SpecResolvedUnit {
    match e {
        SpecAbiEntry::Function { name, inputs, outputs, mutability } => SpecResolvedUnit::Fn {
            identifier: id,
            inputs,
            outputs,
            mutability,
        },
        SpecAbiEntry::Event { name, inputs, anonymous } => SpecResolvedUnit::Ev {
            identifier: id,
            inputs,
            anonymous,
        },
        _ => SpecResolvedUnit::Fn {
            identifier: id,
            inputs: Seq::empty(),
            outputs: Seq::empty(),
            mutability: Mutability::Nonpayable,
        },
    }
}

pub open spec fn spec_units(s: Seq<SpecAbiEntry>, ids: Seq<Seq<u8>>) -> Seq<SpecResolvedUnit>
    decreases s.len(),
{
    if s.len() == 0 {
        Seq::empty()
    } else if is_callable(s[0]) {
        if ids.len() == 0 {
            Seq::empty()
        } else {
            seq![mk_unit(s[0], ids[0])] + spec_units(s.drop_first(), ids.drop_first())
        }
    } else {
        spec_units(s.drop_first(), ids)
    }
}

fn build_units(abi: Vec<AbiEntry>, ids: Vec<Vec<u8>>) -> (r: Vec<ResolvedUnit>)
    ensures
        resolved_list_model(r@, 0) == spec_units(entries_model(abi@, 0), names_model(ids@)),
    decreases abi@.len(),
{
    let ghost sorig = entries_model(abi@, 0);
    let ghost idsorig = names_model(ids@);
    proof {
        lemma_entries_model(abi@, 0);
    }
    let mut abi = abi;
    let mut ids = ids;
    if abi.len() == 0 {
        let r: Vec<ResolvedUnit> = Vec::new();
        proof {
            assert(resolved_list_model(r@, 0) =~= Seq::<SpecResolvedUnit>::empty());
        }
        r
    } else {
        let ghost orig_abi = abi@;
        let e = abi.remove(0);
        let ghost tail = abi@;
        proof {
            assert forall|k: int| 0 <= k < tail.len() implies tail[k] == orig_abi[k + 1] by {
                assert(tail[k] == orig_abi.remove(0)[k]);
            }
            lemma_entries_model(tail, 0);
            lemma_entries_model(orig_abi, 0);
            assert forall|k: int|
                0 <= k < tail.len() implies entries_model(tail, 0)[k] == sorig.drop_first()[k] by {
                assert(entries_model(tail, 0)[k] == entry_model(tail[k]));
                assert(tail[k] == orig_abi[k + 1]);
                assert(sorig[k + 1] == entry_model(orig_abi[k + 1]));
                assert(sorig.drop_first()[k] == sorig[k + 1]);
            }
            assert(entries_model(tail, 0) =~= sorig.drop_first());
        }
        let callable = is_callable_at(&e);
        if callable {
            if ids.len() == 0 {
                let r: Vec<ResolvedUnit> = Vec::new();
                proof {
                    assert(resolved_list_model(r@, 0) =~= Seq::<SpecResolvedUnit>::empty());
                }
                r
            } else {
                let ghost orig_ids = ids@;
                let id = ids.remove(0);
                proof {
                    assert forall|k: int| 0 <= k < ids@.len() implies ids@[k] == orig_ids[k
                        + 1] by {
                        assert(ids@[k] == orig_ids.remove(0)[k]);
                    }
                    assert forall|k: int|
                        0 <= k < ids@.len() implies names_model(ids@)[k]
                        == idsorig.drop_first()[k] by {
                        assert(names_model(ids@)[k] == ids@[k]@);
                        assert(idsorig[k + 1] == orig_ids[k + 1]@);
                        assert(idsorig.drop_first()[k] == idsorig[k + 1]);
                    }
                    assert(names_model(ids@) =~= idsorig.drop_first());
                }
                let unit: ResolvedUnit = match e {
                    AbiEntry::Function { name: _, inputs, outputs, mutability } => ResolvedUnit::Fn {
                        identifier: id,
                        inputs,
                        outputs,
                        mutability,
                    },
                    AbiEntry::Event { name: _, inputs, anonymous } => ResolvedUnit::Ev {
                        identifier: id,
                        inputs,
                        anonymous,
                    },
                    _ => {
                        proof {
                            assert(false);
                        }
                        ResolvedUnit::Fn {
                            identifier: id,
                            inputs: Vec::new(),
                            outputs: Vec::new(),
                            mutability: Mutability::Nonpayable,
                        }
                    },
                };
                let ghost ug = unit;
                let mut rest = build_units(abi, ids);
                let ghost rest0 = rest@;
                rest.insert(0, unit);
                proof {
                    assert(rest@ =~= seq![ug] + rest0);
                    lemma_resolved_list_model(rest@, 0);
                    lemma_resolved_list_model(rest0, 0);
                    assert forall|k: int|
                        0 <= k < rest@.len() implies resolved_list_model(rest@, 0)[k] == (seq![
                        resolved_model(ug)] + resolved_list_model(rest0, 0))[k] by {
                        assert(resolved_list_model(rest@, 0)[k] == resolved_model(rest@[k]));
                        if k == 0 {
                            assert(rest@[0] == ug);
                        } else {
                            assert(rest@[k] == rest0[k - 1]);
                            assert(resolved_list_model(rest0, 0)[k - 1] == resolved_model(
                                rest0[k - 1],
                            ));
                        }
                    }
                    assert(resolved_list_model(rest@, 0) =~= seq![resolved_model(ug)]
                        + resolved_list_model(rest0, 0));
                    assert(resolved_model(ug) == mk_unit(sorig[0], idsorig[0]));
                }
                rest
            }
        } else {
            build_units(abi, ids)
        }
    }
}

/// Resolution over a whole entry list: fails exactly on a true duplicate
/// (two entries of one kind with the same full canonical signature, the
/// first such signature reported), and otherwise assigns every function and
/// event its deterministic, unique identifier.
pub open spec fn spec_resolve(s: Seq<SpecAbiEntry>) -> Result<Seq<SpecResolvedUnit>, SpecBindError> {
    match spec_first_dup(s, 0) {
        Option::Some(j) => Result::Err(SpecBindError::Collision(sig_of(s[j]))),
        Option::None => Result::Ok(spec_units(s, spec_ids(s, 0, Seq::empty()))),
    }
}

/// Resolves all callable entries, mirroring `spec_resolve`.
pub fn resolve_entries(abi: Vec<AbiEntry>) -> (r: Result<Vec<ResolvedUnit>, BindError>)
    ensures
        (match r {
            Result::Ok(us) => Result::Ok(resolved_list_model(us@, 0)),
            Result::Err(e) => Result::Err(error_model(e)),
        }) == spec_resolve(entries_model(abi@, 0)),
{
    match find_dup(&abi, 0) {
        Option::Some(sig) => Result::Err(
            BindError::Collision(OverloadNameCollision { signature: sig }),
        ),
        Option::None => {
            let empty_used: Vec<Vec<u8>> = Vec::new();
            proof {
                assert(names_model(empty_used@) =~= Seq::<Seq<u8>>::empty());
            }
            let ids = assign_ids(&abi, 0, empty_used);
            Result::Ok(build_units(abi, ids))
        },
    }
}

// ---------------------------------------------------------------------------
// Laws
// ---------------------------------------------------------------------------

/// Resolution fails if and only if two entries of one kind carry the very
/// same full canonical signature: mere overloads never abort it.
pub proof fn lemma_duplicates_iff(s: Seq<SpecAbiEntry>)
    ensures
        (spec_resolve(s) is Err) <==> (exists|i: int, j: int|
            0 <= i < j < s.len() && same_class(s[i], s[j]) && sig_of(s[i]) == sig_of(s[j])),
{
    lemma_first_dup_iff(s, 0);
    if spec_resolve(s) is Err {
        let j = spec_first_dup(s, 0)->Some_0;
        assert(dup_before(s, j));
        let i = choose|i: int| 0 <= i < j && same_class(s[i], s[j]) && sig_of(s[i]) == sig_of(s[j]);
        assert(0 <= i < j < s.len() && same_class(s[i], s[j]) && sig_of(s[i]) == sig_of(s[j]));
    }
}

proof fn lemma_first_dup_iff(s: Seq<SpecAbiEntry>, j: int)
    requires
        0 <= j,
    ensures
        (spec_first_dup(s, j) is Some) <==> (exists|a: int, b: int|
            0 <= a < b < s.len() && j <= b && same_class(s[a], s[b]) && sig_of(s[a]) == sig_of(
                s[b],
            )),
        spec_first_dup(s, j) is Some ==> {
            let d = spec_first_dup(s, j)->Some_0;
            j <= d < s.len() && is_callable(s[d]) && dup_before(s, d)
        },
    decreases s.len() - j,
{
    if j < s.len() {
        if is_callable(s[j]) && dup_before(s, j) {
            let i = choose|i: int|
                0 <= i < j && same_class(s[i], s[j]) && sig_of(s[i]) == sig_of(s[j]);
            assert(0 <= i < j < s.len() && j <= j && same_class(s[i], s[j]) && sig_of(s[i])
                == sig_of(s[j]));
        } else {
            lemma_first_dup_iff(s, j + 1);
            if spec_first_dup(s, j) is None {
                if exists|a: int, b: int|
                    0 <= a < b < s.len() && j <= b && same_class(s[a], s[b]) && sig_of(s[a])
                        == sig_of(s[b]) {
                    let (a, b) = choose|a: int, b: int|
                        0 <= a < b < s.len() && j <= b && same_class(s[a], s[b]) && sig_of(s[a])
                            == sig_of(s[b]);
                    if b == j {
                        assert(same_class(s[a], s[j]));
                        assert(is_callable(s[j]));
                        assert(dup_before(s, j));
                        assert(false);
                    } else {
                        assert(0 <= a < b < s.len() && j + 1 <= b && same_class(s[a], s[b])
                            && sig_of(s[a]) == sig_of(s[b]));
                    }
                }
            }
        }
    }
}

/// Identifier freshness: none occurs in `used`, and no two are equal.
pub open spec fn distinct_ids(ids: Seq<Seq<u8>>, used: Seq<Seq<u8>>) -> bool {
    (forall|a: int| 0 <= a < ids.len() ==> !used.contains(ids[a])) && (forall|a: int, b: int|
        0 <= a < b < ids.len() ==> ids[a] != ids[b])
}

/// Every assigned identifier is fresh against `used` and against the others.
pub proof fn lemma_ids_unique(s: Seq<SpecAbiEntry>, j: int, used: Seq<Seq<u8>>)
    ensures
        distinct_ids(spec_ids(s, j, used), used),
    decreases s.len() - j,
{
    if 0 <= j < s.len() {
        if is_callable(s[j]) {
            let id = spec_freshen(spec_candidate(s, j), used);
            lemma_freshen_fresh(spec_candidate(s, j), used);
            lemma_ids_unique(s, j + 1, used.push(id));
            let rest = spec_ids(s, j + 1, used.push(id));
            assert(distinct_ids(rest, used.push(id)));
            assert forall|k: int| 0 <= k < rest.len() implies !used.contains(rest[k]) && rest[k]
                != id by {
                assert(!used.push(id).contains(rest[k]));
                if used.contains(rest[k]) {
                    let w = choose|w: int| 0 <= w < used.len() && used[w] == rest[k];
                    assert(used.push(id)[w] == rest[k]);
                    assert(used.push(id).contains(rest[k]));
                    assert(false);
                }
                assert(used.push(id)[used.len() as int] == id);
                if rest[k] == id {
                    assert(used.push(id).contains(rest[k]));
                    assert(false);
                }
            }
            let full = spec_ids(s, j, used);
            assert(full == seq![id] + rest);
            assert(full[0] == id);
            assert(forall|k: int| 1 <= k < full.len() ==> full[k] == rest[k - 1]);
            assert forall|a: int| 0 <= a < full.len() implies !used.contains(full[a]) by {
                if a > 0 {
                    assert(full[a] == rest[a - 1]);
                }
            }
            assert forall|a: int, b: int| 0 <= a < b < full.len() implies full[a] != full[b] by {
                if a == 0 {
                    assert(full[b] == rest[b - 1]);
                    assert(rest[b - 1] != id);
                } else {
                    assert(full[a] == rest[a - 1]);
                    assert(full[b] == rest[b - 1]);
                    assert(0 <= a - 1 < b - 1 < rest.len());
                    assert(rest[a - 1] != rest[b - 1]);
                }
            }
            assert(distinct_ids(full, used));
        } else {
            lemma_ids_unique(s, j + 1, used);
            assert(distinct_ids(spec_ids(s, j + 1, used), used));
            assert(spec_ids(s, j, used) == spec_ids(s, j + 1, used));
        }
    } else {
        assert(spec_ids(s, j, used).len() == 0);
    }
}

/// When resolution succeeds, no two resolved units share an identifier.
pub proof fn lemma_identifiers_distinct(s: Seq<SpecAbiEntry>)
    requires
        spec_resolve(s) is Ok,
    ensures
        forall|a: int, b: int|
            0 <= a < b < spec_resolve(s)->Ok_0.len() ==> unit_id(spec_resolve(s)->Ok_0[a])
                != unit_id(spec_resolve(s)->Ok_0[b]),
{
    lemma_ids_unique(s, 0, Seq::empty());
    lemma_units_take_ids(s, spec_ids(s, 0, Seq::empty()));
    let us = spec_resolve(s)->Ok_0;
    let ids = spec_ids(s, 0, Seq::empty());
    assert(distinct_ids(ids, Seq::empty()));
    assert forall|a: int, b: int| 0 <= a < b < us.len() implies unit_id(us[a]) != unit_id(
        us[b],
    ) by {
        assert(unit_id(us[a]) == ids[a]);
        assert(unit_id(us[b]) == ids[b]);
        assert(ids[a] != ids[b]);
    }
}

/// The units carry exactly the assigned identifiers, in order.
proof fn lemma_units_take_ids(s: Seq<SpecAbiEntry>, ids: Seq<Seq<u8>>)
    ensures
        spec_units(s, ids).len() <= ids.len(),
        forall|k: int|
            0 <= k < spec_units(s, ids).len() ==> unit_id(spec_units(s, ids)[k]) == ids[k],
    decreases s.len(),
{
    if s.len() > 0 {
        if is_callable(s[0]) {
            if ids.len() > 0 {
                lemma_units_take_ids(s.drop_first(), ids.drop_first());
                assert forall|k: int|
                    0 <= k < spec_units(s, ids).len() && k < ids.len() implies unit_id(
                    spec_units(s, ids)[k]) == ids[k] by {
                    if k > 0 {
                        assert(spec_units(s, ids)[k] == spec_units(
                            s.drop_first(),
                            ids.drop_first(),
                        )[k - 1]);
                        assert(ids.drop_first()[k - 1] == ids[k]);
                    }
                }
            }
        } else {
            lemma_units_take_ids(s.drop_first(), ids);
        }
    }
}

} // verus!
