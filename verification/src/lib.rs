//! A verified core that turns a structured description of a native
//! object-oriented API into a flat, uniquely named, C-linkage-compatible
//! function surface: eligibility filtering, type-by-type FFI translation,
//! deterministic collision resolution of exported names, synthesis of
//! bridge classes for observed callback argument shapes, and assembly of
//! the per-unit output.
use vstd::prelude::*;

pub mod text;
pub mod types;
pub mod method;
pub mod filter;
pub mod translate;
pub mod resolve;
pub mod slots;
pub mod laws;

use vstd::string::{StringExecFns, StrSliceExecFns};
use crate::types::AllocationPlace;
use crate::method::{
    NativeMethod, MethodV, ApiDatabase, DatabaseV, methods_view, strings_view, clone_method,
};
use crate::filter::{MethodFilter, Eligibility, spec_eligible, eligible};
use crate::translate::{
    spec_method_representable, spec_translate, translate_method, spec_base_name, base_name,
};
use crate::resolve::{
    Candidate, CandV, NamedFfiMethod, NamedV, Group, GroupV, groups_view, named_view,
    spec_add_to_group, add_to_group, spec_group_names, spec_group_methods, resolve_group,
    spec_sort_named, sort_named, spec_sort_str, spec_dedup_adjacent, sort_dedup_strings,
    spec_first_dup, find_dup, pairwise_distinct, lemma_no_dup_distinct, clone_named,
};
use crate::slots::{
    SlotWrapperDescriptor, SlotWrapperV, wrappers_view, tuples_view, spec_synth_methods,
    spec_synth_wrappers, synthesize,
};
use crate::text::{spec_strip_extension, strip_extension, str_eq};

verus! {

/// The run-level failures; per-method skips never abort a run.
#[derive(Debug)]
pub enum RunError {
    /// An eligibility filter itself failed on the named method.
    PolicyFailure { method_name: String },
    /// No captioning strategy disambiguated the colliding methods.
    NamingExhausted { colliding: Vec<NativeMethod> },
    /// Zero non-empty compilation units remained.
    EmptyOutput,
}

/// Mathematical model of `RunError`.
#[verifier::ext_equal]
pub enum RunErrV {
    PolicyFailure { method_name: Seq<char> },
    NamingExhausted { colliding: Seq<MethodV> },
    EmptyOutput,
}

impl View for RunError {
    type V = RunErrV;

    open spec fn view(&self) -> RunErrV {
        match self {
            RunError::PolicyFailure { method_name } => RunErrV::PolicyFailure {
                method_name: method_name@,
            },
            RunError::NamingExhausted { colliding } => RunErrV::NamingExhausted {
                colliding: methods_view(colliding@),
            },
            RunError::EmptyOutput => RunErrV::EmptyOutput,
        }
    }
}

/// One output unit: its base name, its finally named methods in exported
/// name order, and its synthesized bridge-class descriptors.
#[derive(Debug)]
pub struct HeaderDescriptor {
    pub unit_base_name: String,
    pub methods: Vec<NamedFfiMethod>,
    pub slot_wrappers: Vec<SlotWrapperDescriptor>,
}

/// Mathematical model of `HeaderDescriptor`.
#[verifier::ext_equal]
pub struct HeaderV {
    pub unit_base_name: Seq<char>,
    pub methods: Seq<NamedV>,
    pub slot_wrappers: Seq<SlotWrapperV>,
}

impl View for HeaderDescriptor {
    type V = HeaderV;

    open spec fn view(&self) -> HeaderV {
        HeaderV {
            unit_base_name: self.unit_base_name@,
            methods: named_view(self.methods@),
            slot_wrappers: wrappers_view(self.slot_wrappers@),
        }
    }
}

pub open spec fn headers_view(s: Seq<HeaderDescriptor>) -> Seq<HeaderV> {
    Seq::new(s.len(), |i: int| s[i]@)
}

/// The methods of one compilation unit, in input order.
pub open spec fn spec_select(ms: Seq<MethodV>, unit: Seq<char>) -> Seq<MethodV>
    decreases ms.len(),
{
    if ms.len() == 0 {
        Seq::empty()
    } else {
        let rest = spec_select(ms.drop_last(), unit);
        if ms.last().unit_name == unit {
            rest.push(ms.last())
        } else {
            rest
        }
    }
}

/// Phase one of a unit's processing: fold every method through
/// eligibility, translation and base naming into the base-name group map.
/// A filter failure aborts; a method with no FFI mapping is skipped.
pub open spec fn spec_collect_groups<F: MethodFilter>(
    ms: Seq<MethodV>,
    filters: Seq<F>,
    pure_virtual: Seq<Seq<char>>,
    heap: Seq<Seq<char>>,
    ov: Option<AllocationPlace>,
    lib: Seq<char>,
    unit_base: Seq<char>,
) -> Result<Seq<GroupV>, RunErrV>
    decreases ms.len(),
{
    if ms.len() == 0 {
        Result::Ok(Seq::empty())
    } else {
        match spec_collect_groups(ms.drop_last(), filters, pure_virtual, heap, ov, lib, unit_base) {
            Result::Err(e) => Result::Err(e),
            Result::Ok(gs) => {
                let m = ms.last();
                match spec_eligible(m, filters, pure_virtual) {
                    Eligibility::AbortRun => Result::Err(
                        RunErrV::PolicyFailure { method_name: m.name },
                    ),
                    Eligibility::Skip => Result::Ok(gs),
                    Eligibility::Eligible => if spec_method_representable(m) {
                        Result::Ok(
                            spec_add_to_group(
                                gs,
                                spec_base_name(m, lib, unit_base),
                                CandV { method: m, sig: spec_translate(m, heap, ov) },
                            ),
                        )
                    } else {
                        Result::Ok(gs)
                    },
                }
            },
        }
    }
}

/// Phase two: resolve every group, in group order, into unique names.
pub open spec fn spec_resolve_all(gs: Seq<GroupV>) -> Result<Seq<NamedV>, RunErrV>
    decreases gs.len(),
{
    if gs.len() == 0 {
        Result::Ok(Seq::empty())
    } else {
        match spec_resolve_all(gs.drop_last()) {
            Result::Err(e) => Result::Err(e),
            Result::Ok(prev) => match spec_group_names(gs.last()) {
                Option::Some(ns) => Result::Ok(prev + ns),
                Option::None => Result::Err(
                    RunErrV::NamingExhausted { colliding: spec_group_methods(gs.last().members) },
                ),
            },
        }
    }
}

/// One unit's full processing: collect, resolve, sort by exported name.
pub open spec fn spec_process<F: MethodFilter>(
    ms: Seq<MethodV>,
    filters: Seq<F>,
    pure_virtual: Seq<Seq<char>>,
    heap: Seq<Seq<char>>,
    ov: Option<AllocationPlace>,
    lib: Seq<char>,
    unit_base: Seq<char>,
) -> Result<Seq<NamedV>, RunErrV> {
    match spec_collect_groups(ms, filters, pure_virtual, heap, ov, lib, unit_base) {
        Result::Err(e) => Result::Err(e),
        Result::Ok(gs) => match spec_resolve_all(gs) {
            Result::Err(e) => Result::Err(e),
            Result::Ok(named) => Result::Ok(spec_sort_named(named)),
        },
    }
}

/// The real units' headers, in sorted unit order; empty units are dropped.
pub open spec fn spec_headers_fold<F: MethodFilter>(
    units: Seq<Seq<char>>,
    db: DatabaseV,
    filters: Seq<F>,
    lib: Seq<char>,
) -> Result<Seq<HeaderV>, RunErrV>
    decreases units.len(),
{
    if units.len() == 0 {
        Result::Ok(Seq::empty())
    } else {
        match spec_headers_fold(units.drop_last(), db, filters, lib) {
            Result::Err(e) => Result::Err(e),
            Result::Ok(hs) => {
                let unit = units.last();
                let ub = spec_strip_extension(unit);
                match spec_process(
                    spec_select(db.methods, unit),
                    filters,
                    db.pure_virtual_classes,
                    db.heap_allocated_classes,
                    Option::None,
                    lib,
                    ub,
                ) {
                    Result::Err(e) => Result::Err(e),
                    Result::Ok(named) => if named.len() == 0 {
                        Result::Ok(hs)
                    } else {
                        Result::Ok(
                            hs.push(
                                HeaderV {
                                    unit_base_name: ub,
                                    methods: named,
                                    slot_wrappers: Seq::empty(),
                                },
                            ),
                        )
                    },
                }
            },
        }
    }
}

/// The synthetic unit's header, if any signal tuples were observed and any
/// of its methods survived; its methods are always heap-allocated.
pub open spec fn spec_slots_header<F: MethodFilter>(
    db: DatabaseV,
    filters: Seq<F>,
    lib: Seq<char>,
) -> Result<Option<HeaderV>, RunErrV> {
    if db.signal_argument_tuples.len() == 0 {
        Result::Ok(Option::None)
    } else {
        match spec_process(
            spec_synth_methods(db.signal_argument_tuples, lib),
            filters,
            db.pure_virtual_classes,
            db.heap_allocated_classes,
            Option::Some(AllocationPlace::Heap),
            lib,
            "slots"@,
        ) {
            Result::Err(e) => Result::Err(e),
            Result::Ok(named) => if named.len() == 0 {
                Result::Ok(Option::None)
            } else {
                Result::Ok(
                    Option::Some(
                        HeaderV {
                            unit_base_name: "slots"@,
                            methods: named,
                            slot_wrappers: spec_synth_wrappers(db.signal_argument_tuples, lib),
                        },
                    ),
                )
            },
        }
    }
}

/// Every finally named method of the whole run, in output order.
pub open spec fn spec_all_entries(hs: Seq<HeaderV>) -> Seq<NamedV>
    decreases hs.len(),
{
    if hs.len() == 0 {
        Seq::empty()
    } else {
        spec_all_entries(hs.drop_last()) + hs.last().methods
    }
}

/// Every exported name of the whole run, in output order.
pub open spec fn spec_all_names(hs: Seq<HeaderV>) -> Seq<Seq<char>> {
    Seq::new(spec_all_entries(hs).len(), |i: int| spec_all_entries(hs)[i].name)
}

/// The whole run: one pass per sorted unit, then the synthetic slots unit,
/// then the emptiness check and the run-wide uniqueness check.
pub open spec fn spec_run<F: MethodFilter>(db: DatabaseV, lib: Seq<char>, filters: Seq<F>) -> Result<
    Seq<HeaderV>,
    RunErrV,
> {
    let units = spec_dedup_adjacent(spec_sort_str(db.include_files));
    match spec_headers_fold(units, db, filters, lib) {
        Result::Err(e) => Result::Err(e),
        Result::Ok(hs0) => match spec_slots_header(db, filters, lib) {
            Result::Err(e) => Result::Err(e),
            Result::Ok(opt) => {
                let hs = match opt {
                    Option::Some(h) => hs0.push(h),
                    Option::None => hs0,
                };
                if hs.len() == 0 {
                    Result::Err(RunErrV::EmptyOutput)
                } else {
                    match spec_first_dup(spec_all_names(hs), 0) {
                        Option::Some(p) => Result::Err(
                            RunErrV::NamingExhausted {
                                colliding: seq![
                                    spec_all_entries(hs)[p.0].method,
                                    spec_all_entries(hs)[p.1].method,
                                ],
                            },
                        ),
                        Option::None => Result::Ok(hs),
                    }
                }
            },
        },
    }
}

/// An error of a prefix of the grouping fold is the error of the whole.
proof fn lemma_collect_prefix_err<F: MethodFilter>(
    ms: Seq<MethodV>,
    filters: Seq<F>,
    pure_virtual: Seq<Seq<char>>,
    heap: Seq<Seq<char>>,
    ov: Option<AllocationPlace>,
    lib: Seq<char>,
    unit_base: Seq<char>,
    k: int,
)
    requires
        0 <= k <= ms.len(),
        spec_collect_groups(ms.take(k), filters, pure_virtual, heap, ov, lib, unit_base) is Err,
    ensures
        spec_collect_groups(ms, filters, pure_virtual, heap, ov, lib, unit_base)
            == spec_collect_groups(ms.take(k), filters, pure_virtual, heap, ov, lib, unit_base),
    decreases ms.len(),
{
    if k == ms.len() {
        assert(ms.take(k) =~= ms);
    } else {
        assert(ms.drop_last().take(k) =~= ms.take(k));
        lemma_collect_prefix_err(ms.drop_last(), filters, pure_virtual, heap, ov, lib, unit_base, k);
    }
}

/// An error of a prefix of the resolution fold is the error of the whole.
proof fn lemma_resolve_prefix_err(gs: Seq<GroupV>, k: int)
    requires
        0 <= k <= gs.len(),
        spec_resolve_all(gs.take(k)) is Err,
    ensures
        spec_resolve_all(gs) == spec_resolve_all(gs.take(k)),
    decreases gs.len(),
{
    if k == gs.len() {
        assert(gs.take(k) =~= gs);
    } else {
        assert(gs.drop_last().take(k) =~= gs.take(k));
        lemma_resolve_prefix_err(gs.drop_last(), k);
    }
}

/// An error of a prefix of the unit fold is the error of the whole.
proof fn lemma_headers_prefix_err<F: MethodFilter>(
    units: Seq<Seq<char>>,
    db: DatabaseV,
    filters: Seq<F>,
    lib: Seq<char>,
    k: int,
)
    requires
        0 <= k <= units.len(),
        spec_headers_fold(units.take(k), db, filters, lib) is Err,
    ensures
        spec_headers_fold(units, db, filters, lib) == spec_headers_fold(
            units.take(k),
            db,
            filters,
            lib,
        ),
    decreases units.len(),
{
    if k == units.len() {
        assert(units.take(k) =~= units);
    } else {
        assert(units.drop_last().take(k) =~= units.take(k));
        lemma_headers_prefix_err(units.drop_last(), db, filters, lib, k);
    }
}

/// Selects the methods of one unit, in input order.
fn select_unit(ms: &Vec<NativeMethod>, unit: &str) -> (r: Vec<NativeMethod>)
    ensures
        methods_view(r@) == spec_select(methods_view(ms@), unit@),
{
    let mut out: Vec<NativeMethod> = Vec::new();
    let mut i: usize = 0;
    proof {
        assert(methods_view(ms@).take(0) =~= Seq::<MethodV>::empty());
        assert(methods_view(out@) =~= Seq::<MethodV>::empty());
    }
    #[verifier::loop_isolation(false)]
    while i < ms.len()
        invariant
            0 <= i <= ms.len(),
            methods_view(out@) == spec_select(methods_view(ms@).take(i as int), unit@),
        decreases ms.len() - i,
    {
        proof {
            let vs = methods_view(ms@);
            assert(vs.take(i + 1).drop_last() =~= vs.take(i as int));
            assert(vs.take(i + 1).last() == vs[i as int]);
        }
        if str_eq(ms[i].unit_name.as_str(), unit) {
            let m = clone_method(&ms[i]);
            out.push(m);
            proof {
                assert(methods_view(out@) =~= spec_select(methods_view(ms@).take(i + 1), unit@));
            }
        }
        i += 1;
    }
    proof {
        assert(methods_view(ms@).take(ms@.len() as int) =~= methods_view(ms@));
    }
    out
}

/// Processes one unit's methods: grouping, resolution, final name order.
#[verifier::rlimit(100)]
fn process_unit<F: MethodFilter>(
    ms: &Vec<NativeMethod>,
    filters: &Vec<F>,
    pure_virtual: &Vec<String>,
    heap: &Vec<String>,
    ov: Option<AllocationPlace>,
    lib: &str,
    unit_base: &str,
) -> (r: Result<Vec<NamedFfiMethod>, RunError>)
    ensures
        match r {
            Result::Ok(named) => spec_process(
                methods_view(ms@),
                filters@,
                strings_view(pure_virtual@),
                strings_view(heap@),
                ov,
                lib@,
                unit_base@,
            ) == Result::<Seq<NamedV>, RunErrV>::Ok(named_view(named@)),
            Result::Err(e) => spec_process(
                methods_view(ms@),
                filters@,
                strings_view(pure_virtual@),
                strings_view(heap@),
                ov,
                lib@,
                unit_base@,
            ) == Result::<Seq<NamedV>, RunErrV>::Err(e@),
        },
{
    let ghost msv = methods_view(ms@);
    let ghost fsv = filters@;
    let ghost pvv = strings_view(pure_virtual@);
    let ghost hpv = strings_view(heap@);
    let mut groups: Vec<Group> = Vec::new();
    let mut i: usize = 0;
    proof {
        assert(msv.take(0) =~= Seq::<MethodV>::empty());
        assert(groups_view(groups@) =~= Seq::<GroupV>::empty());
    }
    #[verifier::loop_isolation(false)]
    while i < ms.len()
        invariant
            0 <= i <= ms.len(),
            spec_collect_groups(msv.take(i as int), fsv, pvv, hpv, ov, lib@, unit_base@)
                == Result::<Seq<GroupV>, RunErrV>::Ok(groups_view(groups@)),
        decreases ms.len() - i,
    {
        let m = &ms[i];
        proof {
            assert(msv.take(i + 1).drop_last() =~= msv.take(i as int));
            assert(msv.take(i + 1).last() == msv[i as int]);
            assert(msv[i as int] == m@);
        }
        let verdict = eligible(m, filters, pure_virtual);
        match verdict {
            Eligibility::AbortRun => {
                proof {
                    lemma_collect_prefix_err(msv, fsv, pvv, hpv, ov, lib@, unit_base@, i + 1);
                }
                return Result::Err(RunError::PolicyFailure { method_name: m.name.clone() });
            },
            Eligibility::Skip => {},
            Eligibility::Eligible => {
                match translate_method(m, heap, ov) {
                    Result::Err(_) => {},
                    Result::Ok(sig) => {
                        let base = base_name(m, lib, unit_base);
                        let cand = Candidate { method: clone_method(m), sig };
                        add_to_group(&mut groups, base, cand);
                    },
                }
            },
        }
        i += 1;
    }
    proof {
        assert(msv.take(ms@.len() as int) =~= msv);
    }
    let mut named: Vec<NamedFfiMethod> = Vec::new();
    let mut g: usize = 0;
    proof {
        assert(groups_view(groups@).take(0) =~= Seq::<GroupV>::empty());
        assert(named_view(named@) =~= Seq::<NamedV>::empty());
    }
    #[verifier::loop_isolation(false)]
    while g < groups.len()
        invariant
            0 <= g <= groups.len(),
            spec_resolve_all(groups_view(groups@).take(g as int)) == Result::<
                Seq<NamedV>,
                RunErrV,
            >::Ok(named_view(named@)),
        decreases groups.len() - g,
    {
        proof {
            let gv = groups_view(groups@);
            assert(gv.take(g + 1).drop_last() =~= gv.take(g as int));
            assert(gv.take(g + 1).last() == gv[g as int]);
        }
        match resolve_group(&groups[g]) {
            Result::Err(colliding) => {
                proof {
                    lemma_resolve_prefix_err(groups_view(groups@), g + 1);
                }
                return Result::Err(RunError::NamingExhausted { colliding });
            },
            Result::Ok(ns) => {
                let ghost named0 = named_view(named@);
                let ghost nsv = named_view(ns@);
                let mut k: usize = 0;
                #[verifier::loop_isolation(false)]
                while k < ns.len()
                    invariant
                        0 <= k <= ns.len(),
                        named_view(named@) == named0 + nsv.take(k as int),
                        named_view(ns@) == nsv,
                        ns@.len() == nsv.len(),
                    decreases ns.len() - k,
                {
                    let x = clone_named(&ns[k]);
                    named.push(x);
                    proof {
                        assert(nsv.take(k + 1) =~= nsv.take(k as int).push(nsv[k as int]));
                        assert(x@ == nsv[k as int]);
                        assert(named_view(named@) =~= (named0 + nsv.take(k as int)).push(
                            nsv[k as int],
                        ));
                        assert((named0 + nsv.take(k as int)).push(nsv[k as int]) =~= named0
                            + nsv.take(k + 1));
                    }
                    k += 1;
                }
                proof {
                    assert(nsv.take(ns@.len() as int) =~= nsv);
                    assert(named_view(named@) =~= named0 + nsv);
                }
            },
        }
        g += 1;
    }
    proof {
        assert(groups_view(groups@).take(groups@.len() as int) =~= groups_view(groups@));
    }
    let sorted = sort_named(&named);
    Result::Ok(sorted)
}

/// Runs the whole generation pass over the input API description.
///
/// On success the result holds, per compilation unit in sorted unit order
/// (the synthetic slots unit last), every eligible method under its unique
/// exported name, methods sorted by name inside each unit; the exported
/// names are pairwise distinct across the entire run. The run-level
/// failures are the only failure modes; a method whose types have no FFI
/// mapping is skipped without failing the run.
#[verifier::rlimit(100)]
pub fn run<F: MethodFilter>(db: &ApiDatabase, lib_name: &str, filters: &Vec<F>) -> (r: Result<
    Vec<HeaderDescriptor>,
    RunError,
>)
    ensures
        match r {
            Result::Ok(hs) => spec_run(db@, lib_name@, filters@) == Result::<
                Seq<HeaderV>,
                RunErrV,
            >::Ok(headers_view(hs@)) && pairwise_distinct(spec_all_names(headers_view(hs@))),
            Result::Err(e) => spec_run(db@, lib_name@, filters@) == Result::<
                Seq<HeaderV>,
                RunErrV,
            >::Err(e@),
        },
{
    let ghost dbv = db@;
    let units = sort_dedup_strings(&db.include_files);
    let ghost usv = spec_dedup_adjacent(spec_sort_str(dbv.include_files));
    let mut headers: Vec<HeaderDescriptor> = Vec::new();
    let mut u: usize = 0;
    proof {
        assert(strings_view(units@) == usv);
        assert(usv.take(0) =~= Seq::<Seq<char>>::empty());
        assert(headers_view(headers@) =~= Seq::<HeaderV>::empty());
    }
    #[verifier::loop_isolation(false)]
    while u < units.len()
        invariant
            0 <= u <= units.len(),
            strings_view(units@) == usv,
            spec_headers_fold(usv.take(u as int), dbv, filters@, lib_name@) == Result::<
                Seq<HeaderV>,
                RunErrV,
            >::Ok(headers_view(headers@)),
        decreases units.len() - u,
    {
        proof {
            assert(usv.take(u + 1).drop_last() =~= usv.take(u as int));
            assert(usv.take(u + 1).last() == usv[u as int]);
            assert(usv[u as int] == units@[u as int]@);
        }
        let unit = &units[u];
        let ub = strip_extension(unit.as_str());
        let selected = select_unit(&db.methods, unit.as_str());
        match process_unit(
            &selected,
            filters,
            &db.pure_virtual_classes,
            &db.heap_allocated_classes,
            Option::None,
            lib_name,
            ub.as_str(),
        ) {
            Result::Err(e) => {
                proof {
                    lemma_headers_prefix_err(usv, dbv, filters@, lib_name@, u + 1);
                }
                return Result::Err(e);
            },
            Result::Ok(named) => {
                if named.len() > 0 {
                    let h = HeaderDescriptor {
                        unit_base_name: ub,
                        methods: named,
                        slot_wrappers: Vec::new(),
                    };
                    proof {
                        assert(h@.slot_wrappers =~= Seq::<SlotWrapperV>::empty());
                    }
                    headers.push(h);
                }
                proof {
                    assert(headers_view(headers@) =~~= spec_headers_fold(
                        usv.take(u + 1),
                        dbv,
                        filters@,
                        lib_name@,
                    )->Ok_0);
                }
            },
        }
        u += 1;
    }
    proof {
        assert(usv.take(units@.len() as int) =~= usv);
    }
    // the synthetic slots unit
    let ghost hs0v = headers_view(headers@);
    let ghost slots_res = spec_slots_header(dbv, filters@, lib_name@);
    if db.signal_argument_tuples.len() > 0 {
        let (synth_methods, wrappers) = synthesize(&db.signal_argument_tuples, lib_name);
        proof {
            assert(tuples_view(db.signal_argument_tuples@) == dbv.signal_argument_tuples);
            assert(methods_view(synth_methods@) == spec_synth_methods(
                dbv.signal_argument_tuples,
                lib_name@,
            ));
            assert(wrappers_view(wrappers@) == spec_synth_wrappers(
                dbv.signal_argument_tuples,
                lib_name@,
            ));
        }
        match process_unit(
            &synth_methods,
            filters,
            &db.pure_virtual_classes,
            &db.heap_allocated_classes,
            Option::Some(AllocationPlace::Heap),
            lib_name,
            "slots",
        ) {
            Result::Err(e) => {
                proof {
                    assert(slots_res == Result::<Option<HeaderV>, RunErrV>::Err(e@));
                }
                return Result::Err(e);
            },
            Result::Ok(named) => {
                if named.len() > 0 {
                    let h = HeaderDescriptor {
                        unit_base_name: String::from_str("slots"),
                        methods: named,
                        slot_wrappers: wrappers,
                    };
                    proof {
                        assert(h@ =~~= slots_res->Ok_0->0);
                    }
                    headers.push(h);
                    proof {
                        assert(headers_view(headers@) =~= hs0v.push(slots_res->Ok_0->0));
                    }
                } else {
                    proof {
                        assert(slots_res == Result::<Option<HeaderV>, RunErrV>::Ok(
                            Option::<HeaderV>::None,
                        ));
                    }
                }
            },
        }
    } else {
        proof {
            assert(slots_res == Result::<Option<HeaderV>, RunErrV>::Ok(Option::<HeaderV>::None));
        }
    }
    proof {
        assert(slots_res is Ok);
        assert(headers_view(headers@) == (match slots_res->Ok_0 {
            Option::Some(h) => hs0v.push(h),
            Option::None => hs0v,
        }));
    }
    if headers.len() == 0 {
        proof {
            assert(spec_run(dbv, lib_name@, filters@) == Result::<Seq<HeaderV>, RunErrV>::Err(
                RunErrV::EmptyOutput,
            ));
        }
        return Result::Err(RunError::EmptyOutput);
    }
    // run-wide uniqueness of the exported names
    let mut entries: Vec<NamedFfiMethod> = Vec::new();
    let mut names: Vec<String> = Vec::new();
    let mut hi: usize = 0;
    let ghost hsv = headers_view(headers@);
    proof {
        assert(hsv.take(0) =~= Seq::<HeaderV>::empty());
        assert(named_view(entries@) =~= Seq::<NamedV>::empty());
        assert(strings_view(names@) =~= Seq::<Seq<char>>::empty());
    }
    #[verifier::loop_isolation(false)]
    while hi < headers.len()
        invariant
            0 <= hi <= headers.len(),
            headers_view(headers@) == hsv,
            named_view(entries@) == spec_all_entries(hsv.take(hi as int)),
            strings_view(names@).len() == named_view(entries@).len(),
            forall|j: int|
                0 <= j < names@.len() ==> strings_view(names@)[j] == named_view(entries@)[j].name,
        decreases headers.len() - hi,
    {
        let ghost entries0 = named_view(entries@);
        let ghost hmv = named_view(headers@[hi as int].methods@);
        let mut k: usize = 0;
        proof {
            assert(hsv.take(hi + 1).drop_last() =~= hsv.take(hi as int));
            assert(hsv.take(hi + 1).last() == hsv[hi as int]);
            assert(hmv == hsv[hi as int].methods);
        }
        #[verifier::loop_isolation(false)]
        while k < headers[hi].methods.len()
            invariant
                0 <= hi < headers@.len(),
                0 <= k <= headers@[hi as int].methods@.len(),
                named_view(headers@[hi as int].methods@) == hmv,
                headers@[hi as int].methods@.len() == hmv.len(),
                named_view(entries@) == entries0 + hmv.take(k as int),
                strings_view(names@).len() == named_view(entries@).len(),
                forall|j: int|
                    0 <= j < names@.len() ==> strings_view(names@)[j] == named_view(
                        entries@,
                    )[j].name,
            decreases headers@[hi as int].methods@.len() - k,
        {
            let x = clone_named(&headers[hi].methods[k]);
            let nm = x.name.clone();
            let ghost names0 = strings_view(names@);
            let ghost entries_pre = named_view(entries@);
            entries.push(x);
            names.push(nm);
            proof {
                assert(strings_view(names@) =~= names0.push(nm@));
                assert(named_view(entries@) =~= entries_pre.push(x@));
                assert(hmv.take(k + 1) =~= hmv.take(k as int).push(hmv[k as int]));
                assert(x@ == hmv[k as int]);
                assert(named_view(entries@) =~= (entries0 + hmv.take(k as int)).push(
                    hmv[k as int],
                ));
                assert((entries0 + hmv.take(k as int)).push(hmv[k as int]) =~= entries0 + hmv.take(
                    k + 1,
                ));
            }
            k += 1;
        }
        proof {
            assert(hmv.take(hmv.len() as int) =~= hmv);
            assert(named_view(entries@) =~= spec_all_entries(hsv.take(hi + 1)));
        }
        hi += 1;
    }
    proof {
        assert(hsv.take(headers@.len() as int) =~= hsv);
        assert(strings_view(names@) =~= spec_all_names(hsv));
    }
    match find_dup(&names) {
        Option::Some(p) => {
            let (a, b) = p;
            let ma = clone_method(&entries[a].method);
            let mb = clone_method(&entries[b].method);
            let mut colliding: Vec<NativeMethod> = Vec::new();
            colliding.push(ma);
            colliding.push(mb);
            proof {
                assert(methods_view(colliding@) =~= seq![
                    spec_all_entries(hsv)[a as int].method,
                    spec_all_entries(hsv)[b as int].method,
                ]);
            }
            Result::Err(RunError::NamingExhausted { colliding })
        },
        Option::None => {
            proof {
                lemma_no_dup_distinct(spec_all_names(hsv));
            }
            Result::Ok(headers)
        },
    }
}

} // verus!
