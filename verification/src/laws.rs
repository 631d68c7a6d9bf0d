use vstd::prelude::*;
use crate::method::{MethodV, DatabaseV, MethodKind, name_listed};
use crate::filter::{MethodFilter, Eligibility, spec_eligible};
use crate::resolve::{
    CandV, NamedV, GroupV, spec_group_names, pairwise_distinct, spec_captions, spec_strategy_for,
    spec_sort_named, lemma_no_dup_distinct,
};
use crate::{
    HeaderV, RunErrV, spec_run, spec_all_entries, spec_all_names, spec_collect_groups,
    spec_resolve_all, spec_process, spec_headers_fold, spec_slots_header, spec_select,
};
use crate::types::AllocationPlace;
use crate::text::{ident_char, valid_identifier, spec_sanitize, sanitize_char};
use crate::translate::NameStrategy;

verus! {

/// Determinism: the output, ordering included, is a function of the input
/// database, the configured library name and the filters alone, so two
/// runs on identical input and configuration give identical output.
pub proof fn lemma_run_deterministic<F: MethodFilter>(
    db: DatabaseV,
    lib: Seq<char>,
    filters: Seq<F>,
    r1: Result<Seq<HeaderV>, RunErrV>,
    r2: Result<Seq<HeaderV>, RunErrV>,
)
    requires
        r1 == spec_run(db, lib, filters),
        r2 == spec_run(db, lib, filters),
    ensures
        r1 == r2,
{
}

/// Uniqueness: the exported names of one successful run are pairwise
/// distinct across the entire output.
pub proof fn lemma_output_names_unique<F: MethodFilter>(
    db: DatabaseV,
    lib: Seq<char>,
    filters: Seq<F>,
    hs: Seq<HeaderV>,
)
    requires
        spec_run(db, lib, filters) == Result::<Seq<HeaderV>, RunErrV>::Ok(hs),
    ensures
        pairwise_distinct(spec_all_names(hs)),
{
    lemma_no_dup_distinct(spec_all_names(hs));
}

/// A constructor of a class owning a pure-virtual method is never
/// eligible, whatever the filters say.
pub proof fn lemma_abstract_constructor_not_eligible<F: MethodFilter>(
    m: MethodV,
    filters: Seq<F>,
    pure_virtual: Seq<Seq<char>>,
)
    requires
        m.membership is Some,
        m.membership->0.kind == MethodKind::Constructor,
        name_listed(pure_virtual, m.membership->0.class_name),
    ensures
        spec_eligible(m, filters, pure_virtual) != Eligibility::Eligible,
{
}

/// Minimality: the committed strategy's captions are pairwise distinct,
/// and every less verbose strategy of the ladder failed to be.
pub proof fn lemma_strategy_minimal(ms: Seq<CandV>)
    ensures
        spec_strategy_for(ms) matches Some(s) ==> pairwise_distinct(spec_captions(ms, s)),
        spec_strategy_for(ms) == Option::Some(NameStrategy::ArgsFull) ==> !pairwise_distinct(
            spec_captions(ms, NameStrategy::ArgsShort),
        ),
        spec_strategy_for(ms) == Option::Some(NameStrategy::ConstArgsFull) ==> !pairwise_distinct(
            spec_captions(ms, NameStrategy::ArgsShort),
        ) && !pairwise_distinct(spec_captions(ms, NameStrategy::ArgsFull)),
        spec_strategy_for(ms) is None ==> !pairwise_distinct(
            spec_captions(ms, NameStrategy::ArgsShort),
        ) && !pairwise_distinct(spec_captions(ms, NameStrategy::ArgsFull)) && !pairwise_distinct(
            spec_captions(ms, NameStrategy::ConstArgsFull),
        ),
{
}

/// Every member of every group built by the grouping fold passed the
/// whole eligibility decision.
pub open spec fn groups_members_eligible<F: MethodFilter>(
    gs: Seq<GroupV>,
    filters: Seq<F>,
    pure_virtual: Seq<Seq<char>>,
) -> bool {
    forall|g: int, k: int|
        0 <= g < gs.len() && 0 <= k < gs[g].members.len() ==> spec_eligible(
            (#[trigger] gs[g].members[k]).method,
            filters,
            pure_virtual,
        ) == Eligibility::Eligible
}

proof fn lemma_collect_members_eligible<F: MethodFilter>(
    ms: Seq<MethodV>,
    filters: Seq<F>,
    pure_virtual: Seq<Seq<char>>,
    heap: Seq<Seq<char>>,
    ov: Option<AllocationPlace>,
    lib: Seq<char>,
    unit_base: Seq<char>,
)
    requires
        spec_collect_groups(ms, filters, pure_virtual, heap, ov, lib, unit_base) is Ok,
    ensures
        groups_members_eligible(
            spec_collect_groups(ms, filters, pure_virtual, heap, ov, lib, unit_base)->Ok_0,
            filters,
            pure_virtual,
        ),
    decreases ms.len(),
{
    if ms.len() > 0 {
        lemma_collect_members_eligible(
            ms.drop_last(),
            filters,
            pure_virtual,
            heap,
            ov,
            lib,
            unit_base,
        );
        let prev = spec_collect_groups(
            ms.drop_last(),
            filters,
            pure_virtual,
            heap,
            ov,
            lib,
            unit_base,
        )->Ok_0;
        let cur = spec_collect_groups(ms, filters, pure_virtual, heap, ov, lib, unit_base)->Ok_0;
        assert forall|g: int, k: int|
            0 <= g < cur.len() && 0 <= k < cur[g].members.len() implies spec_eligible(
            (#[trigger] cur[g].members[k]).method,
            filters,
            pure_virtual,
        ) == Eligibility::Eligible by {
            if spec_eligible(ms.last(), filters, pure_virtual) == Eligibility::Eligible
                && crate::translate::spec_method_representable(ms.last()) {
                let base = crate::translate::spec_base_name(ms.last(), lib, unit_base);
                let idx = crate::resolve::spec_group_index(prev, base);
                crate::resolve::lemma_group_index(prev, base);
                if idx == -1 {
                    if g < prev.len() {
                        assert(cur[g] == prev[g]);
                    } else {
                        assert(cur[g].members.len() == 1);
                    }
                } else {
                    if g != idx {
                        assert(cur[g] == prev[g]);
                    } else {
                        if k < prev[g].members.len() {
                            assert(cur[g].members[k] == prev[g].members[k]);
                        } else {
                            assert(cur[g].members[k].method == ms.last());
                        }
                    }
                }
            } else {
                assert(cur[g] == prev[g]);
            }
        }
    }
}

proof fn lemma_resolve_entries_eligible<F: MethodFilter>(
    gs: Seq<GroupV>,
    filters: Seq<F>,
    pure_virtual: Seq<Seq<char>>,
)
    requires
        spec_resolve_all(gs) is Ok,
        groups_members_eligible(gs, filters, pure_virtual),
    ensures
        forall|k: int|
            0 <= k < spec_resolve_all(gs)->Ok_0.len() ==> spec_eligible(
                (#[trigger] spec_resolve_all(gs)->Ok_0[k]).method,
                filters,
                pure_virtual,
            ) == Eligibility::Eligible,
    decreases gs.len(),
{
    if gs.len() > 0 {
        assert(groups_members_eligible(gs.drop_last(), filters, pure_virtual)) by {
            assert forall|g: int, k: int|
                0 <= g < gs.drop_last().len() && 0 <= k < gs.drop_last()[g].members.len() implies
                spec_eligible(
                (#[trigger] gs.drop_last()[g].members[k]).method,
                filters,
                pure_virtual,
            ) == Eligibility::Eligible by {
                assert(gs.drop_last()[g] == gs[g]);
                assert(spec_eligible(gs[g].members[k].method, filters, pure_virtual)
                    == Eligibility::Eligible);
            }
        }
        lemma_resolve_entries_eligible(gs.drop_last(), filters, pure_virtual);
        let prev = spec_resolve_all(gs.drop_last())->Ok_0;
        let ns = spec_group_names(gs.last())->0;
        let cur = spec_resolve_all(gs)->Ok_0;
        assert forall|k: int| 0 <= k < cur.len() implies spec_eligible(
            (#[trigger] cur[k]).method,
            filters,
            pure_virtual,
        ) == Eligibility::Eligible by {
            if k < prev.len() {
                assert(cur[k] == prev[k]);
            } else {
                assert(cur[k] == ns[k - prev.len()]);
                assert(gs.last() == gs[gs.len() - 1]);
                if gs.last().members.len() == 1 {
                    assert(ns[k - prev.len()].method == gs.last().members[0].method);
                } else {
                    assert(ns[k - prev.len()].method == gs.last().members[k - prev.len()].method);
                }
            }
        }
    }
}

proof fn lemma_sorted_entries_eligible<F: MethodFilter>(
    s: Seq<NamedV>,
    filters: Seq<F>,
    pure_virtual: Seq<Seq<char>>,
)
    requires
        forall|k: int|
            0 <= k < s.len() ==> spec_eligible((#[trigger] s[k]).method, filters, pure_virtual)
                == Eligibility::Eligible,
    ensures
        forall|k: int|
            0 <= k < spec_sort_named(s).len() ==> spec_eligible(
                (#[trigger] spec_sort_named(s)[k]).method,
                filters,
                pure_virtual,
            ) == Eligibility::Eligible,
{
    crate::resolve::lemma_sort_named_elems(s);
    assert forall|k: int| 0 <= k < spec_sort_named(s).len() implies spec_eligible(
        (#[trigger] spec_sort_named(s)[k]).method,
        filters,
        pure_virtual,
    ) == Eligibility::Eligible by {
        let j = choose|j: int| 0 <= j < s.len() && s[j] == spec_sort_named(s)[k];
        assert(spec_eligible(s[j].method, filters, pure_virtual) == Eligibility::Eligible);
    }
}

proof fn lemma_process_entries_eligible<F: MethodFilter>(
    ms: Seq<MethodV>,
    filters: Seq<F>,
    pure_virtual: Seq<Seq<char>>,
    heap: Seq<Seq<char>>,
    ov: Option<AllocationPlace>,
    lib: Seq<char>,
    unit_base: Seq<char>,
)
    requires
        spec_process(ms, filters, pure_virtual, heap, ov, lib, unit_base) is Ok,
    ensures
        forall|k: int|
            0 <= k < spec_process(ms, filters, pure_virtual, heap, ov, lib, unit_base)->Ok_0.len()
                ==> spec_eligible(
                (#[trigger] spec_process(ms, filters, pure_virtual, heap, ov, lib, unit_base)->Ok_0[k]).method,
                filters,
                pure_virtual,
            ) == Eligibility::Eligible,
{
    lemma_collect_members_eligible(ms, filters, pure_virtual, heap, ov, lib, unit_base);
    let gs = spec_collect_groups(ms, filters, pure_virtual, heap, ov, lib, unit_base)->Ok_0;
    lemma_resolve_entries_eligible(gs, filters, pure_virtual);
    lemma_sorted_entries_eligible(spec_resolve_all(gs)->Ok_0, filters, pure_virtual);
}

/// Every entry of every header of the list passed eligibility.
pub open spec fn headers_entries_eligible<F: MethodFilter>(
    hs: Seq<HeaderV>,
    filters: Seq<F>,
    pure_virtual: Seq<Seq<char>>,
) -> bool {
    forall|h: int, k: int|
        0 <= h < hs.len() && 0 <= k < hs[h].methods.len() ==> spec_eligible(
            (#[trigger] hs[h].methods[k]).method,
            filters,
            pure_virtual,
        ) == Eligibility::Eligible
}

proof fn lemma_fold_entries_eligible<F: MethodFilter>(
    units: Seq<Seq<char>>,
    db: DatabaseV,
    filters: Seq<F>,
    lib: Seq<char>,
)
    requires
        spec_headers_fold(units, db, filters, lib) is Ok,
    ensures
        headers_entries_eligible(
            spec_headers_fold(units, db, filters, lib)->Ok_0,
            filters,
            db.pure_virtual_classes,
        ),
    decreases units.len(),
{
    if units.len() > 0 {
        lemma_fold_entries_eligible(units.drop_last(), db, filters, lib);
        let prev = spec_headers_fold(units.drop_last(), db, filters, lib)->Ok_0;
        let cur = spec_headers_fold(units, db, filters, lib)->Ok_0;
        let unit = units.last();
        let ub = crate::text::spec_strip_extension(unit);
        lemma_process_entries_eligible(
            spec_select(db.methods, unit),
            filters,
            db.pure_virtual_classes,
            db.heap_allocated_classes,
            Option::None,
            lib,
            ub,
        );
        assert forall|h: int, k: int|
            0 <= h < cur.len() && 0 <= k < cur[h].methods.len() implies spec_eligible(
            (#[trigger] cur[h].methods[k]).method,
            filters,
            db.pure_virtual_classes,
        ) == Eligibility::Eligible by {
            if h < prev.len() {
                assert(cur[h] == prev[h]);
            }
        }
    }
}

/// A method that any check of the eligibility decision rejects never
/// appears in the output: every entry of a successful run, the
/// synthesized slot-wrapper members included, passed every filter and
/// every structural eligibility condition.
pub proof fn lemma_output_entries_eligible<F: MethodFilter>(
    db: DatabaseV,
    lib: Seq<char>,
    filters: Seq<F>,
    hs: Seq<HeaderV>,
)
    requires
        spec_run(db, lib, filters) == Result::<Seq<HeaderV>, RunErrV>::Ok(hs),
    ensures
        forall|k: int|
            0 <= k < spec_all_entries(hs).len() ==> spec_eligible(
                (#[trigger] spec_all_entries(hs)[k]).method,
                filters,
                db.pure_virtual_classes,
            ) == Eligibility::Eligible,
{
    let units = crate::resolve::spec_dedup_adjacent(
        crate::resolve::spec_sort_str(db.include_files),
    );
    lemma_fold_entries_eligible(units, db, filters, lib);
    let hs0 = spec_headers_fold(units, db, filters, lib)->Ok_0;
    let opt = spec_slots_header(db, filters, lib)->Ok_0;
    if opt is Some {
        lemma_process_entries_eligible(
            crate::slots::spec_synth_methods(db.signal_argument_tuples, lib),
            filters,
            db.pure_virtual_classes,
            db.heap_allocated_classes,
            Option::Some(AllocationPlace::Heap),
            lib,
            "slots"@,
        );
    }
    assert(headers_entries_eligible(hs, filters, db.pure_virtual_classes)) by {
        assert forall|h: int, k: int|
            0 <= h < hs.len() && 0 <= k < hs[h].methods.len() implies spec_eligible(
            (#[trigger] hs[h].methods[k]).method,
            filters,
            db.pure_virtual_classes,
        ) == Eligibility::Eligible by {
            if h < hs0.len() {
                assert(hs[h] == hs0[h]);
            }
        }
    }
    lemma_entries_flatten_eligible(hs, filters, db.pure_virtual_classes);
}

proof fn lemma_entries_flatten_eligible<F: MethodFilter>(
    hs: Seq<HeaderV>,
    filters: Seq<F>,
    pure_virtual: Seq<Seq<char>>,
)
    requires
        headers_entries_eligible(hs, filters, pure_virtual),
    ensures
        forall|k: int|
            0 <= k < spec_all_entries(hs).len() ==> spec_eligible(
                (#[trigger] spec_all_entries(hs)[k]).method,
                filters,
                pure_virtual,
            ) == Eligibility::Eligible,
    decreases hs.len(),
{
    if hs.len() > 0 {
        assert(headers_entries_eligible(hs.drop_last(), filters, pure_virtual)) by {
            assert forall|h: int, k: int|
                0 <= h < hs.drop_last().len() && 0 <= k < hs.drop_last()[h].methods.len() implies
                spec_eligible(
                (#[trigger] hs.drop_last()[h].methods[k]).method,
                filters,
                pure_virtual,
            ) == Eligibility::Eligible by {
                assert(hs.drop_last()[h] == hs[h]);
                assert(spec_eligible(hs[h].methods[k].method, filters, pure_virtual)
                    == Eligibility::Eligible);
            }
        }
        lemma_entries_flatten_eligible(hs.drop_last(), filters, pure_virtual);
        let prev = spec_all_entries(hs.drop_last());
        let cur = spec_all_entries(hs);
        assert forall|k: int| 0 <= k < cur.len() implies spec_eligible(
            (#[trigger] cur[k]).method,
            filters,
            pure_virtual,
        ) == Eligibility::Eligible by {
            if k < prev.len() {
                assert(cur[k] == prev[k]);
            } else {
                assert(cur[k] == hs.last().methods[k - prev.len()]);
                assert(hs.last() == hs[hs.len() - 1]);
            }
        }
    }
}

/// No constructor wrapper is generated for a class owning a pure-virtual
/// method: no entry of a successful run is such a constructor.
pub proof fn lemma_no_abstract_constructor_in_output<F: MethodFilter>(
    db: DatabaseV,
    lib: Seq<char>,
    filters: Seq<F>,
    hs: Seq<HeaderV>,
)
    requires
        spec_run(db, lib, filters) == Result::<Seq<HeaderV>, RunErrV>::Ok(hs),
    ensures
        forall|k: int|
            0 <= k < spec_all_entries(hs).len() ==> !((#[trigger] spec_all_entries(
                hs,
            )[k]).method.membership is Some && spec_all_entries(hs)[k].method.membership->0.kind
                == MethodKind::Constructor && name_listed(
                db.pure_virtual_classes,
                spec_all_entries(hs)[k].method.membership->0.class_name,
            )),
{
    lemma_output_entries_eligible(db, lib, filters, hs);
    assert forall|k: int| 0 <= k < spec_all_entries(hs).len() implies !((#[trigger] spec_all_entries(
        hs,
    )[k]).method.membership is Some && spec_all_entries(hs)[k].method.membership->0.kind
        == MethodKind::Constructor && name_listed(
        db.pure_virtual_classes,
        spec_all_entries(hs)[k].method.membership->0.class_name,
    )) by {
        let m = spec_all_entries(hs)[k].method;
        if m.membership is Some && m.membership->0.kind == MethodKind::Constructor && name_listed(
            db.pure_virtual_classes,
            m.membership->0.class_name,
        ) {
            lemma_abstract_constructor_not_eligible(m, filters, db.pure_virtual_classes);
        }
    }
}


proof fn lemma_collect_all_skip<F: MethodFilter>(
    ms: Seq<MethodV>,
    filters: Seq<F>,
    pure_virtual: Seq<Seq<char>>,
    heap: Seq<Seq<char>>,
    ov: Option<AllocationPlace>,
    lib: Seq<char>,
    unit_base: Seq<char>,
)
    requires
        forall|i: int|
            0 <= i < ms.len() ==> spec_eligible(#[trigger] ms[i], filters, pure_virtual)
                == Eligibility::Skip,
    ensures
        spec_collect_groups(ms, filters, pure_virtual, heap, ov, lib, unit_base) == Result::<
            Seq<GroupV>,
            RunErrV,
        >::Ok(Seq::empty()),
    decreases ms.len(),
{
    if ms.len() > 0 {
        assert forall|i: int| 0 <= i < ms.drop_last().len() implies spec_eligible(
            #[trigger] ms.drop_last()[i],
            filters,
            pure_virtual,
        ) == Eligibility::Skip by {
            assert(ms.drop_last()[i] == ms[i]);
        }
        lemma_collect_all_skip(ms.drop_last(), filters, pure_virtual, heap, ov, lib, unit_base);
        assert(ms.last() == ms[ms.len() - 1]);
    }
}

proof fn lemma_select_elements(ms: Seq<MethodV>, unit: Seq<char>)
    ensures
        forall|k: int|
            0 <= k < spec_select(ms, unit).len() ==> exists|j: int|
                0 <= j < ms.len() && ms[j] == #[trigger] spec_select(ms, unit)[k],
    decreases ms.len(),
{
    if ms.len() > 0 {
        lemma_select_elements(ms.drop_last(), unit);
        let prev = spec_select(ms.drop_last(), unit);
        let cur = spec_select(ms, unit);
        assert forall|k: int| 0 <= k < cur.len() implies exists|j: int|
            0 <= j < ms.len() && ms[j] == #[trigger] cur[k] by {
            if k < prev.len() {
                assert(cur[k] == prev[k]);
                let j = choose|j: int| 0 <= j < ms.drop_last().len() && ms.drop_last()[j] == prev[k];
                assert(ms[j] == cur[k]);
            } else {
                assert(cur[k] == ms.last());
                assert(ms[ms.len() - 1] == cur[k]);
            }
        }
    }
}

proof fn lemma_fold_all_skip<F: MethodFilter>(
    units: Seq<Seq<char>>,
    db: DatabaseV,
    filters: Seq<F>,
    lib: Seq<char>,
)
    requires
        forall|i: int|
            0 <= i < db.methods.len() ==> spec_eligible(
                #[trigger] db.methods[i],
                filters,
                db.pure_virtual_classes,
            ) == Eligibility::Skip,
    ensures
        spec_headers_fold(units, db, filters, lib) == Result::<Seq<HeaderV>, RunErrV>::Ok(
            Seq::empty(),
        ),
    decreases units.len(),
{
    if units.len() > 0 {
        lemma_fold_all_skip(units.drop_last(), db, filters, lib);
        let unit = units.last();
        let selected = spec_select(db.methods, unit);
        lemma_select_elements(db.methods, unit);
        assert forall|i: int| 0 <= i < selected.len() implies spec_eligible(
            #[trigger] selected[i],
            filters,
            db.pure_virtual_classes,
        ) == Eligibility::Skip by {
            let j = choose|j: int| 0 <= j < db.methods.len() && db.methods[j] == selected[i];
            assert(spec_eligible(db.methods[j], filters, db.pure_virtual_classes)
                == Eligibility::Skip);
        }
        lemma_collect_all_skip(
            selected,
            filters,
            db.pure_virtual_classes,
            db.heap_allocated_classes,
            Option::None,
            lib,
            crate::text::spec_strip_extension(unit),
        );
    }
}

/// Empty input: when no signal tuple was observed and the eligibility
/// decision skips every method, the run fails with `EmptyOutput`. (When a
/// filter itself fails on some method, the run aborts with
/// `PolicyFailure` instead, so such inputs are left out here.)
pub proof fn lemma_empty_input_fails<F: MethodFilter>(
    db: DatabaseV,
    lib: Seq<char>,
    filters: Seq<F>,
)
    requires
        db.signal_argument_tuples.len() == 0,
        forall|i: int|
            0 <= i < db.methods.len() ==> spec_eligible(
                #[trigger] db.methods[i],
                filters,
                db.pure_virtual_classes,
            ) == Eligibility::Skip,
    ensures
        spec_run(db, lib, filters) == Result::<Seq<HeaderV>, RunErrV>::Err(RunErrV::EmptyOutput),
{
    let units = crate::resolve::spec_dedup_adjacent(
        crate::resolve::spec_sort_str(db.include_files),
    );
    lemma_fold_all_skip(units, db, filters, lib);
}


/// Every character of the sequence may stand in an identifier.
pub open spec fn all_ident(s: Seq<char>) -> bool {
    forall|i: int| 0 <= i < s.len() ==> ident_char(#[trigger] s[i])
}

/// The name has the prefix `p`.
pub open spec fn has_prefix(s: Seq<char>, p: Seq<char>) -> bool {
    s.len() >= p.len() && s.take(p.len() as int) == p
}

/// A well-formed exported name: a valid identifier carrying the
/// configured library prefix.
pub open spec fn name_ok(lib: Seq<char>, s: Seq<char>) -> bool {
    valid_identifier(s) && has_prefix(s, lib)
}

proof fn lemma_all_ident_concat(a: Seq<char>, b: Seq<char>)
    requires
        all_ident(a),
        all_ident(b),
    ensures
        all_ident(a + b),
{
    assert forall|i: int| 0 <= i < (a + b).len() implies ident_char(#[trigger] (a + b)[i]) by {
        if i < a.len() {
            assert((a + b)[i] == a[i]);
        } else {
            assert((a + b)[i] == b[i - a.len()]);
        }
    }
}

proof fn lemma_sanitize_all_ident(s: Seq<char>)
    ensures
        all_ident(spec_sanitize(s)),
        spec_sanitize(s).len() == s.len(),
{
    assert forall|i: int| 0 <= i < spec_sanitize(s).len() implies ident_char(
        #[trigger] spec_sanitize(s)[i],
    ) by {
        assert(spec_sanitize(s)[i] == sanitize_char(s[i]));
    }
}


proof fn lemma_lit_us()
    ensures
        all_ident("_"@),
{
    reveal_strlit("_");
    assert forall|i: int| 0 <= i < "_"@.len() implies ident_char(#[trigger] "_"@[i]) by {
        assert("_"@.len() == 1);
        {
                assert("_"@[0] == '_');
            }
    }
}


proof fn lemma_lit_usG()
    ensures
        all_ident("_G"@),
{
    reveal_strlit("_G");
    assert forall|i: int| 0 <= i < "_G"@.len() implies ident_char(#[trigger] "_G"@[i]) by {
        assert("_G"@.len() == 2);
        if i == 0 {
                assert("_G"@[0] == '_');
            } else {
                assert("_G"@[1] == 'G');
            }
    }
}


proof fn lemma_lit_constructor()
    ensures
        all_ident("constructor"@),
{
    reveal_strlit("constructor");
    assert forall|i: int| 0 <= i < "constructor"@.len() implies ident_char(#[trigger] "constructor"@[i]) by {
        assert("constructor"@.len() == 11);
        if i == 0 {
                assert("constructor"@[0] == 'c');
            } else if i == 1 {
                assert("constructor"@[1] == 'o');
            } else if i == 2 {
                assert("constructor"@[2] == 'n');
            } else if i == 3 {
                assert("constructor"@[3] == 's');
            } else if i == 4 {
                assert("constructor"@[4] == 't');
            } else if i == 5 {
                assert("constructor"@[5] == 'r');
            } else if i == 6 {
                assert("constructor"@[6] == 'u');
            } else if i == 7 {
                assert("constructor"@[7] == 'c');
            } else if i == 8 {
                assert("constructor"@[8] == 't');
            } else if i == 9 {
                assert("constructor"@[9] == 'o');
            } else {
                assert("constructor"@[10] == 'r');
            }
    }
}


proof fn lemma_lit_destructor()
    ensures
        all_ident("destructor"@),
{
    reveal_strlit("destructor");
    assert forall|i: int| 0 <= i < "destructor"@.len() implies ident_char(#[trigger] "destructor"@[i]) by {
        assert("destructor"@.len() == 10);
        if i == 0 {
                assert("destructor"@[0] == 'd');
            } else if i == 1 {
                assert("destructor"@[1] == 'e');
            } else if i == 2 {
                assert("destructor"@[2] == 's');
            } else if i == 3 {
                assert("destructor"@[3] == 't');
            } else if i == 4 {
                assert("destructor"@[4] == 'r');
            } else if i == 5 {
                assert("destructor"@[5] == 'u');
            } else if i == 6 {
                assert("destructor"@[6] == 'c');
            } else if i == 7 {
                assert("destructor"@[7] == 't');
            } else if i == 8 {
                assert("destructor"@[8] == 'o');
            } else {
                assert("destructor"@[9] == 'r');
            }
    }
}


proof fn lemma_lit_operatorus()
    ensures
        all_ident("operator_"@),
{
    reveal_strlit("operator_");
    assert forall|i: int| 0 <= i < "operator_"@.len() implies ident_char(#[trigger] "operator_"@[i]) by {
        assert("operator_"@.len() == 9);
        if i == 0 {
                assert("operator_"@[0] == 'o');
            } else if i == 1 {
                assert("operator_"@[1] == 'p');
            } else if i == 2 {
                assert("operator_"@[2] == 'e');
            } else if i == 3 {
                assert("operator_"@[3] == 'r');
            } else if i == 4 {
                assert("operator_"@[4] == 'a');
            } else if i == 5 {
                assert("operator_"@[5] == 't');
            } else if i == 6 {
                assert("operator_"@[6] == 'o');
            } else if i == 7 {
                assert("operator_"@[7] == 'r');
            } else {
                assert("operator_"@[8] == '_');
            }
    }
}


proof fn lemma_lit_add()
    ensures
        all_ident("add"@),
{
    reveal_strlit("add");
    assert forall|i: int| 0 <= i < "add"@.len() implies ident_char(#[trigger] "add"@[i]) by {
        assert("add"@.len() == 3);
        if i == 0 {
                assert("add"@[0] == 'a');
            } else if i == 1 {
                assert("add"@[1] == 'd');
            } else {
                assert("add"@[2] == 'd');
            }
    }
}


proof fn lemma_lit_sub()
    ensures
        all_ident("sub"@),
{
    reveal_strlit("sub");
    assert forall|i: int| 0 <= i < "sub"@.len() implies ident_char(#[trigger] "sub"@[i]) by {
        assert("sub"@.len() == 3);
        if i == 0 {
                assert("sub"@[0] == 's');
            } else if i == 1 {
                assert("sub"@[1] == 'u');
            } else {
                assert("sub"@[2] == 'b');
            }
    }
}


proof fn lemma_lit_mul()
    ensures
        all_ident("mul"@),
{
    reveal_strlit("mul");
    assert forall|i: int| 0 <= i < "mul"@.len() implies ident_char(#[trigger] "mul"@[i]) by {
        assert("mul"@.len() == 3);
        if i == 0 {
                assert("mul"@[0] == 'm');
            } else if i == 1 {
                assert("mul"@[1] == 'u');
            } else {
                assert("mul"@[2] == 'l');
            }
    }
}


proof fn lemma_lit_div()
    ensures
        all_ident("div"@),
{
    reveal_strlit("div");
    assert forall|i: int| 0 <= i < "div"@.len() implies ident_char(#[trigger] "div"@[i]) by {
        assert("div"@.len() == 3);
        if i == 0 {
                assert("div"@[0] == 'd');
            } else if i == 1 {
                assert("div"@[1] == 'i');
            } else {
                assert("div"@[2] == 'v');
            }
    }
}


proof fn lemma_lit_rem()
    ensures
        all_ident("rem"@),
{
    reveal_strlit("rem");
    assert forall|i: int| 0 <= i < "rem"@.len() implies ident_char(#[trigger] "rem"@[i]) by {
        assert("rem"@.len() == 3);
        if i == 0 {
                assert("rem"@[0] == 'r');
            } else if i == 1 {
                assert("rem"@[1] == 'e');
            } else {
                assert("rem"@[2] == 'm');
            }
    }
}


proof fn lemma_lit_eq()
    ensures
        all_ident("eq"@),
{
    reveal_strlit("eq");
    assert forall|i: int| 0 <= i < "eq"@.len() implies ident_char(#[trigger] "eq"@[i]) by {
        assert("eq"@.len() == 2);
        if i == 0 {
                assert("eq"@[0] == 'e');
            } else {
                assert("eq"@[1] == 'q');
            }
    }
}


proof fn lemma_lit_neq()
    ensures
        all_ident("neq"@),
{
    reveal_strlit("neq");
    assert forall|i: int| 0 <= i < "neq"@.len() implies ident_char(#[trigger] "neq"@[i]) by {
        assert("neq"@.len() == 3);
        if i == 0 {
                assert("neq"@[0] == 'n');
            } else if i == 1 {
                assert("neq"@[1] == 'e');
            } else {
                assert("neq"@[2] == 'q');
            }
    }
}


proof fn lemma_lit_lt()
    ensures
        all_ident("lt"@),
{
    reveal_strlit("lt");
    assert forall|i: int| 0 <= i < "lt"@.len() implies ident_char(#[trigger] "lt"@[i]) by {
        assert("lt"@.len() == 2);
        if i == 0 {
                assert("lt"@[0] == 'l');
            } else {
                assert("lt"@[1] == 't');
            }
    }
}


proof fn lemma_lit_gt()
    ensures
        all_ident("gt"@),
{
    reveal_strlit("gt");
    assert forall|i: int| 0 <= i < "gt"@.len() implies ident_char(#[trigger] "gt"@[i]) by {
        assert("gt"@.len() == 2);
        if i == 0 {
                assert("gt"@[0] == 'g');
            } else {
                assert("gt"@[1] == 't');
            }
    }
}


proof fn lemma_lit_leq()
    ensures
        all_ident("leq"@),
{
    reveal_strlit("leq");
    assert forall|i: int| 0 <= i < "leq"@.len() implies ident_char(#[trigger] "leq"@[i]) by {
        assert("leq"@.len() == 3);
        if i == 0 {
                assert("leq"@[0] == 'l');
            } else if i == 1 {
                assert("leq"@[1] == 'e');
            } else {
                assert("leq"@[2] == 'q');
            }
    }
}


proof fn lemma_lit_geq()
    ensures
        all_ident("geq"@),
{
    reveal_strlit("geq");
    assert forall|i: int| 0 <= i < "geq"@.len() implies ident_char(#[trigger] "geq"@[i]) by {
        assert("geq"@.len() == 3);
        if i == 0 {
                assert("geq"@[0] == 'g');
            } else if i == 1 {
                assert("geq"@[1] == 'e');
            } else {
                assert("geq"@[2] == 'q');
            }
    }
}


proof fn lemma_lit_assign()
    ensures
        all_ident("assign"@),
{
    reveal_strlit("assign");
    assert forall|i: int| 0 <= i < "assign"@.len() implies ident_char(#[trigger] "assign"@[i]) by {
        assert("assign"@.len() == 6);
        if i == 0 {
                assert("assign"@[0] == 'a');
            } else if i == 1 {
                assert("assign"@[1] == 's');
            } else if i == 2 {
                assert("assign"@[2] == 's');
            } else if i == 3 {
                assert("assign"@[3] == 'i');
            } else if i == 4 {
                assert("assign"@[4] == 'g');
            } else {
                assert("assign"@[5] == 'n');
            }
    }
}


proof fn lemma_lit_index()
    ensures
        all_ident("index"@),
{
    reveal_strlit("index");
    assert forall|i: int| 0 <= i < "index"@.len() implies ident_char(#[trigger] "index"@[i]) by {
        assert("index"@.len() == 5);
        if i == 0 {
                assert("index"@[0] == 'i');
            } else if i == 1 {
                assert("index"@[1] == 'n');
            } else if i == 2 {
                assert("index"@[2] == 'd');
            } else if i == 3 {
                assert("index"@[3] == 'e');
            } else {
                assert("index"@[4] == 'x');
            }
    }
}


proof fn lemma_lit_call()
    ensures
        all_ident("call"@),
{
    reveal_strlit("call");
    assert forall|i: int| 0 <= i < "call"@.len() implies ident_char(#[trigger] "call"@[i]) by {
        assert("call"@.len() == 4);
        if i == 0 {
                assert("call"@[0] == 'c');
            } else if i == 1 {
                assert("call"@[1] == 'a');
            } else if i == 2 {
                assert("call"@[2] == 'l');
            } else {
                assert("call"@[3] == 'l');
            }
    }
}


proof fn lemma_lit_void()
    ensures
        all_ident("void"@),
{
    reveal_strlit("void");
    assert forall|i: int| 0 <= i < "void"@.len() implies ident_char(#[trigger] "void"@[i]) by {
        assert("void"@.len() == 4);
        if i == 0 {
                assert("void"@[0] == 'v');
            } else if i == 1 {
                assert("void"@[1] == 'o');
            } else if i == 2 {
                assert("void"@[2] == 'i');
            } else {
                assert("void"@[3] == 'd');
            }
    }
}


proof fn lemma_lit_func()
    ensures
        all_ident("func"@),
{
    reveal_strlit("func");
    assert forall|i: int| 0 <= i < "func"@.len() implies ident_char(#[trigger] "func"@[i]) by {
        assert("func"@.len() == 4);
        if i == 0 {
                assert("func"@[0] == 'f');
            } else if i == 1 {
                assert("func"@[1] == 'u');
            } else if i == 2 {
                assert("func"@[2] == 'n');
            } else {
                assert("func"@[3] == 'c');
            }
    }
}


proof fn lemma_lit_tparam()
    ensures
        all_ident("tparam"@),
{
    reveal_strlit("tparam");
    assert forall|i: int| 0 <= i < "tparam"@.len() implies ident_char(#[trigger] "tparam"@[i]) by {
        assert("tparam"@.len() == 6);
        if i == 0 {
                assert("tparam"@[0] == 't');
            } else if i == 1 {
                assert("tparam"@[1] == 'p');
            } else if i == 2 {
                assert("tparam"@[2] == 'a');
            } else if i == 3 {
                assert("tparam"@[3] == 'r');
            } else if i == 4 {
                assert("tparam"@[4] == 'a');
            } else {
                assert("tparam"@[5] == 'm');
            }
    }
}


proof fn lemma_lit_constus()
    ensures
        all_ident("const_"@),
{
    reveal_strlit("const_");
    assert forall|i: int| 0 <= i < "const_"@.len() implies ident_char(#[trigger] "const_"@[i]) by {
        assert("const_"@.len() == 6);
        if i == 0 {
                assert("const_"@[0] == 'c');
            } else if i == 1 {
                assert("const_"@[1] == 'o');
            } else if i == 2 {
                assert("const_"@[2] == 'n');
            } else if i == 3 {
                assert("const_"@[3] == 's');
            } else if i == 4 {
                assert("const_"@[4] == 't');
            } else {
                assert("const_"@[5] == '_');
            }
    }
}


proof fn lemma_lit_usptr()
    ensures
        all_ident("_ptr"@),
{
    reveal_strlit("_ptr");
    assert forall|i: int| 0 <= i < "_ptr"@.len() implies ident_char(#[trigger] "_ptr"@[i]) by {
        assert("_ptr"@.len() == 4);
        if i == 0 {
                assert("_ptr"@[0] == '_');
            } else if i == 1 {
                assert("_ptr"@[1] == 'p');
            } else if i == 2 {
                assert("_ptr"@[2] == 't');
            } else {
                assert("_ptr"@[3] == 'r');
            }
    }
}


proof fn lemma_lit_usref()
    ensures
        all_ident("_ref"@),
{
    reveal_strlit("_ref");
    assert forall|i: int| 0 <= i < "_ref"@.len() implies ident_char(#[trigger] "_ref"@[i]) by {
        assert("_ref"@.len() == 4);
        if i == 0 {
                assert("_ref"@[0] == '_');
            } else if i == 1 {
                assert("_ref"@[1] == 'r');
            } else if i == 2 {
                assert("_ref"@[2] == 'e');
            } else {
                assert("_ref"@[3] == 'f');
            }
    }
}


proof fn lemma_lit_const()
    ensures
        all_ident("const"@),
{
    reveal_strlit("const");
    assert forall|i: int| 0 <= i < "const"@.len() implies ident_char(#[trigger] "const"@[i]) by {
        assert("const"@.len() == 5);
        if i == 0 {
                assert("const"@[0] == 'c');
            } else if i == 1 {
                assert("const"@[1] == 'o');
            } else if i == 2 {
                assert("const"@[2] == 'n');
            } else if i == 3 {
                assert("const"@[3] == 's');
            } else {
                assert("const"@[4] == 't');
            }
    }
}

proof fn lemma_base_token_ident(b: crate::types::TyBaseV)
    ensures
        all_ident(crate::translate::spec_base_token(b)),
{
    lemma_lit_void();
    lemma_lit_func();
    lemma_lit_tparam();
    match b {
        crate::types::TyBaseV::Primitive { name } => lemma_sanitize_all_ident(name),
        crate::types::TyBaseV::Class { name, .. } => lemma_sanitize_all_ident(name),
        _ => {},
    }
}

proof fn lemma_type_caption_ident(t: crate::types::TyV, style: crate::translate::CaptionStyle)
    ensures
        all_ident(crate::translate::spec_type_caption(t, style)),
{
    lemma_base_token_ident(t.base);
    match style {
        crate::translate::CaptionStyle::Short => {},
        crate::translate::CaptionStyle::Full => {
            lemma_lit_constus();
            lemma_lit_usptr();
            lemma_lit_usref();
            let pre: Seq<char> = if t.is_const {
                "const_"@
            } else {
                Seq::empty()
            };
            let suf = crate::translate::spec_ind_suffix(t.indirection);
            assert(all_ident(pre));
            assert(all_ident(suf));
            lemma_all_ident_concat(pre, crate::translate::spec_base_token(t.base));
            lemma_all_ident_concat(pre + crate::translate::spec_base_token(t.base), suf);
        },
    }
}

proof fn lemma_join_captions_ident(args: Seq<crate::types::TyV>, style: crate::translate::CaptionStyle)
    ensures
        all_ident(crate::translate::spec_join_captions(args, style)),
    decreases args.len(),
{
    if args.len() == 0 {
    } else if args.len() == 1 {
        lemma_type_caption_ident(args[0], style);
    } else {
        lemma_join_captions_ident(args.drop_last(), style);
        lemma_type_caption_ident(args.last(), style);
        lemma_lit_us();
        lemma_all_ident_concat(crate::translate::spec_join_captions(args.drop_last(), style), "_"@);
        lemma_all_ident_concat(
            crate::translate::spec_join_captions(args.drop_last(), style) + "_"@,
            crate::translate::spec_type_caption(args.last(), style),
        );
    }
}

proof fn lemma_method_caption_ident(
    m: MethodV,
    sig_args: Seq<crate::types::TyV>,
    strat: NameStrategy,
)
    ensures
        all_ident(crate::translate::spec_method_caption(m, sig_args, strat)),
{
    lemma_join_captions_ident(sig_args, crate::translate::CaptionStyle::Short);
    lemma_join_captions_ident(sig_args, crate::translate::CaptionStyle::Full);
    lemma_lit_const();
    lemma_lit_constus();
    match strat {
        NameStrategy::ConstArgsFull => {
            if crate::translate::spec_is_const_member(m) && sig_args.len() > 0 {
                lemma_all_ident_concat(
                    "const_"@,
                    crate::translate::spec_join_captions(
                        sig_args,
                        crate::translate::CaptionStyle::Full,
                    ),
                );
            }
        },
        _ => {},
    }
}

proof fn lemma_operator_token_ident(name: Seq<char>)
    ensures
        all_ident(crate::translate::spec_operator_token(name)),
{
    lemma_lit_add();
    lemma_lit_sub();
    lemma_lit_mul();
    lemma_lit_div();
    lemma_lit_rem();
    lemma_lit_eq();
    lemma_lit_neq();
    lemma_lit_lt();
    lemma_lit_gt();
    lemma_lit_leq();
    lemma_lit_geq();
    lemma_lit_assign();
    lemma_lit_index();
    lemma_lit_call();
    lemma_sanitize_all_ident(name);
}

proof fn lemma_kind_part_ident(m: MethodV)
    ensures
        all_ident(crate::translate::spec_kind_part(m)),
{
    lemma_lit_constructor();
    lemma_lit_destructor();
    lemma_lit_operatorus();
    lemma_sanitize_all_ident(m.name);
    lemma_operator_token_ident(m.name);
    match m.membership {
        Option::Some(mem) => {
            if mem.kind == MethodKind::Operator {
                lemma_all_ident_concat("operator_"@, crate::translate::spec_operator_token(m.name));
            }
        },
        Option::None => {},
    }
}

/// The base name of any method is a valid identifier carrying the
/// library prefix, whenever the configured library name is one.
pub proof fn lemma_base_name_ok(m: MethodV, lib: Seq<char>, unit_base: Seq<char>)
    requires
        valid_identifier(lib),
    ensures
        name_ok(lib, crate::translate::spec_base_name(m, lib, unit_base)),
{
    lemma_lit_us();
    lemma_lit_usG();
    lemma_kind_part_ident(m);
    let mid: Seq<char> = match m.membership {
        Option::Some(mem) => spec_sanitize(mem.class_name),
        Option::None => spec_sanitize(unit_base) + "_G"@,
    };
    match m.membership {
        Option::Some(mem) => {
            lemma_sanitize_all_ident(mem.class_name);
        },
        Option::None => {
            lemma_sanitize_all_ident(unit_base);
            lemma_all_ident_concat(spec_sanitize(unit_base), "_G"@);
        },
    }
    let name = crate::translate::spec_base_name(m, lib, unit_base);
    assert(all_ident(mid));
    lemma_all_ident_concat("_"@, mid);
    lemma_all_ident_concat("_"@ + mid, "_"@);
    lemma_all_ident_concat("_"@ + mid + "_"@, crate::translate::spec_kind_part(m));
    let tail = "_"@ + mid + "_"@ + crate::translate::spec_kind_part(m);
    assert(name =~= lib + tail);
    assert forall|i: int| 0 <= i < name.len() implies ident_char(#[trigger] name[i]) by {
        if i < lib.len() {
            assert(name[i] == lib[i]);
        } else {
            assert(name[i] == tail[i - lib.len()]);
        }
    }
    assert(name[0] == lib[0]);
    assert(name.take(lib.len() as int) =~= lib);
}

/// A decorated name keeps well-formedness: appending an
/// identifier-character caption to a well-formed base keeps it one.
pub proof fn lemma_decorated_ok(lib: Seq<char>, base: Seq<char>, caption: Seq<char>)
    requires
        name_ok(lib, base),
        all_ident(caption),
    ensures
        name_ok(lib, crate::resolve::spec_decorated(base, caption)),
{
    if caption.len() > 0 {
        lemma_lit_us();
        reveal_strlit("_");
        let name = base + "_"@ + caption;
        assert forall|i: int| 0 <= i < name.len() implies ident_char(#[trigger] name[i]) by {
            if i < base.len() {
                assert(name[i] == base[i]);
            } else if i < base.len() + 1 {
                assert(name[i] == '_');
            } else {
                assert(name[i] == caption[i - base.len() - 1]);
            }
        }
        assert(name[0] == base[0]);
        assert(name.take(lib.len() as int) =~= base.take(lib.len() as int));
    }
}

/// Every group name of the grouping fold is a well-formed name.
pub open spec fn groups_names_ok(gs: Seq<GroupV>, lib: Seq<char>) -> bool {
    forall|g: int| 0 <= g < gs.len() ==> name_ok(lib, (#[trigger] gs[g]).name)
}

proof fn lemma_collect_names_ok<F: MethodFilter>(
    ms: Seq<MethodV>,
    filters: Seq<F>,
    pure_virtual: Seq<Seq<char>>,
    heap: Seq<Seq<char>>,
    ov: Option<AllocationPlace>,
    lib: Seq<char>,
    unit_base: Seq<char>,
)
    requires
        valid_identifier(lib),
        spec_collect_groups(ms, filters, pure_virtual, heap, ov, lib, unit_base) is Ok,
    ensures
        groups_names_ok(
            spec_collect_groups(ms, filters, pure_virtual, heap, ov, lib, unit_base)->Ok_0,
            lib,
        ),
    decreases ms.len(),
{
    if ms.len() > 0 {
        lemma_collect_names_ok(ms.drop_last(), filters, pure_virtual, heap, ov, lib, unit_base);
        let prev = spec_collect_groups(
            ms.drop_last(),
            filters,
            pure_virtual,
            heap,
            ov,
            lib,
            unit_base,
        )->Ok_0;
        let cur = spec_collect_groups(ms, filters, pure_virtual, heap, ov, lib, unit_base)->Ok_0;
        assert forall|g: int| 0 <= g < cur.len() implies name_ok(lib, (#[trigger] cur[g]).name) by {
            if spec_eligible(ms.last(), filters, pure_virtual) == Eligibility::Eligible
                && crate::translate::spec_method_representable(ms.last()) {
                let base = crate::translate::spec_base_name(ms.last(), lib, unit_base);
                lemma_base_name_ok(ms.last(), lib, unit_base);
                let idx = crate::resolve::spec_group_index(prev, base);
                crate::resolve::lemma_group_index(prev, base);
                if idx == -1 {
                    if g < prev.len() {
                        assert(cur[g] == prev[g]);
                    }
                } else {
                    if g != idx {
                        assert(cur[g] == prev[g]);
                    }
                }
            } else {
                assert(cur[g] == prev[g]);
            }
        }
    }
}

proof fn lemma_resolve_names_ok(gs: Seq<GroupV>, lib: Seq<char>)
    requires
        spec_resolve_all(gs) is Ok,
        groups_names_ok(gs, lib),
    ensures
        forall|k: int|
            0 <= k < spec_resolve_all(gs)->Ok_0.len() ==> name_ok(
                lib,
                (#[trigger] spec_resolve_all(gs)->Ok_0[k]).name,
            ),
    decreases gs.len(),
{
    if gs.len() > 0 {
        assert(groups_names_ok(gs.drop_last(), lib)) by {
            assert forall|g: int| 0 <= g < gs.drop_last().len() implies name_ok(
                lib,
                (#[trigger] gs.drop_last()[g]).name,
            ) by {
                assert(gs.drop_last()[g] == gs[g]);
            }
        }
        lemma_resolve_names_ok(gs.drop_last(), lib);
        let prev = spec_resolve_all(gs.drop_last())->Ok_0;
        let ns = spec_group_names(gs.last())->0;
        let cur = spec_resolve_all(gs)->Ok_0;
        assert(gs.last() == gs[gs.len() - 1]);
        assert(name_ok(lib, gs.last().name));
        assert forall|k: int| 0 <= k < cur.len() implies name_ok(lib, (#[trigger] cur[k]).name) by {
            if k < prev.len() {
                assert(cur[k] == prev[k]);
            } else {
                assert(cur[k] == ns[k - prev.len()]);
                if gs.last().members.len() == 1 {
                    assert(ns[k - prev.len()].name == gs.last().name);
                } else {
                    let j = k - prev.len();
                    let strat = crate::resolve::spec_strategy_for(gs.last().members)->0;
                    let caption = crate::translate::spec_method_caption(
                        gs.last().members[j].method,
                        gs.last().members[j].sig.arg_types,
                        strat,
                    );
                    lemma_method_caption_ident(
                        gs.last().members[j].method,
                        gs.last().members[j].sig.arg_types,
                        strat,
                    );
                    lemma_decorated_ok(lib, gs.last().name, caption);
                }
            }
        }
    }
}

proof fn lemma_sorted_names_ok(s: Seq<NamedV>, lib: Seq<char>)
    requires
        forall|k: int| 0 <= k < s.len() ==> name_ok(lib, (#[trigger] s[k]).name),
    ensures
        forall|k: int|
            0 <= k < spec_sort_named(s).len() ==> name_ok(
                lib,
                (#[trigger] spec_sort_named(s)[k]).name,
            ),
{
    crate::resolve::lemma_sort_named_elems(s);
    assert forall|k: int| 0 <= k < spec_sort_named(s).len() implies name_ok(
        lib,
        (#[trigger] spec_sort_named(s)[k]).name,
    ) by {
        let j = choose|j: int| 0 <= j < s.len() && s[j] == spec_sort_named(s)[k];
        assert(name_ok(lib, s[j].name));
    }
}

proof fn lemma_process_names_ok<F: MethodFilter>(
    ms: Seq<MethodV>,
    filters: Seq<F>,
    pure_virtual: Seq<Seq<char>>,
    heap: Seq<Seq<char>>,
    ov: Option<AllocationPlace>,
    lib: Seq<char>,
    unit_base: Seq<char>,
)
    requires
        valid_identifier(lib),
        spec_process(ms, filters, pure_virtual, heap, ov, lib, unit_base) is Ok,
    ensures
        forall|k: int|
            0 <= k < spec_process(ms, filters, pure_virtual, heap, ov, lib, unit_base)->Ok_0.len()
                ==> name_ok(
                lib,
                (#[trigger] spec_process(ms, filters, pure_virtual, heap, ov, lib, unit_base)->Ok_0[k]).name,
            ),
{
    lemma_collect_names_ok(ms, filters, pure_virtual, heap, ov, lib, unit_base);
    let gs = spec_collect_groups(ms, filters, pure_virtual, heap, ov, lib, unit_base)->Ok_0;
    lemma_resolve_names_ok(gs, lib);
    lemma_sorted_names_ok(spec_resolve_all(gs)->Ok_0, lib);
}

proof fn lemma_fold_names_ok<F: MethodFilter>(
    units: Seq<Seq<char>>,
    db: DatabaseV,
    filters: Seq<F>,
    lib: Seq<char>,
)
    requires
        valid_identifier(lib),
        spec_headers_fold(units, db, filters, lib) is Ok,
    ensures
        forall|h: int, k: int|
            0 <= h < spec_headers_fold(units, db, filters, lib)->Ok_0.len() && 0 <= k
                < spec_headers_fold(units, db, filters, lib)->Ok_0[h].methods.len() ==> name_ok(
                lib,
                (#[trigger] spec_headers_fold(units, db, filters, lib)->Ok_0[h].methods[k]).name,
            ),
    decreases units.len(),
{
    if units.len() > 0 {
        lemma_fold_names_ok(units.drop_last(), db, filters, lib);
        let prev = spec_headers_fold(units.drop_last(), db, filters, lib)->Ok_0;
        let cur = spec_headers_fold(units, db, filters, lib)->Ok_0;
        let unit = units.last();
        lemma_process_names_ok(
            spec_select(db.methods, unit),
            filters,
            db.pure_virtual_classes,
            db.heap_allocated_classes,
            Option::None,
            lib,
            crate::text::spec_strip_extension(unit),
        );
        assert forall|h: int, k: int|
            0 <= h < cur.len() && 0 <= k < cur[h].methods.len() implies name_ok(
            lib,
            (#[trigger] cur[h].methods[k]).name,
        ) by {
            if h < prev.len() {
                assert(cur[h] == prev[h]);
            }
        }
    }
}

/// Well-formed exported names: on a successful run with an
/// identifier-shaped library name, every exported name is a valid
/// C-linkage identifier and carries the library name as its prefix.
pub proof fn lemma_output_names_well_formed<F: MethodFilter>(
    db: DatabaseV,
    lib: Seq<char>,
    filters: Seq<F>,
    hs: Seq<HeaderV>,
)
    requires
        valid_identifier(lib),
        spec_run(db, lib, filters) == Result::<Seq<HeaderV>, RunErrV>::Ok(hs),
    ensures
        forall|k: int|
            0 <= k < spec_all_names(hs).len() ==> valid_identifier(#[trigger] spec_all_names(hs)[k])
                && has_prefix(spec_all_names(hs)[k], lib),
{
    let units = crate::resolve::spec_dedup_adjacent(
        crate::resolve::spec_sort_str(db.include_files),
    );
    lemma_fold_names_ok(units, db, filters, lib);
    let hs0 = spec_headers_fold(units, db, filters, lib)->Ok_0;
    let opt = spec_slots_header(db, filters, lib)->Ok_0;
    if opt is Some {
        lemma_process_names_ok(
            crate::slots::spec_synth_methods(db.signal_argument_tuples, lib),
            filters,
            db.pure_virtual_classes,
            db.heap_allocated_classes,
            Option::Some(AllocationPlace::Heap),
            lib,
            "slots"@,
        );
    }
    assert forall|h: int, k: int|
        0 <= h < hs.len() && 0 <= k < hs[h].methods.len() implies name_ok(
        lib,
        (#[trigger] hs[h].methods[k]).name,
    ) by {
        if h < hs0.len() {
            assert(hs[h] == hs0[h]);
        }
    }
    lemma_names_flatten_ok(hs, lib);
}

proof fn lemma_names_flatten_ok(hs: Seq<HeaderV>, lib: Seq<char>)
    requires
        forall|h: int, k: int|
            0 <= h < hs.len() && 0 <= k < hs[h].methods.len() ==> name_ok(
                lib,
                (#[trigger] hs[h].methods[k]).name,
            ),
    ensures
        forall|k: int|
            0 <= k < spec_all_entries(hs).len() ==> name_ok(
                lib,
                (#[trigger] spec_all_entries(hs)[k]).name,
            ),
        forall|k: int|
            0 <= k < spec_all_names(hs).len() ==> valid_identifier(#[trigger] spec_all_names(hs)[k])
                && has_prefix(spec_all_names(hs)[k], lib),
    decreases hs.len(),
{
    if hs.len() > 0 {
        assert forall|h: int, k: int|
            0 <= h < hs.drop_last().len() && 0 <= k < hs.drop_last()[h].methods.len() implies
            name_ok(lib, (#[trigger] hs.drop_last()[h].methods[k]).name) by {
            assert(hs.drop_last()[h] == hs[h]);
            assert(name_ok(lib, hs[h].methods[k].name));
        }
        lemma_names_flatten_ok(hs.drop_last(), lib);
        let prev = spec_all_entries(hs.drop_last());
        let cur = spec_all_entries(hs);
        assert forall|k: int| 0 <= k < cur.len() implies name_ok(lib, (#[trigger] cur[k]).name) by {
            if k < prev.len() {
                assert(cur[k] == prev[k]);
            } else {
                assert(cur[k] == hs.last().methods[k - prev.len()]);
                assert(hs.last() == hs[hs.len() - 1]);
            }
        }
    }
    assert forall|k: int| 0 <= k < spec_all_names(hs).len() implies valid_identifier(
        #[trigger] spec_all_names(hs)[k],
    ) && has_prefix(spec_all_names(hs)[k], lib) by {
        assert(spec_all_names(hs)[k] == spec_all_entries(hs)[k].name);
    }
}

} // verus!
