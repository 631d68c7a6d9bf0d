use vstd::prelude::*;
use crate::method::{
    NativeMethod, MethodV, MethodKind, Visibility, name_listed, strings_view, contains_string,
};
use crate::types::spec_contains_template_param;
use crate::text::str_eq;

verus! {

/// What one eligibility filter says about one method.
#[derive(Clone, Copy, PartialEq, Eq, Structural, Debug)]
pub enum FilterOutcome {
    /// The filter lets the method pass.
    Allow,
    /// The filter excludes the method; only this method is skipped.
    Reject,
    /// The filter itself failed; the whole run must abort.
    Abort,
}

/// An externally supplied capability predicate over methods. Implementations
/// must be pure: the verdict is a function of the method's content alone,
/// which is what the `check` contract demands.
pub trait MethodFilter {
    /// The verdict of this filter, as a function of the method's content.
    spec fn outcome(&self, m: MethodV) -> FilterOutcome;

    /// Evaluates the filter on one method.
    fn check(&self, m: &NativeMethod) -> (r: FilterOutcome)
        ensures
            r == self.outcome(m@),
    ;
}

/// A ready-made filter: rejects every method whose plain name is listed.
pub struct NameBlacklistFilter {
    pub names: Vec<String>,
}

impl MethodFilter for NameBlacklistFilter {
    open spec fn outcome(&self, m: MethodV) -> FilterOutcome {
        if name_listed(strings_view(self.names@), m.name) {
            FilterOutcome::Reject
        } else {
            FilterOutcome::Allow
        }
    }

    fn check(&self, m: &NativeMethod) -> (r: FilterOutcome) {
        if contains_string(&self.names, m.name.as_str()) {
            FilterOutcome::Reject
        } else {
            FilterOutcome::Allow
        }
    }
}

/// A ready-made filter that fails on every listed method name: it stands
/// for a capability predicate whose own evaluation errors on those
/// methods, which aborts the whole run.
pub struct AbortListFilter {
    pub names: Vec<String>,
}

impl MethodFilter for AbortListFilter {
    open spec fn outcome(&self, m: MethodV) -> FilterOutcome {
        if name_listed(strings_view(self.names@), m.name) {
            FilterOutcome::Abort
        } else {
            FilterOutcome::Allow
        }
    }

    fn check(&self, m: &NativeMethod) -> (r: FilterOutcome) {
        if contains_string(&self.names, m.name.as_str()) {
            FilterOutcome::Abort
        } else {
            FilterOutcome::Allow
        }
    }
}

/// How the eligibility decision for one method ends.
#[derive(Clone, Copy, PartialEq, Eq, Structural, Debug)]
pub enum Eligibility {
    /// The method receives an exported wrapper.
    Eligible,
    /// The method is skipped; the run continues.
    Skip,
    /// A filter failed; the whole run aborts.
    AbortRun,
}

/// The first non-`Allow` verdict of the filters, in order; `Allow` if none.
pub open spec fn spec_filters_outcome<F: MethodFilter>(
    filters: Seq<F>,
    m: MethodV,
) -> FilterOutcome
    decreases filters.len(),
{
    if filters.len() == 0 {
        FilterOutcome::Allow
    } else {
        match filters[0].outcome(m) {
            FilterOutcome::Allow => spec_filters_outcome(filters.drop_first(), m),
            v => v,
        }
    }
}

/// Membership conditions that exclude a member method: methods of the
/// generic flags-container class, constructors of classes owning a
/// pure-virtual method, non-public members, and signal members.
pub open spec fn spec_membership_blocked(m: MethodV, pure_virtual_classes: Seq<Seq<char>>) -> bool {
    match m.membership {
        Option::Some(mem) => {
            ||| mem.class_name == "QFlags"@
            ||| (mem.kind == MethodKind::Constructor && name_listed(
                pure_virtual_classes,
                mem.class_name,
            ))
            ||| mem.visibility != Visibility::Public
            ||| mem.is_signal
        },
        Option::None => false,
    }
}

/// Whether any argument type or the return type transitively contains an
/// unresolved template parameter.
pub open spec fn spec_types_blocked(m: MethodV) -> bool {
    ||| spec_contains_template_param(m.return_type)
    ||| exists|i: int|
        0 <= i < m.arguments.len() && spec_contains_template_param(
            (#[trigger] m.arguments[i]).ty,
        )
}

/// The eligibility decision for one method, checked in a fixed order:
/// synthesized copies, the injected filters, membership conditions, the
/// method's own template parameters, non-whitelisted template
/// instantiations, and finally types containing template parameters.
pub open spec fn spec_eligible<F: MethodFilter>(
    m: MethodV,
    filters: Seq<F>,
    pure_virtual_classes: Seq<Seq<char>>,
) -> Eligibility {
    if m.is_fake_inherited {
        Eligibility::Skip
    } else if spec_filters_outcome(filters, m) == FilterOutcome::Abort {
        Eligibility::AbortRun
    } else if spec_filters_outcome(filters, m) == FilterOutcome::Reject {
        Eligibility::Skip
    } else if spec_membership_blocked(m, pure_virtual_classes) {
        Eligibility::Skip
    } else if m.declares_template_params {
        Eligibility::Skip
    } else if m.template_instantiation && !m.is_ffi_whitelisted {
        Eligibility::Skip
    } else if spec_types_blocked(m) {
        Eligibility::Skip
    } else {
        Eligibility::Eligible
    }
}

/// Decides `spec_eligible` for one method.
pub fn eligible<F: MethodFilter>(
    m: &NativeMethod,
    filters: &Vec<F>,
    pure_virtual_classes: &Vec<String>,
) -> (r: Eligibility)
    ensures
        r == spec_eligible(m@, filters@, strings_view(pure_virtual_classes@)),
{
    if m.is_fake_inherited {
        return Eligibility::Skip;
    }
    let mut i: usize = 0;
    proof {
        assert(filters@.skip(0) =~= filters@);
    }
    #[verifier::loop_isolation(false)]
    while i < filters.len()
        invariant
            0 <= i <= filters.len(),
            spec_filters_outcome(filters@.skip(i as int), m@) == spec_filters_outcome(
                filters@,
                m@,
            ),
            spec_filters_outcome(filters@, m@) != FilterOutcome::Abort || i < filters.len(),
            spec_filters_outcome(filters@, m@) != FilterOutcome::Reject || i < filters.len(),
        decreases filters.len() - i,
    {
        let v = filters[i].check(m);
        proof {
            assert(filters@.skip(i as int)[0] == filters@[i as int]);
            assert(filters@.skip(i as int).drop_first() =~= filters@.skip(i + 1));
        }
        match v {
            FilterOutcome::Allow => {
                i += 1;
            },
            FilterOutcome::Reject => {
                return Eligibility::Skip;
            },
            FilterOutcome::Abort => {
                return Eligibility::AbortRun;
            },
        }
    }
    proof {
        assert(filters@.skip(filters@.len() as int).len() == 0);
        assert(spec_filters_outcome(filters@, m@) == FilterOutcome::Allow);
    }
    match &m.membership {
        Option::Some(mem) => {
            if str_eq(mem.class_name.as_str(), "QFlags") {
                return Eligibility::Skip;
            }
            if mem.kind == MethodKind::Constructor && contains_string(
                pure_virtual_classes,
                mem.class_name.as_str(),
            ) {
                return Eligibility::Skip;
            }
            if mem.visibility != Visibility::Public {
                return Eligibility::Skip;
            }
            if mem.is_signal {
                return Eligibility::Skip;
            }
        },
        Option::None => {},
    }
    if m.declares_template_params {
        return Eligibility::Skip;
    }
    if m.template_instantiation && !m.is_ffi_whitelisted {
        return Eligibility::Skip;
    }
    if crate::types::contains_template_param(&m.return_type) {
        return Eligibility::Skip;
    }
    let mut k: usize = 0;
    #[verifier::loop_isolation(false)]
    while k < m.arguments.len()
        invariant
            0 <= k <= m.arguments.len(),
            forall|j: int|
                0 <= j < k ==> !spec_contains_template_param((#[trigger] m@.arguments[j]).ty),
        decreases m.arguments.len() - k,
    {
        if crate::types::contains_template_param(&m.arguments[k].arg_type) {
            proof {
                assert(m@.arguments[k as int].ty == m.arguments@[k as int]@.ty);
                assert(spec_types_blocked(m@));
            }
            return Eligibility::Skip;
        }
        k += 1;
    }
    proof {
        assert(!spec_types_blocked(m@));
    }
    Eligibility::Eligible
}

} // verus!
