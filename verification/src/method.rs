use vstd::prelude::*;
use crate::types::{NativeType, TyV, ty_view, tys_view, clone_type};

verus! {

/// What kind of callable a method is.
#[derive(Clone, Copy, PartialEq, Eq, Structural, Debug)]
pub enum MethodKind {
    Constructor,
    Destructor,
    Regular,
    Operator,
}

/// Member visibility in the owning class.
#[derive(Clone, Copy, PartialEq, Eq, Structural, Debug)]
pub enum Visibility {
    Public,
    Protected,
    Private,
}

/// Class-membership data of a method, absent for free functions.
#[derive(Debug)]
pub struct Membership {
    pub class_name: String,
    pub visibility: Visibility,
    pub is_virtual: bool,
    pub is_pure_virtual: bool,
    pub is_const: bool,
    pub is_static: bool,
    pub is_signal: bool,
    pub is_slot: bool,
    pub kind: MethodKind,
}

/// One formal argument of a method.
#[derive(Debug)]
pub struct Argument {
    pub name: String,
    pub arg_type: NativeType,
    pub has_default: bool,
}

/// A method of the input API description. For an `Operator` method, `name`
/// holds the operator's symbol (for example `+` or `==`).
#[derive(Debug)]
pub struct NativeMethod {
    pub name: String,
    pub membership: Option<Membership>,
    pub return_type: NativeType,
    pub arguments: Vec<Argument>,
    pub allows_variadic: bool,
    pub declares_template_params: bool,
    pub template_instantiation: bool,
    pub is_ffi_whitelisted: bool,
    pub is_fake_inherited: bool,
    pub unit_name: String,
}

/// Mathematical model of `Membership`.
#[verifier::ext_equal]
pub struct MembershipV {
    pub class_name: Seq<char>,
    pub visibility: Visibility,
    pub is_virtual: bool,
    pub is_pure_virtual: bool,
    pub is_const: bool,
    pub is_static: bool,
    pub is_signal: bool,
    pub is_slot: bool,
    pub kind: MethodKind,
}

/// Mathematical model of `Argument`.
#[verifier::ext_equal]
pub struct ArgV {
    pub name: Seq<char>,
    pub ty: TyV,
    pub has_default: bool,
}

/// Mathematical model of `NativeMethod`.
#[verifier::ext_equal]
pub struct MethodV {
    pub name: Seq<char>,
    pub membership: Option<MembershipV>,
    pub return_type: TyV,
    pub arguments: Seq<ArgV>,
    pub allows_variadic: bool,
    pub declares_template_params: bool,
    pub template_instantiation: bool,
    pub is_ffi_whitelisted: bool,
    pub is_fake_inherited: bool,
    pub unit_name: Seq<char>,
}

impl View for Membership {
    type V = MembershipV;

    open spec fn view(&self) -> MembershipV {
        MembershipV {
            class_name: self.class_name@,
            visibility: self.visibility,
            is_virtual: self.is_virtual,
            is_pure_virtual: self.is_pure_virtual,
            is_const: self.is_const,
            is_static: self.is_static,
            is_signal: self.is_signal,
            is_slot: self.is_slot,
            kind: self.kind,
        }
    }
}

impl View for Argument {
    type V = ArgV;

    open spec fn view(&self) -> ArgV {
        ArgV { name: self.name@, ty: self.arg_type@, has_default: self.has_default }
    }
}

impl View for NativeMethod {
    type V = MethodV;

    open spec fn view(&self) -> MethodV {
        MethodV {
            name: self.name@,
            membership: match self.membership {
                Option::Some(m) => Option::Some(m@),
                Option::None => Option::None,
            },
            return_type: self.return_type@,
            arguments: Seq::new(self.arguments@.len(), |i: int| self.arguments@[i]@),
            allows_variadic: self.allows_variadic,
            declares_template_params: self.declares_template_params,
            template_instantiation: self.template_instantiation,
            is_ffi_whitelisted: self.is_ffi_whitelisted,
            is_fake_inherited: self.is_fake_inherited,
            unit_name: self.unit_name@,
        }
    }
}

/// The views of the elements of a method list.
pub open spec fn methods_view(ms: Seq<NativeMethod>) -> Seq<MethodV> {
    Seq::new(ms.len(), |i: int| ms[i]@)
}

/// The views of the elements of a string list.
pub open spec fn strings_view(ss: Seq<String>) -> Seq<Seq<char>> {
    Seq::new(ss.len(), |i: int| ss[i]@)
}

/// The input API description, built once by the upstream extractor and
/// treated as read-only.
#[derive(Debug)]
pub struct ApiDatabase {
    /// Every method of the native API.
    pub methods: Vec<NativeMethod>,
    /// Names of classes owning at least one pure-virtual method.
    pub pure_virtual_classes: Vec<String>,
    /// Names of classes whose by-value crossings are heap-allocated.
    pub heap_allocated_classes: Vec<String>,
    /// The distinct ordered argument-type tuples observed on signal members.
    pub signal_argument_tuples: Vec<Vec<NativeType>>,
    /// The compilation-unit (include-file) names of the API.
    pub include_files: Vec<String>,
}

/// Mathematical model of `ApiDatabase`.
#[verifier::ext_equal]
pub struct DatabaseV {
    pub methods: Seq<MethodV>,
    pub pure_virtual_classes: Seq<Seq<char>>,
    pub heap_allocated_classes: Seq<Seq<char>>,
    pub signal_argument_tuples: Seq<Seq<TyV>>,
    pub include_files: Seq<Seq<char>>,
}

impl View for ApiDatabase {
    type V = DatabaseV;

    open spec fn view(&self) -> DatabaseV {
        DatabaseV {
            methods: methods_view(self.methods@),
            pure_virtual_classes: strings_view(self.pure_virtual_classes@),
            heap_allocated_classes: strings_view(self.heap_allocated_classes@),
            signal_argument_tuples: Seq::new(
                self.signal_argument_tuples@.len(),
                |i: int| tys_view(self.signal_argument_tuples@[i]@),
            ),
            include_files: strings_view(self.include_files@),
        }
    }
}

/// Whether some string of `names` has exactly the characters `name`.
pub open spec fn name_listed(names: Seq<Seq<char>>, name: Seq<char>) -> bool {
    exists|i: int| 0 <= i < names.len() && names[i] == name
}

/// Decides `name_listed` over a string list.
pub fn contains_string(names: &Vec<String>, name: &str) -> (r: bool)
    ensures
        r == name_listed(strings_view(names@), name@),
{
    let mut i: usize = 0;
    #[verifier::loop_isolation(false)]
    while i < names.len()
        invariant
            0 <= i <= names.len(),
            forall|j: int| 0 <= j < i ==> strings_view(names@)[j] != name@,
        decreases names.len() - i,
    {
        if crate::text::str_eq(names[i].as_str(), name) {
            proof {
                assert(strings_view(names@)[i as int] == name@);
            }
            return true;
        }
        i += 1;
    }
    false
}

/// Structurally copies a membership record; the copy has the same view.
pub fn clone_membership(m: &Membership) -> (r: Membership)
    ensures
        r@ == m@,
{
    Membership {
        class_name: m.class_name.clone(),
        visibility: m.visibility,
        is_virtual: m.is_virtual,
        is_pure_virtual: m.is_pure_virtual,
        is_const: m.is_const,
        is_static: m.is_static,
        is_signal: m.is_signal,
        is_slot: m.is_slot,
        kind: m.kind,
    }
}

/// Structurally copies an argument; the copy has the same view.
pub fn clone_argument(a: &Argument) -> (r: Argument)
    ensures
        r@ == a@,
{
    Argument { name: a.name.clone(), arg_type: clone_type(&a.arg_type), has_default: a.has_default }
}

/// Structurally copies a method; the copy has the same view.
pub fn clone_method(m: &NativeMethod) -> (r: NativeMethod)
    ensures
        r@ == m@,
{
    let membership = match &m.membership {
        Option::Some(mem) => Option::Some(clone_membership(mem)),
        Option::None => Option::None,
    };
    let mut arguments: Vec<Argument> = Vec::new();
    let mut i: usize = 0;
    #[verifier::loop_isolation(false)]
    while i < m.arguments.len()
        invariant
            0 <= i <= m.arguments.len(),
            arguments@.len() == i,
            forall|j: int| 0 <= j < i ==> (#[trigger] arguments@[j])@ == m.arguments@[j]@,
        decreases m.arguments.len() - i,
    {
        let a = clone_argument(&m.arguments[i]);
        arguments.push(a);
        i += 1;
    }
    let r = NativeMethod {
        name: m.name.clone(),
        membership,
        return_type: clone_type(&m.return_type),
        arguments,
        allows_variadic: m.allows_variadic,
        declares_template_params: m.declares_template_params,
        template_instantiation: m.template_instantiation,
        is_ffi_whitelisted: m.is_ffi_whitelisted,
        is_fake_inherited: m.is_fake_inherited,
        unit_name: m.unit_name.clone(),
    };
    proof {
        assert(r@ =~= m@);
    }
    r
}

} // verus!
