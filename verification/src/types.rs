use vstd::prelude::*;

verus! {

/// How a value of a type is passed: directly by value, through a pointer,
/// or through a reference.
#[derive(Clone, Copy, PartialEq, Eq, Structural, Debug)]
pub enum Indirection {
    Direct,
    Ptr,
    Ref,
}

/// Stack or heap placement for by-value class values crossing the FFI boundary.
#[derive(Clone, Copy, PartialEq, Eq, Structural, Debug)]
pub enum AllocationPlace {
    Stack,
    Heap,
}

/// A function-pointer shape: return type, ordered parameter types, variadic flag.
#[derive(Debug)]
pub struct FnPtrType {
    pub return_type: Box<NativeType>,
    pub arg_types: Vec<NativeType>,
    pub variadic: bool,
}

/// The head constructor of a native type. A class with an empty
/// `template_args` list is an ordinary, non-template class.
#[derive(Debug)]
pub enum TypeBase {
    Void,
    Primitive { name: String },
    Class { name: String, template_args: Vec<NativeType> },
    FnPtr { fun: FnPtrType },
    TemplateParam,
}

/// A native type: head constructor plus indirection and constness.
#[derive(Debug)]
pub struct NativeType {
    pub base: TypeBase,
    pub indirection: Indirection,
    pub is_const: bool,
}

/// Mathematical model of `FnPtrType`.
#[verifier::ext_equal]
pub struct FnPtrV {
    pub return_type: Box<TyV>,
    pub arg_types: Seq<TyV>,
    pub variadic: bool,
}

/// Mathematical model of `TypeBase`.
#[verifier::ext_equal]
pub enum TyBaseV {
    Void,
    Primitive { name: Seq<char> },
    Class { name: Seq<char>, template_args: Seq<TyV> },
    FnPtr { fun: FnPtrV },
    TemplateParam,
}

/// Mathematical model of `NativeType`.
#[verifier::ext_equal]
pub struct TyV {
    pub base: TyBaseV,
    pub indirection: Indirection,
    pub is_const: bool,
}

pub open spec fn ty_view(t: NativeType) -> TyV
    decreases t,
    via ty_view_decreases
{
    TyV {
        base: match t.base {
            TypeBase::Void => TyBaseV::Void,
            TypeBase::Primitive { name } => TyBaseV::Primitive { name: name@ },
            TypeBase::Class { name, template_args } => TyBaseV::Class {
                name: name@,
                template_args: tys_view(template_args@),
            },
            TypeBase::FnPtr { fun } => TyBaseV::FnPtr {
                fun: FnPtrV {
                    return_type: Box::new(ty_view(*fun.return_type)),
                    arg_types: tys_view(fun.arg_types@),
                    variadic: fun.variadic,
                },
            },
            TypeBase::TemplateParam => TyBaseV::TemplateParam,
        },
        indirection: t.indirection,
        is_const: t.is_const,
    }
}

/// The views of the elements of a type list.
pub open spec fn tys_view(ts: Seq<NativeType>) -> Seq<TyV>
    decreases ts,
{
    if ts.len() == 0 {
        Seq::empty()
    } else {
        tys_view(ts.drop_last()).push(ty_view(ts.last()))
    }
}

#[via_fn]
proof fn ty_view_decreases(t: NativeType) {
    match t.base {
        TypeBase::Class { name, template_args } => {
            assert(decreases_to!(t => t.base));
            assert(t.base->Class_template_args == template_args);
            assert(decreases_to!(t.base => t.base->Class_template_args));
            assert(decreases_to!(template_args => template_args@));
        },
        TypeBase::FnPtr { fun } => {
            assert(decreases_to!(t => t.base));
            assert(t.base->FnPtr_fun == fun);
            assert(decreases_to!(t.base => t.base->FnPtr_fun));
            assert(decreases_to!(fun => *fun.return_type));
            assert(decreases_to!(fun => fun.arg_types));
            assert(decreases_to!(fun.arg_types => fun.arg_types@));
        },
        _ => {},
    }
}

/// `tys_view` is the pointwise view of the list.
pub proof fn lemma_tys_view(ts: Seq<NativeType>)
    ensures
        tys_view(ts).len() == ts.len(),
        forall|i: int| 0 <= i < ts.len() ==> tys_view(ts)[i] == ty_view(#[trigger] ts[i]),
    decreases ts,
{
    if ts.len() > 0 {
        lemma_tys_view(ts.drop_last());
        assert forall|i: int| 0 <= i < ts.len() implies tys_view(ts)[i] == ty_view(
            #[trigger] ts[i],
        ) by {
            if i < ts.len() - 1 {
                assert(ts.drop_last()[i] == ts[i]);
                assert(tys_view(ts.drop_last())[i] == ty_view(ts.drop_last()[i]));
            } else {
                assert(ts.last() == ts[i]);
            }
        }
    }
}

impl View for NativeType {
    type V = TyV;

    open spec fn view(&self) -> TyV {
        ty_view(*self)
    }
}

/// Whether a type transitively contains an unresolved template parameter.
pub open spec fn spec_contains_template_param(t: TyV) -> bool
    decreases t,
{
    match t.base {
        TyBaseV::Void => false,
        TyBaseV::Primitive { .. } => false,
        TyBaseV::Class { template_args, .. } => exists|i: int|
            0 <= i < template_args.len() && spec_contains_template_param(
                #[trigger] template_args[i],
            ),
        TyBaseV::FnPtr { fun } => spec_contains_template_param(*fun.return_type) || exists|i: int|
            0 <= i < fun.arg_types.len() && spec_contains_template_param(
                #[trigger] fun.arg_types[i],
            ),
        TyBaseV::TemplateParam => true,
    }
}

/// Decides `spec_contains_template_param` on the view of `t`.
pub fn contains_template_param(t: &NativeType) -> (r: bool)
    ensures
        r == spec_contains_template_param(t@),
    decreases *t,
{
    match &t.base {
        TypeBase::Void => false,
        TypeBase::Primitive { .. } => false,
        TypeBase::TemplateParam => true,
        TypeBase::Class { template_args, .. } => {
            proof {
                lemma_tys_view(template_args@);
            }
            let mut i: usize = 0;
            #[verifier::loop_isolation(false)]
            while i < template_args.len()
                invariant
                    0 <= i <= template_args.len(),
                    forall|j: int|
                        0 <= j < i ==> !spec_contains_template_param(
                            ty_view(#[trigger] template_args@[j]),
                        ),
                decreases template_args.len() - i,
            {
                proof {
                    assert(decreases_to!(*t => t.base));
                    assert(t.base->Class_template_args == *template_args);
                    assert(decreases_to!(t.base => t.base->Class_template_args));
                    assert(decreases_to!(*template_args => template_args@[i as int]));
                }
                if contains_template_param(&template_args[i]) {
                    proof {
                        assert(spec_contains_template_param(tys_view(template_args@)[i as int]));
                        assert(t@.base is Class);
                        assert(t@.base->Class_template_args == tys_view(template_args@));
                        assert(spec_contains_template_param(t@));
                    }
                    return true;
                }
                i += 1;
            }
            proof {
                assert forall|k: int|
                    0 <= k < tys_view(template_args@).len() implies !spec_contains_template_param(
                    #[trigger] tys_view(template_args@)[k],
                ) by {
                    assert(tys_view(template_args@)[k] == ty_view(template_args@[k]));
                }
            }
            false
        },
        TypeBase::FnPtr { fun } => {
            proof {
                lemma_tys_view(fun.arg_types@);
                assert(decreases_to!(*t => t.base));
                assert(t.base->FnPtr_fun == *fun);
                assert(decreases_to!(t.base => t.base->FnPtr_fun));
                assert(decreases_to!(*fun => *fun.return_type));
            }
            if contains_template_param(&fun.return_type) {
                return true;
            }
            let mut i: usize = 0;
            #[verifier::loop_isolation(false)]
            while i < fun.arg_types.len()
                invariant
                    0 <= i <= fun.arg_types.len(),
                    forall|j: int|
                        0 <= j < i ==> !spec_contains_template_param(
                            ty_view(#[trigger] fun.arg_types@[j]),
                        ),
                decreases fun.arg_types.len() - i,
            {
                proof {
                    assert(decreases_to!(*t => t.base));
                    assert(t.base->FnPtr_fun == *fun);
                    assert(decreases_to!(t.base => t.base->FnPtr_fun));
                    assert(decreases_to!(*fun => fun.arg_types));
                    assert(decreases_to!(fun.arg_types => fun.arg_types@[i as int]));
                }
                if contains_template_param(&fun.arg_types[i]) {
                    proof {
                        assert(spec_contains_template_param(tys_view(fun.arg_types@)[i as int]));
                        assert(t@.base->FnPtr_fun.arg_types == tys_view(fun.arg_types@));
                        assert(spec_contains_template_param(t@));
                    }
                    return true;
                }
                i += 1;
            }
            proof {
                assert forall|k: int|
                    0 <= k < tys_view(fun.arg_types@).len() implies !spec_contains_template_param(
                    #[trigger] tys_view(fun.arg_types@)[k],
                ) by {
                    assert(tys_view(fun.arg_types@)[k] == ty_view(fun.arg_types@[k]));
                }
            }
            false
        },
    }
}

/// Structurally copies a type; the copy has the same view.
pub fn clone_type(t: &NativeType) -> (r: NativeType)
    ensures
        r@ == t@,
    decreases *t,
{
    let base = match &t.base {
        TypeBase::Void => TypeBase::Void,
        TypeBase::TemplateParam => TypeBase::TemplateParam,
        TypeBase::Primitive { name } => TypeBase::Primitive { name: name.clone() },
        TypeBase::Class { name, template_args } => {
            let mut copied: Vec<NativeType> = Vec::new();
            let mut i: usize = 0;
            #[verifier::loop_isolation(false)]
            while i < template_args.len()
                invariant
                    0 <= i <= template_args.len(),
                    copied@.len() == i,
                    forall|j: int| 0 <= j < i ==> (#[trigger] copied@[j])@ == template_args@[j]@,
                decreases template_args.len() - i,
            {
                proof {
                    assert(decreases_to!(*t => t.base));
                    assert(t.base->Class_template_args == *template_args);
                    assert(decreases_to!(t.base => t.base->Class_template_args));
                    assert(decreases_to!(*template_args => template_args@[i as int]));
                }
                let c = clone_type(&template_args[i]);
                copied.push(c);
                i += 1;
            }
            proof {
                lemma_tys_view(copied@);
                lemma_tys_view(template_args@);
                assert forall|j: int|
                    0 <= j < template_args@.len() implies tys_view(copied@)[j] == tys_view(
                    template_args@,
                )[j] by {
                    assert(copied@[j]@ == template_args@[j]@);
                }
                assert(tys_view(copied@) =~= tys_view(template_args@));
            }
            TypeBase::Class { name: name.clone(), template_args: copied }
        },
        TypeBase::FnPtr { fun } => {
            proof {
                assert(decreases_to!(*t => t.base));
                assert(t.base->FnPtr_fun == *fun);
                assert(decreases_to!(t.base => t.base->FnPtr_fun));
                assert(decreases_to!(*fun => *fun.return_type));
            }
            let ret = clone_type(&fun.return_type);
            let mut copied: Vec<NativeType> = Vec::new();
            let mut i: usize = 0;
            #[verifier::loop_isolation(false)]
            while i < fun.arg_types.len()
                invariant
                    0 <= i <= fun.arg_types.len(),
                    copied@.len() == i,
                    forall|j: int| 0 <= j < i ==> (#[trigger] copied@[j])@ == fun.arg_types@[j]@,
                decreases fun.arg_types.len() - i,
            {
                proof {
                    assert(decreases_to!(*t => t.base));
                    assert(t.base->FnPtr_fun == *fun);
                    assert(decreases_to!(t.base => t.base->FnPtr_fun));
                    assert(decreases_to!(*fun => fun.arg_types));
                    assert(decreases_to!(fun.arg_types => fun.arg_types@[i as int]));
                }
                let c = clone_type(&fun.arg_types[i]);
                copied.push(c);
                i += 1;
            }
            proof {
                lemma_tys_view(copied@);
                lemma_tys_view(fun.arg_types@);
                assert forall|j: int|
                    0 <= j < fun.arg_types@.len() implies tys_view(copied@)[j] == tys_view(
                    fun.arg_types@,
                )[j] by {
                    assert(copied@[j]@ == fun.arg_types@[j]@);
                }
                assert(tys_view(copied@) =~= tys_view(fun.arg_types@));
            }
            TypeBase::FnPtr {
                fun: FnPtrType {
                    return_type: Box::new(ret),
                    arg_types: copied,
                    variadic: fun.variadic,
                },
            }
        },
    };
    let r = NativeType { base, indirection: t.indirection, is_const: t.is_const };
    proof {
        assert(r@ =~= t@);
    }
    r
}

/// Structurally copies a list of types; the copies have the same views.
pub fn clone_types(ts: &Vec<NativeType>) -> (r: Vec<NativeType>)
    ensures
        tys_view(r@) == tys_view(ts@),
{
    let mut copied: Vec<NativeType> = Vec::new();
    let mut i: usize = 0;
    #[verifier::loop_isolation(false)]
    while i < ts.len()
        invariant
            0 <= i <= ts.len(),
            copied@.len() == i,
            forall|j: int| 0 <= j < i ==> (#[trigger] copied@[j])@ == ts@[j]@,
        decreases ts.len() - i,
    {
        let c = clone_type(&ts[i]);
        copied.push(c);
        i += 1;
    }
    proof {
        lemma_tys_view(copied@);
        lemma_tys_view(ts@);
        assert forall|j: int| 0 <= j < ts@.len() implies tys_view(copied@)[j] == tys_view(ts@)[j] by {
            assert(copied@[j]@ == ts@[j]@);
        }
        assert(tys_view(copied@) =~= tys_view(ts@));
    }
    copied
}


/// Mathematical model of a bare function-pointer shape.
pub open spec fn fnptr_view(f: FnPtrType) -> FnPtrV {
    FnPtrV {
        return_type: Box::new(ty_view(*f.return_type)),
        arg_types: tys_view(f.arg_types@),
        variadic: f.variadic,
    }
}
} // verus!
