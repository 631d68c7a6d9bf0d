use vstd::prelude::*;
use vstd::string::{StringExecFns, StrSliceExecFns};
use crate::types::{
    NativeType, TypeBase, TyV, TyBaseV, FnPtrType, FnPtrV, Indirection, AllocationPlace, tys_view,
    lemma_tys_view, spec_contains_template_param, contains_template_param, clone_type,
};
use crate::method::{NativeMethod, MethodV, MethodKind, name_listed, strings_view, contains_string};
use crate::text::{spec_sanitize, sanitize, str_eq};

verus! {

/// How verbose a type caption is.
#[derive(Clone, Copy, PartialEq, Eq, Structural, Debug)]
pub enum CaptionStyle {
    /// The bare type token.
    Short,
    /// The token with const and indirection markers.
    Full,
}

/// The fixed ladder of captioning strategies, least verbose first.
#[derive(Clone, Copy, PartialEq, Eq, Structural, Debug)]
pub enum NameStrategy {
    /// Short captions of the argument types.
    ArgsShort,
    /// Full captions of the argument types.
    ArgsFull,
    /// A const marker for const members, then full captions.
    ConstArgsFull,
}

/// The token of a type's head constructor.
pub open spec fn spec_base_token(b: TyBaseV) -> Seq<char> {
    match b {
        TyBaseV::Void => "void"@,
        TyBaseV::Primitive { name } => spec_sanitize(name),
        TyBaseV::Class { name, .. } => spec_sanitize(name),
        TyBaseV::FnPtr { .. } => "func"@,
        TyBaseV::TemplateParam => "tparam"@,
    }
}

pub open spec fn spec_ind_suffix(i: Indirection) -> Seq<char> {
    match i {
        Indirection::Direct => Seq::empty(),
        Indirection::Ptr => "_ptr"@,
        Indirection::Ref => "_ref"@,
    }
}

/// The caption of one type under a style.
pub open spec fn spec_type_caption(t: TyV, style: CaptionStyle) -> Seq<char> {
    match style {
        CaptionStyle::Short => spec_base_token(t.base),
        CaptionStyle::Full => (if t.is_const {
            "const_"@
        } else {
            Seq::empty()
        }) + spec_base_token(t.base) + spec_ind_suffix(t.indirection),
    }
}

fn base_token(t: &NativeType) -> (r: String)
    ensures
        r@ == spec_base_token(t@.base),
{
    match &t.base {
        TypeBase::Void => String::from_str("void"),
        TypeBase::Primitive { name } => sanitize(name.as_str()),
        TypeBase::Class { name, .. } => sanitize(name.as_str()),
        TypeBase::FnPtr { .. } => String::from_str("func"),
        TypeBase::TemplateParam => String::from_str("tparam"),
    }
}

/// Builds the caption of one type under a style.
pub fn type_caption(t: &NativeType, style: CaptionStyle) -> (r: String)
    ensures
        r@ == spec_type_caption(t@, style),
{
    match style {
        CaptionStyle::Short => base_token(t),
        CaptionStyle::Full => {
            let mut r = String::new();
            if t.is_const {
                r.append("const_");
            }
            let token = base_token(t);
            r.append(token.as_str());
            match t.indirection {
                Indirection::Direct => {},
                Indirection::Ptr => r.append("_ptr"),
                Indirection::Ref => r.append("_ref"),
            }
            proof {
                assert(r@ =~= spec_type_caption(t@, style));
            }
            r
        },
    }
}

/// The captions of a type list, joined with underscores.
pub open spec fn spec_join_captions(args: Seq<TyV>, style: CaptionStyle) -> Seq<char>
    decreases args.len(),
{
    if args.len() == 0 {
        Seq::empty()
    } else if args.len() == 1 {
        spec_type_caption(args[0], style)
    } else {
        spec_join_captions(args.drop_last(), style) + "_"@ + spec_type_caption(args.last(), style)
    }
}

/// Builds the joined captions of a type list.
pub fn join_captions(args: &Vec<NativeType>, style: CaptionStyle) -> (r: String)
    ensures
        r@ == spec_join_captions(tys_view(args@), style),
{
    proof {
        lemma_tys_view(args@);
    }
    let mut r = String::new();
    let mut i: usize = 0;
    #[verifier::loop_isolation(false)]
    while i < args.len()
        invariant
            0 <= i <= args.len(),
            r@ == spec_join_captions(tys_view(args@).take(i as int), style),
        decreases args.len() - i,
    {
        if i > 0 {
            r.append("_");
        }
        let c = type_caption(&args[i], style);
        r.append(c.as_str());
        proof {
            let vs = tys_view(args@);
            assert(vs.take(i + 1).drop_last() =~= vs.take(i as int));
            assert(vs.take(i + 1).last() == vs[i as int]);
            assert(vs[i as int] == args@[i as int]@);
            if i == 0 {
                assert(spec_join_captions(vs.take(1), style) == spec_type_caption(vs[0], style));
            }
        }
        i += 1;
    }
    proof {
        assert(tys_view(args@).take(args@.len() as int) =~= tys_view(args@));
    }
    r
}

/// Whether a method is a const member.
pub open spec fn spec_is_const_member(m: MethodV) -> bool {
    match m.membership {
        Option::Some(mem) => mem.is_const,
        Option::None => false,
    }
}

/// The caption of a method under one strategy, derived from its FFI
/// argument types and, for the most verbose strategy, its constness.
pub open spec fn spec_method_caption(m: MethodV, sig_args: Seq<TyV>, strat: NameStrategy) -> Seq<
    char,
> {
    match strat {
        NameStrategy::ArgsShort => spec_join_captions(sig_args, CaptionStyle::Short),
        NameStrategy::ArgsFull => spec_join_captions(sig_args, CaptionStyle::Full),
        NameStrategy::ConstArgsFull => if spec_is_const_member(m) {
            if sig_args.len() == 0 {
                "const"@
            } else {
                "const_"@ + spec_join_captions(sig_args, CaptionStyle::Full)
            }
        } else {
            spec_join_captions(sig_args, CaptionStyle::Full)
        },
    }
}

/// A translated FFI signature: per-argument and per-return FFI types plus
/// the method's allocation-place tag.
#[derive(Debug)]
pub struct FfiSignature {
    pub arg_types: Vec<NativeType>,
    pub return_type: NativeType,
    pub place: AllocationPlace,
}

/// Mathematical model of `FfiSignature`.
#[verifier::ext_equal]
pub struct SigV {
    pub arg_types: Seq<TyV>,
    pub return_type: TyV,
    pub place: AllocationPlace,
}

impl View for FfiSignature {
    type V = SigV;

    open spec fn view(&self) -> SigV {
        SigV {
            arg_types: tys_view(self.arg_types@),
            return_type: self.return_type@,
            place: self.place,
        }
    }
}

/// Builds the caption of a method with FFI signature `sig` under a strategy.
pub fn method_caption(m: &NativeMethod, sig: &FfiSignature, strat: NameStrategy) -> (r: String)
    ensures
        r@ == spec_method_caption(m@, sig@.arg_types, strat),
{
    match strat {
        NameStrategy::ArgsShort => join_captions(&sig.arg_types, CaptionStyle::Short),
        NameStrategy::ArgsFull => join_captions(&sig.arg_types, CaptionStyle::Full),
        NameStrategy::ConstArgsFull => {
            let is_const = match &m.membership {
                Option::Some(mem) => mem.is_const,
                Option::None => false,
            };
            if is_const {
                let mut r = String::new();
                if sig.arg_types.len() == 0 {
                    r.append("const");
                } else {
                    r.append("const_");
                    let j = join_captions(&sig.arg_types, CaptionStyle::Full);
                    r.append(j.as_str());
                }
                proof {
                    assert(r@ =~= spec_method_caption(m@, sig@.arg_types, strat));
                }
                r
            } else {
                join_captions(&sig.arg_types, CaptionStyle::Full)
            }
        },
    }
}

/// The error of a method whose types have no FFI mapping; the method is
/// skipped, the run goes on.
#[derive(Clone, Copy, PartialEq, Eq, Structural, Debug)]
pub struct UnrepresentableType {}

/// Whether a non-function-pointer type has an FFI mapping.
pub open spec fn spec_scalar_ok(t: TyV) -> bool {
    match t.base {
        TyBaseV::FnPtr { .. } => false,
        TyBaseV::TemplateParam => false,
        TyBaseV::Class { .. } => !spec_contains_template_param(t),
        _ => true,
    }
}

/// The FFI image of a non-function-pointer type: classes and references
/// cross the boundary behind a pointer, everything else passes through.
pub open spec fn spec_scalar_val(t: TyV) -> TyV {
    TyV {
        base: t.base,
        indirection: if t.base is Class {
            Indirection::Ptr
        } else if t.indirection == Indirection::Ref {
            Indirection::Ptr
        } else {
            t.indirection
        },
        is_const: t.is_const,
    }
}

/// Whether a type may stand inside a function-pointer signature: scalars
/// only, and no class passed by value.
pub open spec fn spec_fnptr_elem_ok(t: TyV) -> bool {
    spec_scalar_ok(t) && !(t.base is Class && t.indirection == Indirection::Direct)
}

/// Whether a type has an FFI mapping.
pub open spec fn spec_ffi_ok(t: TyV) -> bool {
    match t.base {
        TyBaseV::FnPtr { fun } => {
            &&& t.indirection == Indirection::Direct
            &&& !fun.variadic
            &&& spec_fnptr_elem_ok(*fun.return_type)
            &&& forall|i: int|
                0 <= i < fun.arg_types.len() ==> spec_fnptr_elem_ok(#[trigger] fun.arg_types[i])
        },
        _ => spec_scalar_ok(t),
    }
}

/// The FFI image of a type; meaningful when `spec_ffi_ok` holds.
pub open spec fn spec_ffi_val(t: TyV) -> TyV {
    match t.base {
        TyBaseV::FnPtr { fun } => TyV {
            base: TyBaseV::FnPtr {
                fun: FnPtrV {
                    return_type: Box::new(spec_scalar_val(*fun.return_type)),
                    arg_types: Seq::new(
                        fun.arg_types.len(),
                        |i: int| spec_scalar_val(fun.arg_types[i]),
                    ),
                    variadic: false,
                },
            },
            indirection: Indirection::Direct,
            is_const: t.is_const,
        },
        _ => spec_scalar_val(t),
    }
}

fn scalar_val(t: &NativeType) -> (r: NativeType)
    ensures
        r@ == spec_scalar_val(t@),
{
    let copied = clone_type(t);
    let is_class = match &copied.base {
        TypeBase::Class { .. } => true,
        _ => false,
    };
    let ind = if is_class {
        Indirection::Ptr
    } else if copied.indirection == Indirection::Ref {
        Indirection::Ptr
    } else {
        copied.indirection
    };
    let r = NativeType { base: copied.base, indirection: ind, is_const: copied.is_const };
    proof {
        assert(r@ =~= spec_scalar_val(t@));
    }
    r
}

fn scalar_ok(t: &NativeType) -> (r: bool)
    ensures
        r == spec_scalar_ok(t@),
{
    match &t.base {
        TypeBase::FnPtr { .. } => false,
        TypeBase::TemplateParam => false,
        TypeBase::Class { .. } => !contains_template_param(t),
        _ => true,
    }
}

fn fnptr_elem_ok(t: &NativeType) -> (r: bool)
    ensures
        r == spec_fnptr_elem_ok(t@),
{
    let is_class_by_value = match &t.base {
        TypeBase::Class { .. } => t.indirection == Indirection::Direct,
        _ => false,
    };
    scalar_ok(t) && !is_class_by_value
}

/// Translates one type to its FFI image, or reports that it has none.
pub fn ffi_type(t: &NativeType) -> (r: Result<NativeType, UnrepresentableType>)
    ensures
        r is Ok <==> spec_ffi_ok(t@),
        r is Ok ==> r->Ok_0@ == spec_ffi_val(t@),
{
    match &t.base {
        TypeBase::FnPtr { fun } => {
            if t.indirection != Indirection::Direct || fun.variadic {
                return Result::Err(UnrepresentableType {});
            }
            if !fnptr_elem_ok(&fun.return_type) {
                return Result::Err(UnrepresentableType {});
            }
            let ret = scalar_val(&fun.return_type);
            let mut new_args: Vec<NativeType> = Vec::new();
            let mut i: usize = 0;
            #[verifier::loop_isolation(false)]
            while i < fun.arg_types.len()
                invariant
                    0 <= i <= fun.arg_types.len(),
                    new_args@.len() == i,
                    forall|j: int|
                        0 <= j < i ==> (#[trigger] new_args@[j])@ == spec_scalar_val(
                            fun.arg_types@[j]@,
                        ),
                    forall|j: int| 0 <= j < i ==> spec_fnptr_elem_ok(fun.arg_types@[j]@),
                decreases fun.arg_types.len() - i,
            {
                if !fnptr_elem_ok(&fun.arg_types[i]) {
                    proof {
                        lemma_tys_view(fun.arg_types@);
                        assert(!spec_fnptr_elem_ok(
                            t@.base->FnPtr_fun.arg_types[i as int],
                        ));
                    }
                    return Result::Err(UnrepresentableType {});
                }
                let v = scalar_val(&fun.arg_types[i]);
                new_args.push(v);
                i += 1;
            }
            let r = NativeType {
                base: TypeBase::FnPtr {
                    fun: FnPtrType {
                        return_type: Box::new(ret),
                        arg_types: new_args,
                        variadic: false,
                    },
                },
                indirection: Indirection::Direct,
                is_const: t.is_const,
            };
            proof {
                lemma_tys_view(fun.arg_types@);
                lemma_tys_view(new_args@);
                assert forall|k: int|
                    0 <= k < t@.base->FnPtr_fun.arg_types.len() implies spec_fnptr_elem_ok(
                    #[trigger] t@.base->FnPtr_fun.arg_types[k],
                ) by {
                    assert(t@.base->FnPtr_fun.arg_types[k] == fun.arg_types@[k]@);
                }
                assert(spec_ffi_ok(t@));
                assert forall|k: int|
                    0 <= k < new_args@.len() implies tys_view(new_args@)[k] == spec_ffi_val(
                    t@,
                ).base->FnPtr_fun.arg_types[k] by {
                    assert(tys_view(new_args@)[k] == new_args@[k]@);
                    assert(t@.base->FnPtr_fun.arg_types[k] == fun.arg_types@[k]@);
                }
                assert(tys_view(new_args@) =~= spec_ffi_val(t@).base->FnPtr_fun.arg_types);
                assert(r@ =~= spec_ffi_val(t@));
            }
            Result::Ok(r)
        },
        _ => {
            if scalar_ok(t) {
                Result::Ok(scalar_val(t))
            } else {
                Result::Err(UnrepresentableType {})
            }
        },
    }
}

/// Whether every type of the method has an FFI mapping.
pub open spec fn spec_method_representable(m: MethodV) -> bool {
    &&& !m.allows_variadic
    &&& spec_ffi_ok(m.return_type)
    &&& forall|i: int| 0 <= i < m.arguments.len() ==> spec_ffi_ok((#[trigger] m.arguments[i]).ty)
}

/// The allocation place governing a method's by-value class crossings:
/// the override when present, else the owning class's policy, else stack.
pub open spec fn spec_alloc_place(
    m: MethodV,
    heap_classes: Seq<Seq<char>>,
    override_place: Option<AllocationPlace>,
) -> AllocationPlace {
    match override_place {
        Option::Some(p) => p,
        Option::None => match m.membership {
            Option::Some(mem) => if name_listed(heap_classes, mem.class_name) {
                AllocationPlace::Heap
            } else {
                AllocationPlace::Stack
            },
            Option::None => AllocationPlace::Stack,
        },
    }
}

/// The FFI signature of a method; meaningful when it is representable.
pub open spec fn spec_translate(
    m: MethodV,
    heap_classes: Seq<Seq<char>>,
    override_place: Option<AllocationPlace>,
) -> SigV {
    SigV {
        arg_types: Seq::new(m.arguments.len(), |i: int| spec_ffi_val(m.arguments[i].ty)),
        return_type: spec_ffi_val(m.return_type),
        place: spec_alloc_place(m, heap_classes, override_place),
    }
}

/// Translates every argument and the return type of one method
/// independently, or reports the first type with no FFI mapping.
pub fn translate_method(
    m: &NativeMethod,
    heap_allocated_classes: &Vec<String>,
    override_place: Option<AllocationPlace>,
) -> (r: Result<FfiSignature, UnrepresentableType>)
    ensures
        r is Ok <==> spec_method_representable(m@),
        r is Ok ==> r->Ok_0@ == spec_translate(
            m@,
            strings_view(heap_allocated_classes@),
            override_place,
        ),
{
    if m.allows_variadic {
        return Result::Err(UnrepresentableType {});
    }
    let ret = match ffi_type(&m.return_type) {
        Result::Ok(t) => t,
        Result::Err(e) => {
            return Result::Err(e);
        },
    };
    let mut args: Vec<NativeType> = Vec::new();
    let mut i: usize = 0;
    #[verifier::loop_isolation(false)]
    while i < m.arguments.len()
        invariant
            0 <= i <= m.arguments.len(),
            args@.len() == i,
            forall|j: int|
                0 <= j < i ==> (#[trigger] args@[j])@ == spec_ffi_val(m@.arguments[j].ty),
            forall|j: int| 0 <= j < i ==> spec_ffi_ok((#[trigger] m@.arguments[j]).ty),
        decreases m.arguments.len() - i,
    {
        match ffi_type(&m.arguments[i].arg_type) {
            Result::Ok(t) => {
                args.push(t);
            },
            Result::Err(e) => {
                proof {
                    assert(!spec_ffi_ok(m@.arguments[i as int].ty));
                }
                return Result::Err(e);
            },
        }
        i += 1;
    }
    let place = match override_place {
        Option::Some(p) => p,
        Option::None => match &m.membership {
            Option::Some(mem) => if contains_string(
                heap_allocated_classes,
                mem.class_name.as_str(),
            ) {
                AllocationPlace::Heap
            } else {
                AllocationPlace::Stack
            },
            Option::None => AllocationPlace::Stack,
        },
    };
    let r = FfiSignature { arg_types: args, return_type: ret, place };
    proof {
        lemma_tys_view(args@);
        let model = spec_translate(m@, strings_view(heap_allocated_classes@), override_place);
        assert forall|k: int| 0 <= k < args@.len() implies tys_view(args@)[k] == model.arg_types[k] by {
            assert(tys_view(args@)[k] == args@[k]@);
        }
        assert(tys_view(args@) =~= model.arg_types);
        assert(r@ =~= model);
    }
    Result::Ok(r)
}

/// The demangled token of an operator symbol; unknown symbols are
/// sanitized instead.
pub open spec fn spec_operator_token(name: Seq<char>) -> Seq<char> {
    if name == "+"@ {
        "add"@
    } else if name == "-"@ {
        "sub"@
    } else if name == "*"@ {
        "mul"@
    } else if name == "/"@ {
        "div"@
    } else if name == "%"@ {
        "rem"@
    } else if name == "=="@ {
        "eq"@
    } else if name == "!="@ {
        "neq"@
    } else if name == "<"@ {
        "lt"@
    } else if name == ">"@ {
        "gt"@
    } else if name == "<="@ {
        "leq"@
    } else if name == ">="@ {
        "geq"@
    } else if name == "="@ {
        "assign"@
    } else if name == "[]"@ {
        "index"@
    } else if name == "()"@ {
        "call"@
    } else {
        spec_sanitize(name)
    }
}

fn operator_token(name: &str) -> (r: String)
    ensures
        r@ == spec_operator_token(name@),
{
    if str_eq(name, "+") {
        String::from_str("add")
    } else if str_eq(name, "-") {
        String::from_str("sub")
    } else if str_eq(name, "*") {
        String::from_str("mul")
    } else if str_eq(name, "/") {
        String::from_str("div")
    } else if str_eq(name, "%") {
        String::from_str("rem")
    } else if str_eq(name, "==") {
        String::from_str("eq")
    } else if str_eq(name, "!=") {
        String::from_str("neq")
    } else if str_eq(name, "<") {
        String::from_str("lt")
    } else if str_eq(name, ">") {
        String::from_str("gt")
    } else if str_eq(name, "<=") {
        String::from_str("leq")
    } else if str_eq(name, ">=") {
        String::from_str("geq")
    } else if str_eq(name, "=") {
        String::from_str("assign")
    } else if str_eq(name, "[]") {
        String::from_str("index")
    } else if str_eq(name, "()") {
        String::from_str("call")
    } else {
        sanitize(name)
    }
}

/// The trailing part of a base name, given by the method's kind.
pub open spec fn spec_kind_part(m: MethodV) -> Seq<char> {
    match m.membership {
        Option::Some(mem) => match mem.kind {
            MethodKind::Constructor => "constructor"@,
            MethodKind::Destructor => "destructor"@,
            MethodKind::Operator => "operator_"@ + spec_operator_token(m.name),
            MethodKind::Regular => spec_sanitize(m.name),
        },
        Option::None => spec_sanitize(m.name),
    }
}

/// The collision-grouping base name of a method: the library prefix, then
/// the owning class (or the unit name marked as holding free functions),
/// then the kind part. Two overloads of one logical function collide here
/// on purpose; disambiguation is the resolver's job.
pub open spec fn spec_base_name(m: MethodV, lib: Seq<char>, unit_base: Seq<char>) -> Seq<char> {
    lib + "_"@ + (match m.membership {
        Option::Some(mem) => spec_sanitize(mem.class_name),
        Option::None => spec_sanitize(unit_base) + "_G"@,
    }) + "_"@ + spec_kind_part(m)
}

/// Builds the collision-grouping base name of one method.
pub fn base_name(m: &NativeMethod, lib: &str, unit_base: &str) -> (r: String)
    ensures
        r@ == spec_base_name(m@, lib@, unit_base@),
{
    let mut r = String::from_str(lib);
    r.append("_");
    match &m.membership {
        Option::Some(mem) => {
            let c = sanitize(mem.class_name.as_str());
            r.append(c.as_str());
        },
        Option::None => {
            let u = sanitize(unit_base);
            r.append(u.as_str());
            r.append("_G");
        },
    }
    r.append("_");
    match &m.membership {
        Option::Some(mem) => {
            match mem.kind {
                MethodKind::Constructor => r.append("constructor"),
                MethodKind::Destructor => r.append("destructor"),
                MethodKind::Operator => {
                    r.append("operator_");
                    let tok = operator_token(m.name.as_str());
                    r.append(tok.as_str());
                },
                MethodKind::Regular => {
                    let n = sanitize(m.name.as_str());
                    r.append(n.as_str());
                },
            }
        },
        Option::None => {
            let n = sanitize(m.name.as_str());
            r.append(n.as_str());
        },
    }
    proof {
        assert(r@ =~= spec_base_name(m@, lib@, unit_base@));
    }
    r
}


} // verus!
