use vstd::prelude::*;
use vstd::string::{StringExecFns, StrSliceExecFns};
use crate::types::{
    NativeType, TypeBase, TyV, TyBaseV, FnPtrType, FnPtrV, Indirection, tys_view, lemma_tys_view,
    fnptr_view, clone_type, clone_types,
};
use crate::method::{
    NativeMethod, MethodV, Membership, MembershipV, Argument, ArgV, MethodKind, Visibility,
    methods_view,
};
use crate::translate::{
    CaptionStyle, spec_join_captions, join_captions, spec_ffi_ok, spec_ffi_val, ffi_type,
};
use crate::text::{spec_decimal, decimal};

verus! {

/// A synthesized bridge class: its name, its FFI argument types, its
/// callback function-pointer shape, and the stable receiver identifier the
/// runtime uses to route events to the dispatch entry point.
#[derive(Debug)]
pub struct SlotWrapperDescriptor {
    pub class_name: String,
    pub arg_types: Vec<NativeType>,
    pub callback: FnPtrType,
    pub receiver_id: String,
}

/// Mathematical model of `SlotWrapperDescriptor`.
#[verifier::ext_equal]
pub struct SlotWrapperV {
    pub class_name: Seq<char>,
    pub arg_types: Seq<TyV>,
    pub callback: FnPtrV,
    pub receiver_id: Seq<char>,
}

impl View for SlotWrapperDescriptor {
    type V = SlotWrapperV;

    open spec fn view(&self) -> SlotWrapperV {
        SlotWrapperV {
            class_name: self.class_name@,
            arg_types: tys_view(self.arg_types@),
            callback: fnptr_view(self.callback),
            receiver_id: self.receiver_id@,
        }
    }
}

pub open spec fn wrappers_view(s: Seq<SlotWrapperDescriptor>) -> Seq<SlotWrapperV> {
    Seq::new(s.len(), |i: int| s[i]@)
}

pub open spec fn tuples_view(ts: Seq<Vec<NativeType>>) -> Seq<Seq<TyV>> {
    Seq::new(ts.len(), |i: int| tys_view(ts[i]@))
}

pub open spec fn spec_void_ty() -> TyV {
    TyV { base: TyBaseV::Void, indirection: Indirection::Direct, is_const: false }
}

pub open spec fn spec_voidptr_ty() -> TyV {
    TyV { base: TyBaseV::Void, indirection: Indirection::Ptr, is_const: false }
}

/// Whether every type of a signal tuple has an FFI mapping.
pub open spec fn spec_tuple_ok(ts: Seq<TyV>) -> bool {
    forall|i: int| 0 <= i < ts.len() ==> spec_ffi_ok(#[trigger] ts[i])
}

/// The FFI images of a signal tuple's types.
pub open spec fn spec_tuple_ffi(ts: Seq<TyV>) -> Seq<TyV> {
    Seq::new(ts.len(), |i: int| spec_ffi_val(ts[i]))
}

/// The joined caption naming a tuple; the empty tuple is spelled out.
pub open spec fn spec_args_caption(ts: Seq<TyV>) -> Seq<char> {
    if ts.len() == 0 {
        "no_args"@
    } else {
        spec_join_captions(ts, CaptionStyle::Full)
    }
}

/// The synthesized bridge-class name for one tuple.
pub open spec fn spec_wrapper_class_name(lib: Seq<char>, ts: Seq<TyV>) -> Seq<char> {
    lib + "_SlotWrapper_"@ + spec_args_caption(ts)
}

/// The callback shape: an opaque context pointer first, then the tuple's
/// FFI types, no return value.
pub open spec fn spec_callback_type(ts: Seq<TyV>) -> FnPtrV {
    FnPtrV {
        return_type: Box::new(spec_void_ty()),
        arg_types: seq![spec_voidptr_ty()] + spec_tuple_ffi(ts),
        variadic: false,
    }
}

/// The receiver identifier, derived from the dispatch method's signature.
pub open spec fn spec_receiver_id(ts: Seq<TyV>) -> Seq<char> {
    "custom_slot("@ + spec_join_captions(ts, CaptionStyle::Full) + ")"@
}

/// One synthesized member of a bridge class.
pub open spec fn spec_slot_member(
    class_name: Seq<char>,
    kind: MethodKind,
    name: Seq<char>,
    is_slot: bool,
    args: Seq<ArgV>,
) -> MethodV {
    MethodV {
        name,
        membership: Option::Some(
            MembershipV {
                class_name,
                visibility: Visibility::Public,
                is_virtual: true,
                is_pure_virtual: false,
                is_const: false,
                is_static: false,
                is_signal: false,
                is_slot,
                kind,
            },
        ),
        return_type: spec_void_ty(),
        arguments: args,
        allows_variadic: false,
        declares_template_params: false,
        template_instantiation: false,
        is_ffi_whitelisted: false,
        is_fake_inherited: false,
        unit_name: "slots"@,
    }
}

/// The dispatch method's arguments: the tuple's own types, numbered.
pub open spec fn spec_dispatch_args(ts: Seq<TyV>) -> Seq<ArgV> {
    Seq::new(
        ts.len(),
        |i: int| ArgV { name: "arg"@ + spec_decimal(i as nat), ty: ts[i], has_default: false },
    )
}

/// The `set` method's arguments: the callback pointer and its context.
pub open spec fn spec_set_args(ts: Seq<TyV>) -> Seq<ArgV> {
    seq![
        ArgV {
            name: "func"@,
            ty: TyV {
                base: TyBaseV::FnPtr { fun: spec_callback_type(ts) },
                indirection: Indirection::Direct,
                is_const: false,
            },
            has_default: false,
        },
        ArgV { name: "data"@, ty: spec_voidptr_ty(), has_default: false },
    ]
}

/// The safe upcast to the generic event-object base type, a free function.
pub open spec fn spec_upcast_method(lib: Seq<char>, ts: Seq<TyV>) -> MethodV {
    MethodV {
        name: "static_cast"@,
        membership: Option::None,
        return_type: TyV {
            base: TyBaseV::Class { name: "QObject"@, template_args: Seq::empty() },
            indirection: Indirection::Ptr,
            is_const: false,
        },
        arguments: seq![
            ArgV {
                name: "ptr"@,
                ty: TyV {
                    base: TyBaseV::Class {
                        name: spec_wrapper_class_name(lib, ts),
                        template_args: Seq::empty(),
                    },
                    indirection: Indirection::Ptr,
                    is_const: false,
                },
                has_default: false,
            },
        ],
        allows_variadic: false,
        declares_template_params: false,
        template_instantiation: false,
        is_ffi_whitelisted: false,
        is_fake_inherited: false,
        unit_name: "slots"@,
    }
}

/// The five synthesized members of one tuple's bridge class.
pub open spec fn spec_tuple_methods(lib: Seq<char>, ts: Seq<TyV>) -> Seq<MethodV> {
    let cn = spec_wrapper_class_name(lib, ts);
    seq![
        spec_slot_member(cn, MethodKind::Constructor, cn, false, Seq::empty()),
        spec_slot_member(cn, MethodKind::Destructor, cn, false, Seq::empty()),
        spec_slot_member(cn, MethodKind::Regular, "set"@, false, spec_set_args(ts)),
        spec_slot_member(cn, MethodKind::Regular, "custom_slot"@, true, spec_dispatch_args(ts)),
        spec_upcast_method(lib, ts),
    ]
}

/// The descriptor of one tuple's bridge class.
pub open spec fn spec_wrapper_desc(lib: Seq<char>, ts: Seq<TyV>) -> SlotWrapperV {
    SlotWrapperV {
        class_name: spec_wrapper_class_name(lib, ts),
        arg_types: spec_tuple_ffi(ts),
        callback: spec_callback_type(ts),
        receiver_id: spec_receiver_id(ts),
    }
}

/// All synthesized methods, in tuple order; a tuple with no FFI mapping
/// contributes nothing.
pub open spec fn spec_synth_methods(tuples: Seq<Seq<TyV>>, lib: Seq<char>) -> Seq<MethodV>
    decreases tuples.len(),
{
    if tuples.len() == 0 {
        Seq::empty()
    } else {
        spec_synth_methods(tuples.drop_last(), lib) + (if spec_tuple_ok(tuples.last()) {
            spec_tuple_methods(lib, tuples.last())
        } else {
            Seq::empty()
        })
    }
}

/// All bridge-class descriptors, in tuple order.
pub open spec fn spec_synth_wrappers(tuples: Seq<Seq<TyV>>, lib: Seq<char>) -> Seq<SlotWrapperV>
    decreases tuples.len(),
{
    if tuples.len() == 0 {
        Seq::empty()
    } else {
        spec_synth_wrappers(tuples.drop_last(), lib) + (if spec_tuple_ok(tuples.last()) {
            seq![spec_wrapper_desc(lib, tuples.last())]
        } else {
            Seq::empty()
        })
    }
}

fn void_type() -> (r: NativeType)
    ensures
        r@ == spec_void_ty(),
{
    NativeType { base: TypeBase::Void, indirection: Indirection::Direct, is_const: false }
}

fn voidptr_type() -> (r: NativeType)
    ensures
        r@ == spec_voidptr_ty(),
{
    NativeType { base: TypeBase::Void, indirection: Indirection::Ptr, is_const: false }
}

fn make_member(
    class_name: &String,
    kind: MethodKind,
    name: String,
    is_slot: bool,
    args: Vec<Argument>,
) -> (r: NativeMethod)
    ensures
        r@ == spec_slot_member(
            class_name@,
            kind,
            name@,
            is_slot,
            Seq::new(args@.len(), |i: int| args@[i]@),
        ),
{
    let r = NativeMethod {
        name,
        membership: Option::Some(
            Membership {
                class_name: class_name.clone(),
                visibility: Visibility::Public,
                is_virtual: true,
                is_pure_virtual: false,
                is_const: false,
                is_static: false,
                is_signal: false,
                is_slot,
                kind,
            },
        ),
        return_type: void_type(),
        arguments: args,
        allows_variadic: false,
        declares_template_params: false,
        template_instantiation: false,
        is_ffi_whitelisted: false,
        is_fake_inherited: false,
        unit_name: String::from_str("slots"),
    };
    proof {
        assert(r@ =~~= spec_slot_member(
            class_name@,
            kind,
            r.name@,
            is_slot,
            Seq::new(r.arguments@.len(), |i: int| r.arguments@[i]@),
        ));
    }
    r
}

/// Translates a tuple's types; reports whether every one has an FFI image.
fn tuple_ffi(ts: &Vec<NativeType>) -> (r: Option<Vec<NativeType>>)
    ensures
        r is Some <==> spec_tuple_ok(tys_view(ts@)),
        r is Some ==> tys_view(r->0@) == spec_tuple_ffi(tys_view(ts@)),
{
    proof {
        lemma_tys_view(ts@);
    }
    let mut out: Vec<NativeType> = Vec::new();
    let mut i: usize = 0;
    #[verifier::loop_isolation(false)]
    while i < ts.len()
        invariant
            0 <= i <= ts.len(),
            out@.len() == i,
            forall|j: int| 0 <= j < i ==> spec_ffi_ok(tys_view(ts@)[j]),
            forall|j: int|
                0 <= j < i ==> (#[trigger] out@[j])@ == spec_ffi_val(tys_view(ts@)[j]),
        decreases ts.len() - i,
    {
        match ffi_type(&ts[i]) {
            Result::Ok(t) => {
                out.push(t);
            },
            Result::Err(_) => {
                proof {
                    assert(!spec_ffi_ok(tys_view(ts@)[i as int]));
                }
                return Option::None;
            },
        }
        i += 1;
    }
    proof {
        lemma_tys_view(out@);
        assert forall|k: int|
            0 <= k < out@.len() implies tys_view(out@)[k] == spec_tuple_ffi(tys_view(ts@))[k] by {
            assert(tys_view(out@)[k] == out@[k]@);
        }
        assert(tys_view(out@) =~= spec_tuple_ffi(tys_view(ts@)));
    }
    Option::Some(out)
}

/// Synthesizes, for every representable signal tuple, the bridge class's
/// five members and its descriptor, in tuple order.
pub fn synthesize(tuples: &Vec<Vec<NativeType>>, lib: &str) -> (r: (
    Vec<NativeMethod>,
    Vec<SlotWrapperDescriptor>,
))
    ensures
        methods_view(r.0@) == spec_synth_methods(tuples_view(tuples@), lib@),
        wrappers_view(r.1@) == spec_synth_wrappers(tuples_view(tuples@), lib@),
{
    let mut methods: Vec<NativeMethod> = Vec::new();
    let mut wrappers: Vec<SlotWrapperDescriptor> = Vec::new();
    let mut i: usize = 0;
    proof {
        assert(tuples_view(tuples@).take(0) =~= Seq::<Seq<TyV>>::empty());
        assert(methods_view(methods@) =~= Seq::<MethodV>::empty());
        assert(wrappers_view(wrappers@) =~= Seq::<SlotWrapperV>::empty());
    }
    #[verifier::loop_isolation(false)]
    while i < tuples.len()
        invariant
            0 <= i <= tuples.len(),
            methods_view(methods@) == spec_synth_methods(
                tuples_view(tuples@).take(i as int),
                lib@,
            ),
            wrappers_view(wrappers@) == spec_synth_wrappers(
                tuples_view(tuples@).take(i as int),
                lib@,
            ),
        decreases tuples.len() - i,
    {
        let ghost tsv = tuples_view(tuples@)[i as int];
        let tuple = &tuples[i];
        proof {
            assert(tsv == tys_view(tuple@));
            assert(tuples_view(tuples@).take(i + 1).drop_last() =~= tuples_view(tuples@).take(
                i as int,
            ));
            assert(tuples_view(tuples@).take(i + 1).last() == tsv);
        }
        match tuple_ffi(tuple) {
            Option::None => {
                proof {
                    assert(methods_view(methods@) =~= spec_synth_methods(
                        tuples_view(tuples@).take(i + 1),
                        lib@,
                    ));
                    assert(wrappers_view(wrappers@) =~= spec_synth_wrappers(
                        tuples_view(tuples@).take(i + 1),
                        lib@,
                    ));
                }
            },
            Option::Some(ffi_types) => {
                let ghost methods0 = methods_view(methods@);
                let ghost wrappers0 = wrappers_view(wrappers@);
                // the bridge class's name
                let mut class_name = String::from_str(lib);
                class_name.append("_SlotWrapper_");
                if tuple.len() == 0 {
                    class_name.append("no_args");
                } else {
                    let cap = join_captions(tuple, CaptionStyle::Full);
                    class_name.append(cap.as_str());
                }
                proof {
                    assert(class_name@ =~= spec_wrapper_class_name(lib@, tsv));
                }
                // the callback shape
                let mut cb_args: Vec<NativeType> = Vec::new();
                cb_args.push(voidptr_type());
                let mut k: usize = 0;
                #[verifier::loop_isolation(false)]
                while k < ffi_types.len()
                    invariant
                        0 <= k <= ffi_types.len(),
                        cb_args@.len() == k + 1,
                        cb_args@[0]@ == spec_voidptr_ty(),
                        forall|j: int| 1 <= j < k + 1 ==> (#[trigger] cb_args@[j])@ == ffi_types@[j - 1]@,
                    decreases ffi_types.len() - k,
                {
                    let c = clone_type(&ffi_types[k]);
                    cb_args.push(c);
                    k += 1;
                }
                let callback = FnPtrType {
                    return_type: Box::new(void_type()),
                    arg_types: cb_args,
                    variadic: false,
                };
                proof {
                    lemma_tys_view(callback.arg_types@);
                    lemma_tys_view(ffi_types@);
                    assert forall|j: int|
                        0 <= j < callback.arg_types@.len() implies tys_view(callback.arg_types@)[j]
                        == spec_callback_type(tsv).arg_types[j] by {
                        assert(tys_view(callback.arg_types@)[j] == callback.arg_types@[j]@);
                        if j > 0 {
                            assert(callback.arg_types@[j]@ == ffi_types@[j - 1]@);
                            assert(tys_view(ffi_types@)[j - 1] == ffi_types@[j - 1]@);
                        }
                    }
                    assert(tys_view(callback.arg_types@) =~= spec_callback_type(tsv).arg_types);
                    assert(fnptr_view(callback) =~~= spec_callback_type(tsv));
                }
                // constructor and destructor
                let ctor = make_member(
                    &class_name,
                    MethodKind::Constructor,
                    class_name.clone(),
                    false,
                    Vec::new(),
                );
                let dtor = make_member(
                    &class_name,
                    MethodKind::Destructor,
                    class_name.clone(),
                    false,
                    Vec::new(),
                );
                // the set method
                let mut set_args: Vec<Argument> = Vec::new();
                set_args.push(
                    Argument {
                        name: String::from_str("func"),
                        arg_type: NativeType {
                            base: TypeBase::FnPtr {
                                fun: FnPtrType {
                                    return_type: Box::new(void_type()),
                                    arg_types: clone_types(&callback.arg_types),
                                    variadic: false,
                                },
                            },
                            indirection: Indirection::Direct,
                            is_const: false,
                        },
                        has_default: false,
                    },
                );
                set_args.push(
                    Argument {
                        name: String::from_str("data"),
                        arg_type: voidptr_type(),
                        has_default: false,
                    },
                );
                proof {
                    assert(set_args@[0]@.ty =~~= spec_set_args(tsv)[0].ty);
                    assert(Seq::new(set_args@.len(), |j: int| set_args@[j]@) =~~= spec_set_args(
                        tsv,
                    ));
                }
                let set_method = make_member(
                    &class_name,
                    MethodKind::Regular,
                    String::from_str("set"),
                    false,
                    set_args,
                );
                // the dispatch method
                proof {
                    lemma_tys_view(tuple@);
                }
                let mut disp_args: Vec<Argument> = Vec::new();
                let mut k2: usize = 0;
                #[verifier::loop_isolation(false)]
                while k2 < tuple.len()
                    invariant
                        0 <= k2 <= tuple.len(),
                        disp_args@.len() == k2,
                        forall|j: int|
                            0 <= j < k2 ==> (#[trigger] disp_args@[j])@ == spec_dispatch_args(
                                tys_view(tuple@),
                            )[j],
                    decreases tuple.len() - k2,
                {
                    let mut nm = String::from_str("arg");
                    let num = decimal(k2);
                    nm.append(num.as_str());
                    let at = clone_type(&tuple[k2]);
                    disp_args.push(Argument { name: nm, arg_type: at, has_default: false });
                    proof {
                        lemma_tys_view(tuple@);
                        assert(disp_args@[k2 as int]@ =~~= spec_dispatch_args(
                            tys_view(tuple@),
                        )[k2 as int]);
                    }
                    k2 += 1;
                }
                proof {
                    assert(Seq::new(disp_args@.len(), |j: int| disp_args@[j]@)
                        =~= spec_dispatch_args(tsv));
                }
                let dispatch = make_member(
                    &class_name,
                    MethodKind::Regular,
                    String::from_str("custom_slot"),
                    true,
                    disp_args,
                );
                // the receiver identifier
                let mut receiver_id = String::from_str("custom_slot(");
                let disp_cap = join_captions(tuple, CaptionStyle::Full);
                receiver_id.append(disp_cap.as_str());
                receiver_id.append(")");
                proof {
                    assert(receiver_id@ =~= spec_receiver_id(tsv));
                }
                // the upcast
                let mut up_args: Vec<Argument> = Vec::new();
                up_args.push(
                    Argument {
                        name: String::from_str("ptr"),
                        arg_type: NativeType {
                            base: TypeBase::Class {
                                name: class_name.clone(),
                                template_args: Vec::new(),
                            },
                            indirection: Indirection::Ptr,
                            is_const: false,
                        },
                        has_default: false,
                    },
                );
                let upcast = NativeMethod {
                    name: String::from_str("static_cast"),
                    membership: Option::None,
                    return_type: NativeType {
                        base: TypeBase::Class {
                            name: String::from_str("QObject"),
                            template_args: Vec::new(),
                        },
                        indirection: Indirection::Ptr,
                        is_const: false,
                    },
                    arguments: up_args,
                    allows_variadic: false,
                    declares_template_params: false,
                    template_instantiation: false,
                    is_ffi_whitelisted: false,
                    is_fake_inherited: false,
                    unit_name: String::from_str("slots"),
                };
                proof {
                    let m = spec_upcast_method(lib@, tsv);
                    assert(upcast.name@ == m.name);
                    assert(upcast@.membership == m.membership);
                    assert(tys_view(Seq::<NativeType>::empty()) =~= Seq::<TyV>::empty());
                    assert(upcast.return_type@ =~~= m.return_type);
                    assert(upcast.arguments@[0]@ =~~= m.arguments[0]);
                    assert(upcast@.arguments =~~= m.arguments);
                    assert(upcast@ =~~= m);
                }
                // the descriptor
                let desc = SlotWrapperDescriptor {
                    class_name: class_name.clone(),
                    arg_types: ffi_types,
                    callback,
                    receiver_id,
                };
                proof {
                    assert(desc@ =~~= spec_wrapper_desc(lib@, tsv));
                }
                methods.push(ctor);
                methods.push(dtor);
                methods.push(set_method);
                methods.push(dispatch);
                methods.push(upcast);
                wrappers.push(desc);
                proof {
                    assert(methods_view(methods@) =~~= methods0 + spec_tuple_methods(lib@, tsv));
                    assert(methods_view(methods@) =~~= spec_synth_methods(
                        tuples_view(tuples@).take(i + 1),
                        lib@,
                    ));
                    assert(wrappers_view(wrappers@) =~~= spec_synth_wrappers(
                        tuples_view(tuples@).take(i + 1),
                        lib@,
                    ));
                }
            },
        }
        i += 1;
    }
    proof {
        assert(tuples_view(tuples@).take(tuples@.len() as int) =~= tuples_view(tuples@));
    }
    (methods, wrappers)
}

} // verus!
