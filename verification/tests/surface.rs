use ffi_surface::filter::{AbortListFilter, NameBlacklistFilter};
use ffi_surface::method::{ApiDatabase, Argument, Membership, MethodKind, NativeMethod, Visibility};
use ffi_surface::resolve::NamedFfiMethod;
use ffi_surface::types::{Indirection, NativeType, TypeBase};
use ffi_surface::{run, HeaderDescriptor, RunError};

fn void_type() -> NativeType {
    NativeType { base: TypeBase::Void, indirection: Indirection::Direct, is_const: false }
}

fn prim(name: &str) -> NativeType {
    NativeType {
        base: TypeBase::Primitive { name: name.to_string() },
        indirection: Indirection::Direct,
        is_const: false,
    }
}

fn class_val(name: &str) -> NativeType {
    NativeType {
        base: TypeBase::Class { name: name.to_string(), template_args: Vec::new() },
        indirection: Indirection::Direct,
        is_const: false,
    }
}

fn arg(name: &str, t: NativeType) -> Argument {
    Argument { name: name.to_string(), arg_type: t, has_default: false }
}

fn member(class: &str, kind: MethodKind) -> Membership {
    Membership {
        class_name: class.to_string(),
        visibility: Visibility::Public,
        is_virtual: false,
        is_pure_virtual: false,
        is_const: false,
        is_static: false,
        is_signal: false,
        is_slot: false,
        kind: kind,
    }
}

fn method(name: &str, class: Option<&str>, args: Vec<Argument>, unit: &str) -> NativeMethod {
    NativeMethod {
        name: name.to_string(),
        membership: class.map(|c| member(c, MethodKind::Regular)),
        return_type: void_type(),
        arguments: args,
        allows_variadic: false,
        declares_template_params: false,
        template_instantiation: false,
        is_ffi_whitelisted: false,
        is_fake_inherited: false,
        unit_name: unit.to_string(),
    }
}

fn empty_db() -> ApiDatabase {
    ApiDatabase {
        methods: Vec::new(),
        pure_virtual_classes: Vec::new(),
        heap_allocated_classes: Vec::new(),
        signal_argument_tuples: Vec::new(),
        include_files: Vec::new(),
    }
}

fn no_filters() -> Vec<NameBlacklistFilter> {
    Vec::new()
}

fn all_entries(headers: &[HeaderDescriptor]) -> Vec<&NamedFfiMethod> {
    headers.iter().flat_map(|h| h.methods.iter()).collect()
}

fn is_identifier(s: &str) -> bool {
    let mut chars = s.chars();
    match chars.next() {
        None => return false,
        Some(c) => {
            if !(c.is_ascii_alphabetic() || c == '_') {
                return false;
            }
        }
    }
    s.chars().all(|c| c.is_ascii_alphanumeric() || c == '_')
}

#[test]
fn overloads_take_least_verbose_captions() {
    let mut db = empty_db();
    db.include_files.push("a.h".to_string());
    db.methods.push(method("foo", Some("A"), vec![arg("x", prim("int"))], "a.h"));
    db.methods.push(method("foo", Some("A"), vec![arg("x", prim("double"))], "a.h"));
    let headers = run(&db, "mylib", &no_filters()).unwrap();
    assert_eq!(headers.len(), 1);
    let names: Vec<&str> = headers[0].methods.iter().map(|m| m.name.as_str()).collect();
    assert_eq!(names, vec!["mylib_A_foo_double", "mylib_A_foo_int"]);
}

#[test]
fn singleton_method_keeps_base_name() {
    let mut db = empty_db();
    db.include_files.push("point.h".to_string());
    db.methods.push(method("norm", Some("Point"), vec![arg("x", prim("int"))], "point.h"));
    let headers = run(&db, "geo", &no_filters()).unwrap();
    assert_eq!(headers.len(), 1);
    assert_eq!(headers[0].unit_base_name, "point");
    assert_eq!(headers[0].methods.len(), 1);
    assert_eq!(headers[0].methods[0].name, "geo_Point_norm");
}

#[test]
fn exported_names_are_identifiers_with_library_prefix() {
    let mut db = empty_db();
    db.include_files.push("w.h".to_string());
    db.methods.push(method("do it!", Some("Odd Class"), vec![], "w.h"));
    db.methods.push(method("plain", None, vec![arg("n", prim("unsigned long"))], "w.h"));
    let headers = run(&db, "lib", &no_filters()).unwrap();
    let entries = all_entries(&headers);
    assert_eq!(entries.len(), 2);
    for e in &entries {
        assert!(is_identifier(&e.name), "not an identifier: {}", e.name);
        assert!(e.name.starts_with("lib"), "not prefixed: {}", e.name);
    }
}

#[test]
fn exported_names_are_unique_across_a_run() {
    let mut db = empty_db();
    db.include_files.push("a.h".to_string());
    db.include_files.push("b.h".to_string());
    db.methods.push(method("f", Some("C"), vec![arg("x", prim("int"))], "a.h"));
    db.methods.push(method("f", Some("C"), vec![arg("x", prim("char"))], "a.h"));
    db.methods.push(method("g", Some("C"), vec![], "b.h"));
    let headers = run(&db, "u", &no_filters()).unwrap();
    let mut names: Vec<String> =
        all_entries(&headers).iter().map(|e| e.name.clone()).collect();
    let before = names.len();
    names.sort();
    names.dedup();
    assert_eq!(names.len(), before);
}

#[test]
fn identical_runs_give_identical_output() {
    let mut db = empty_db();
    db.include_files.push("z.h".to_string());
    db.include_files.push("a.h".to_string());
    db.methods.push(method("m", Some("K"), vec![arg("x", prim("int"))], "a.h"));
    db.methods.push(method("m", Some("K"), vec![arg("x", prim("bool"))], "a.h"));
    db.methods.push(method("q", None, vec![], "z.h"));
    let r1 = run(&db, "lib", &no_filters()).unwrap();
    let r2 = run(&db, "lib", &no_filters()).unwrap();
    let n1: Vec<(String, Vec<String>)> = r1
        .iter()
        .map(|h| {
            (h.unit_base_name.clone(), h.methods.iter().map(|m| m.name.clone()).collect())
        })
        .collect();
    let n2: Vec<(String, Vec<String>)> = r2
        .iter()
        .map(|h| {
            (h.unit_base_name.clone(), h.methods.iter().map(|m| m.name.clone()).collect())
        })
        .collect();
    assert_eq!(n1, n2);
}

#[test]
fn units_appear_in_sorted_order_and_methods_sorted_by_name() {
    let mut db = empty_db();
    db.include_files.push("zeta.h".to_string());
    db.include_files.push("alpha.h".to_string());
    db.methods.push(method("zz", Some("B"), vec![], "zeta.h"));
    db.methods.push(method("aa", Some("B"), vec![], "zeta.h"));
    db.methods.push(method("k", Some("A"), vec![], "alpha.h"));
    let headers = run(&db, "s", &no_filters()).unwrap();
    let units: Vec<&str> = headers.iter().map(|h| h.unit_base_name.as_str()).collect();
    assert_eq!(units, vec!["alpha", "zeta"]);
    let zeta_names: Vec<&str> = headers[1].methods.iter().map(|m| m.name.as_str()).collect();
    assert_eq!(zeta_names, vec!["s_B_aa", "s_B_zz"]);
}

#[test]
fn filter_rejected_method_never_appears() {
    let mut db = empty_db();
    db.include_files.push("a.h".to_string());
    db.methods.push(method("keep", Some("A"), vec![], "a.h"));
    db.methods.push(method("drop", Some("A"), vec![], "a.h"));
    let filters = vec![NameBlacklistFilter { names: vec!["drop".to_string()] }];
    let headers = run(&db, "lib", &filters).unwrap();
    let entries = all_entries(&headers);
    assert_eq!(entries.len(), 1);
    assert_eq!(entries[0].name, "lib_A_keep");
}

#[test]
fn no_constructor_for_class_with_pure_virtual_method() {
    let mut db = empty_db();
    db.include_files.push("a.h".to_string());
    let mut ctor = method("Abstract", Some("Abstract"), vec![], "a.h");
    if let Some(m) = ctor.membership.as_mut() {
        m.kind = MethodKind::Constructor;
    }
    db.methods.push(ctor);
    db.methods.push(method("observe", Some("Abstract"), vec![], "a.h"));
    db.pure_virtual_classes.push("Abstract".to_string());
    let headers = run(&db, "lib", &no_filters()).unwrap();
    let entries = all_entries(&headers);
    assert_eq!(entries.len(), 1);
    assert_eq!(entries[0].name, "lib_Abstract_observe");
}

#[test]
fn private_protected_and_signal_members_are_skipped() {
    let mut db = empty_db();
    db.include_files.push("a.h".to_string());
    let mut private = method("p", Some("A"), vec![], "a.h");
    private.membership.as_mut().unwrap().visibility = Visibility::Private;
    let mut protected = method("q", Some("A"), vec![], "a.h");
    protected.membership.as_mut().unwrap().visibility = Visibility::Protected;
    let mut signal = method("s", Some("A"), vec![], "a.h");
    signal.membership.as_mut().unwrap().is_signal = true;
    db.methods.push(private);
    db.methods.push(protected);
    db.methods.push(signal);
    db.methods.push(method("ok", Some("A"), vec![], "a.h"));
    let headers = run(&db, "lib", &no_filters()).unwrap();
    let entries = all_entries(&headers);
    assert_eq!(entries.len(), 1);
    assert_eq!(entries[0].name, "lib_A_ok");
}

#[test]
fn template_methods_are_skipped() {
    let mut db = empty_db();
    db.include_files.push("a.h".to_string());
    let mut tm = method("t", Some("A"), vec![], "a.h");
    tm.declares_template_params = true;
    let mut inst = method("u", Some("A"), vec![], "a.h");
    inst.template_instantiation = true;
    let mut tparam = method("v", Some("A"), vec![], "a.h");
    tparam.arguments.push(arg(
        "x",
        NativeType {
            base: TypeBase::TemplateParam,
            indirection: Indirection::Direct,
            is_const: false,
        },
    ));
    db.methods.push(tm);
    db.methods.push(inst);
    db.methods.push(tparam);
    db.methods.push(method("w", Some("A"), vec![], "a.h"));
    let headers = run(&db, "lib", &no_filters()).unwrap();
    let entries = all_entries(&headers);
    assert_eq!(entries.len(), 1);
    assert_eq!(entries[0].name, "lib_A_w");
}

#[test]
fn slot_synthesis_builds_one_bridge_class_per_tuple() {
    let mut db = empty_db();
    db.signal_argument_tuples.push(vec![prim("int")]);
    db.signal_argument_tuples.push(vec![prim("int"), prim("String")]);
    let headers = run(&db, "lib", &no_filters()).unwrap();
    assert_eq!(headers.len(), 1);
    let slots = &headers[0];
    assert_eq!(slots.unit_base_name, "slots");
    assert_eq!(slots.slot_wrappers.len(), 2);
    let c1 = &slots.slot_wrappers[0].class_name;
    let c2 = &slots.slot_wrappers[1].class_name;
    assert_eq!(c1, "lib_SlotWrapper_int");
    assert_eq!(c2, "lib_SlotWrapper_int_String");
    assert_ne!(c1, c2);
    // five synthesized members per bridge class
    for cn in [c1, c2] {
        let count = slots
            .methods
            .iter()
            .filter(|m| {
                m.method
                    .membership
                    .as_ref()
                    .map(|mem| &mem.class_name == cn)
                    .unwrap_or_else(|| {
                        m.method.arguments.iter().any(|a| match &a.arg_type.base {
                            TypeBase::Class { name, .. } => name == cn,
                            _ => false,
                        })
                    })
            })
            .count();
        assert_eq!(count, 5, "class {} should have 5 synthesized members", cn);
    }
    // no bridge class for an unobserved tuple
    assert!(slots
        .slot_wrappers
        .iter()
        .all(|w| w.class_name != "lib_SlotWrapper_no_args"));
}

#[test]
fn empty_tuple_is_named_no_args() {
    let mut db = empty_db();
    db.signal_argument_tuples.push(Vec::new());
    let headers = run(&db, "lib", &no_filters()).unwrap();
    assert_eq!(headers.len(), 1);
    assert_eq!(headers[0].slot_wrappers.len(), 1);
    assert_eq!(headers[0].slot_wrappers[0].class_name, "lib_SlotWrapper_no_args");
}

#[test]
fn exhausted_strategies_abort_the_run() {
    let mut db = empty_db();
    db.include_files.push("a.h".to_string());
    db.methods.push(method("same", Some("A"), vec![arg("x", prim("int"))], "a.h"));
    db.methods.push(method("same", Some("A"), vec![arg("y", prim("int"))], "a.h"));
    db.methods.push(method("same", Some("A"), vec![arg("z", prim("int"))], "a.h"));
    match run(&db, "lib", &no_filters()) {
        Err(RunError::NamingExhausted { colliding }) => {
            assert_eq!(colliding.len(), 3);
            assert!(colliding.iter().all(|m| m.name == "same"));
        }
        _ => panic!("expected NamingExhausted"),
    }
}

#[test]
fn empty_input_fails_with_empty_output() {
    let db = empty_db();
    match run(&db, "lib", &no_filters()) {
        Err(RunError::EmptyOutput) => {}
        _ => panic!("expected EmptyOutput"),
    }
}

#[test]
fn unit_with_no_eligible_methods_is_dropped() {
    let mut db = empty_db();
    db.include_files.push("a.h".to_string());
    db.include_files.push("b.h".to_string());
    let mut hidden = method("h", Some("A"), vec![], "a.h");
    hidden.membership.as_mut().unwrap().visibility = Visibility::Private;
    db.methods.push(hidden);
    db.methods.push(method("ok", Some("B"), vec![], "b.h"));
    let headers = run(&db, "lib", &no_filters()).unwrap();
    assert_eq!(headers.len(), 1);
    assert_eq!(headers[0].unit_base_name, "b");
}

#[test]
fn flags_container_class_is_skipped() {
    let mut db = empty_db();
    db.include_files.push("a.h".to_string());
    db.methods.push(method("value", Some("QFlags"), vec![], "a.h"));
    db.methods.push(method("ok", Some("A"), vec![], "a.h"));
    let headers = run(&db, "lib", &no_filters()).unwrap();
    let entries = all_entries(&headers);
    assert_eq!(entries.len(), 1);
    assert_eq!(entries[0].name, "lib_A_ok");
}

#[test]
fn fake_inherited_methods_are_skipped() {
    let mut db = empty_db();
    db.include_files.push("a.h".to_string());
    let mut fake = method("f", Some("A"), vec![], "a.h");
    fake.is_fake_inherited = true;
    db.methods.push(fake);
    db.methods.push(method("real", Some("A"), vec![], "a.h"));
    let headers = run(&db, "lib", &no_filters()).unwrap();
    let entries = all_entries(&headers);
    assert_eq!(entries.len(), 1);
    assert_eq!(entries[0].name, "lib_A_real");
}

#[test]
fn constructor_and_destructor_get_their_suffixes() {
    let mut db = empty_db();
    db.include_files.push("a.h".to_string());
    let mut ctor = method("A", Some("A"), vec![], "a.h");
    ctor.membership.as_mut().unwrap().kind = MethodKind::Constructor;
    let mut dtor = method("A", Some("A"), vec![], "a.h");
    dtor.membership.as_mut().unwrap().kind = MethodKind::Destructor;
    db.methods.push(ctor);
    db.methods.push(dtor);
    let headers = run(&db, "lib", &no_filters()).unwrap();
    let names: Vec<&str> = headers[0].methods.iter().map(|m| m.name.as_str()).collect();
    assert_eq!(names, vec!["lib_A_constructor", "lib_A_destructor"]);
}

#[test]
fn operator_methods_are_demangled() {
    let mut db = empty_db();
    db.include_files.push("a.h".to_string());
    let mut op = method("+", Some("A"), vec![arg("o", class_val("A"))], "a.h");
    op.membership.as_mut().unwrap().kind = MethodKind::Operator;
    db.methods.push(op);
    let headers = run(&db, "lib", &no_filters()).unwrap();
    assert_eq!(headers[0].methods[0].name, "lib_A_operator_add");
}

#[test]
fn variadic_method_is_skipped_as_unrepresentable() {
    let mut db = empty_db();
    db.include_files.push("a.h".to_string());
    let mut variadic = method("v", Some("A"), vec![], "a.h");
    variadic.allows_variadic = true;
    db.methods.push(variadic);
    db.methods.push(method("ok", Some("A"), vec![], "a.h"));
    let headers = run(&db, "lib", &no_filters()).unwrap();
    let entries = all_entries(&headers);
    assert_eq!(entries.len(), 1);
    assert_eq!(entries[0].name, "lib_A_ok");
}

#[test]
fn aborting_filter_fails_the_whole_run() {
    let mut db = empty_db();
    db.include_files.push("a.h".to_string());
    db.methods.push(method("anything", Some("A"), vec![], "a.h"));
    let filters = vec![AbortListFilter { names: vec!["anything".to_string()] }];
    match run(&db, "lib", &filters) {
        Err(RunError::PolicyFailure { method_name }) => {
            assert_eq!(method_name, "anything");
        }
        _ => panic!("expected PolicyFailure"),
    }
}

#[test]
fn by_value_class_crossings_become_pointers_with_a_place_tag() {
    let mut db = empty_db();
    db.include_files.push("a.h".to_string());
    db.methods.push(method("take", Some("A"), vec![arg("p", class_val("P"))], "a.h"));
    db.heap_allocated_classes.push("A".to_string());
    let headers = run(&db, "lib", &no_filters()).unwrap();
    let entry = &headers[0].methods[0];
    assert_eq!(entry.sig.arg_types.len(), 1);
    assert!(matches!(entry.sig.arg_types[0].indirection, Indirection::Ptr));
    assert!(matches!(entry.sig.place, ffi_surface::types::AllocationPlace::Heap));
}

#[test]
fn duplicate_unit_names_are_processed_once() {
    let mut db = empty_db();
    db.include_files.push("a.h".to_string());
    db.include_files.push("a.h".to_string());
    db.methods.push(method("once", Some("A"), vec![], "a.h"));
    let headers = run(&db, "lib", &no_filters()).unwrap();
    assert_eq!(headers.len(), 1);
    assert_eq!(headers[0].methods.len(), 1);
}

#[test]
fn hostile_names_are_sanitized_exactly() {
    let mut db = empty_db();
    db.include_files.push("w.h".to_string());
    db.methods.push(method("do it!", Some("Odd Class"), vec![], "w.h"));
    let headers = run(&db, "lib", &no_filters()).unwrap();
    assert_eq!(headers[0].methods[0].name, "lib_Odd_Class_do_it_");
}

#[test]
fn unit_name_without_extension_is_kept_whole() {
    let mut db = empty_db();
    db.include_files.push("plain".to_string());
    db.methods.push(method("f", Some("A"), vec![], "plain"));
    let headers = run(&db, "lib", &no_filters()).unwrap();
    assert_eq!(headers[0].unit_base_name, "plain");
}

#[test]
fn free_functions_carry_their_unit_in_the_base_name() {
    let mut db = empty_db();
    db.include_files.push("util.h".to_string());
    db.methods.push(method("helper", None, vec![], "util.h"));
    let headers = run(&db, "lib", &no_filters()).unwrap();
    assert_eq!(headers[0].methods[0].name, "lib_util_G_helper");
}

#[test]
fn const_overload_needs_the_most_verbose_strategy() {
    let mut db = empty_db();
    db.include_files.push("a.h".to_string());
    let plain = method("at", Some("V"), vec![arg("i", prim("int"))], "a.h");
    let mut constant = method("at", Some("V"), vec![arg("i", prim("int"))], "a.h");
    constant.membership.as_mut().unwrap().is_const = true;
    db.methods.push(plain);
    db.methods.push(constant);
    let headers = run(&db, "lib", &no_filters()).unwrap();
    let names: Vec<&str> = headers[0].methods.iter().map(|m| m.name.as_str()).collect();
    assert_eq!(names, vec!["lib_V_at_const_int", "lib_V_at_int"]);
}
