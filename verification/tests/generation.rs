use ethbindgen::artifact::Mutability;
use ethbindgen::assembler::{GeneratedUnit, Module};
use ethbindgen::binding::binding_for;
use ethbindgen::errors::{BindError, ParseDetail};
use ethbindgen::generate_module;
use ethbindgen::mapper::parse_type;
use ethbindgen::raw::RawValue;
use ethbindgen::resolver::{sanitize, signature_bytes};
use ethbindgen::types::{canon_bytes, Parameter, PrimKind, SolidityType};

fn b(s: &str) -> Vec<u8> {
    s.as_bytes().to_vec()
}

fn obj(fields: Vec<(&str, RawValue)>) -> RawValue {
    RawValue::Obj(fields.into_iter().map(|(k, v)| (b(k), v)).collect())
}

fn param(name: &str, ty: &str) -> RawValue {
    obj(vec![("name", RawValue::Str(b(name))), ("type", RawValue::Str(b(ty)))])
}

fn indexed_param(name: &str, ty: &str, indexed: bool) -> RawValue {
    obj(vec![
        ("name", RawValue::Str(b(name))),
        ("type", RawValue::Str(b(ty))),
        ("indexed", RawValue::Bool(indexed)),
    ])
}

fn function(name: &str, inputs: Vec<RawValue>, mutability: Option<&str>) -> RawValue {
    let mut fields = vec![
        ("type", RawValue::Str(b("function"))),
        ("name", RawValue::Str(b(name))),
        ("inputs", RawValue::Arr(inputs)),
    ];
    if let Some(m) = mutability {
        fields.push(("stateMutability", RawValue::Str(b(m))));
    }
    obj(fields)
}

fn event(name: &str, inputs: Vec<RawValue>) -> RawValue {
    obj(vec![
        ("type", RawValue::Str(b("event"))),
        ("name", RawValue::Str(b(name))),
        ("inputs", RawValue::Arr(inputs)),
    ])
}

fn artifact(abi: Vec<RawValue>) -> RawValue {
    obj(vec![
        ("contractName", RawValue::Str(b("Sample"))),
        ("abi", RawValue::Arr(abi)),
    ])
}

fn parse_ok(ty: &str) -> SolidityType {
    let comps: Vec<RawValue> = Vec::new();
    parse_type(&b(ty), &comps).expect("type should parse")
}

fn canon_of(ty: &str) -> Vec<u8> {
    canon_bytes(&parse_ok(ty))
}

#[test]
fn parses_simple_primitives() {
    assert_eq!(canon_of("uint256"), b("uint256"));
    assert_eq!(canon_of("uint8"), b("uint8"));
    assert_eq!(canon_of("int128"), b("int128"));
    assert_eq!(canon_of("address"), b("address"));
    assert_eq!(canon_of("bool"), b("bool"));
    assert_eq!(canon_of("bytes32"), b("bytes32"));
    assert_eq!(canon_of("bytes"), b("bytes"));
    assert_eq!(canon_of("string"), b("string"));
}

#[test]
fn omitted_width_means_256() {
    assert_eq!(canon_of("uint"), b("uint256"));
    assert_eq!(canon_of("int"), b("int256"));
}

#[test]
fn parses_array_suffixes_innermost_first() {
    assert_eq!(canon_of("uint256[2][]"), b("uint256[2][]"));
    assert_eq!(canon_of("address[]"), b("address[]"));
    let t = parse_ok("uint256[2][]");
    match t {
        SolidityType::DynamicArray { elem } => match *elem {
            SolidityType::FixedArray { elem: inner, len } => {
                assert_eq!(len, 2);
                match *inner {
                    SolidityType::Primitive { kind, bits } => {
                        assert!(matches!(kind, PrimKind::Uint));
                        assert_eq!(bits, 256);
                    }
                    _ => panic!("inner element should be uint256"),
                }
            }
            _ => panic!("outer element should be a fixed array"),
        },
        _ => panic!("should be a dynamic array"),
    }
}

#[test]
fn parses_tuple_with_components() {
    let comps = vec![param("a", "uint256"), param("b", "address")];
    let t = parse_type(&b("tuple"), &comps).expect("tuple should parse");
    assert_eq!(canon_bytes(&t), b("(uint256,address)"));
}

#[test]
fn canonical_spelling_reparses_to_same_type() {
    for ty in ["uint", "uint256[2][]", "bytes32", "address[]", "int8[3]"] {
        let canon = canon_of(ty);
        let comps: Vec<RawValue> = Vec::new();
        let again = parse_type(&canon, &comps).expect("canonical form should parse");
        assert_eq!(canon_bytes(&again), canon);
    }
}

#[test]
fn tuple_arrays_parse_with_components() {
    let comps = vec![param("a", "uint256")];
    let t = parse_type(&b("tuple[2][]"), &comps).expect("tuple array should parse");
    assert_eq!(canon_bytes(&t), b("(uint256)[2][]"));
}

#[test]
fn rejects_malformed_type_strings() {
    for bad in ["uint9", "uint300", "bytes33", "bytes0", "uint08", "uint256[", "metadata", "uint256[2", "address[]x"] {
        let comps: Vec<RawValue> = Vec::new();
        match parse_type(&b(bad), &comps) {
            Err(BindError::Unsupported(u)) => assert_eq!(u.type_string, b(bad)),
            _ => panic!("{bad} should be rejected as unsupported"),
        }
    }
}

#[test]
fn rejection_aborts_generation() {
    let a = artifact(vec![function("f", vec![param("x", "uint9")], None)]);
    match generate_module(&a) {
        Err(BindError::Unsupported(u)) => assert_eq!(u.type_string, b("uint9")),
        _ => panic!("artifact with uint9 parameter must not produce a module"),
    }
}

#[test]
fn signature_ignores_parameter_names() {
    let ps = vec![
        Parameter { name: b("to"), solidity_type: parse_ok("address"), indexed: false },
        Parameter { name: b("amount"), solidity_type: parse_ok("uint256"), indexed: false },
    ];
    assert_eq!(signature_bytes(&b("transfer"), &ps), b("transfer(address,uint256)"));
}

#[test]
fn sanitize_escapes_deterministically() {
    assert_eq!(sanitize(&b("transfer")), b("transfer"));
    assert_eq!(sanitize(&b("hello-world")), b("hello_world"));
    assert_eq!(sanitize(&b("3d")), b("_3d"));
    assert_eq!(sanitize(&b("")), b("_"));
    assert_eq!(sanitize(&b("type")), b("type_"));
    assert_eq!(sanitize(&b("fn")), b("fn_"));
}

fn method_identifiers(m: &Module) -> Vec<Vec<u8>> {
    m.units
        .iter()
        .filter_map(|u| match u {
            GeneratedUnit::Method { identifier, .. } => Some(identifier.clone()),
            _ => None,
        })
        .collect()
}

#[test]
fn overloads_get_distinct_identifiers() {
    let a = artifact(vec![
        function("foo", vec![param("x", "uint256")], None),
        function("foo", vec![param("x", "address")], None),
    ]);
    let m = generate_module(&a).expect("overloads are not duplicates");
    let ids = method_identifiers(&m);
    assert_eq!(ids, vec![b("foo_0"), b("foo_1")]);
}

#[test]
fn true_duplicates_are_rejected() {
    let a = artifact(vec![
        function("foo", vec![param("x", "uint256")], None),
        function("foo", vec![param("y", "uint256")], None),
    ]);
    match generate_module(&a) {
        Err(BindError::Collision(c)) => assert_eq!(c.signature, b("foo(uint256)")),
        _ => panic!("identical signatures must collide"),
    }
}

#[test]
fn cross_group_collisions_are_freshened() {
    let a = artifact(vec![
        function("foo", vec![param("x", "uint256")], None),
        function("foo", vec![param("x", "address")], None),
        function("foo_0", vec![], None),
    ]);
    let m = generate_module(&a).expect("no duplicate signatures here");
    let ids = method_identifiers(&m);
    assert_eq!(ids.len(), 3);
    for i in 0..ids.len() {
        for j in 0..ids.len() {
            if i != j {
                assert_ne!(ids[i], ids[j], "identifiers must be pairwise distinct");
            }
        }
    }
}

#[test]
fn event_parameters_partition_into_topics_and_data() {
    let a = artifact(vec![event(
        "Transfer",
        vec![
            indexed_param("from", "address", true),
            indexed_param("to", "address", true),
            indexed_param("value", "uint256", false),
        ],
    )]);
    let m = generate_module(&a).expect("event artifact should generate");
    let ev = m
        .units
        .iter()
        .find_map(|u| match u {
            GeneratedUnit::EventType { identifier, topic_fields, data_fields } => {
                Some((identifier.clone(), topic_fields, data_fields))
            }
            _ => None,
        })
        .expect("one event type unit");
    assert_eq!(ev.0, b("Transfer"));
    let topics: Vec<&Vec<u8>> = ev.1.iter().map(|p| &p.name).collect();
    let data: Vec<&Vec<u8>> = ev.2.iter().map(|p| &p.name).collect();
    assert_eq!(topics, vec![&b("from"), &b("to")]);
    assert_eq!(data, vec![&b("value")]);
}

#[test]
fn empty_abi_yields_constructor_and_deployment_only() {
    let a = artifact(vec![]);
    let m = generate_module(&a).expect("empty interface still generates");
    assert_eq!(m.units.len(), 2);
    match &m.units[0] {
        GeneratedUnit::ConstructorFn { inputs } => assert!(inputs.is_empty()),
        _ => panic!("first unit must be the constructor"),
    }
    assert!(matches!(&m.units[1], GeneratedUnit::Deployment { .. }));
    assert_eq!(m.imports.len(), 1);
}

#[test]
fn missing_constructor_is_synthesized_with_no_inputs() {
    let a = artifact(vec![function("get", vec![], Some("view"))]);
    let m = generate_module(&a).expect("artifact should generate");
    match &m.units[0] {
        GeneratedUnit::ConstructorFn { inputs } => assert!(inputs.is_empty()),
        _ => panic!("first unit must be the constructor"),
    }
}

#[test]
fn declared_constructor_keeps_its_inputs() {
    let ctor = obj(vec![
        ("type", RawValue::Str(b("constructor"))),
        ("inputs", RawValue::Arr(vec![param("owner", "address")])),
    ]);
    let a = artifact(vec![ctor]);
    let m = generate_module(&a).expect("constructor artifact should generate");
    match &m.units[0] {
        GeneratedUnit::ConstructorFn { inputs } => {
            assert_eq!(inputs.len(), 1);
            assert_eq!(inputs[0].name, b("owner"));
        }
        _ => panic!("first unit must be the constructor"),
    }
}

#[test]
fn mutability_selects_runtime_imports() {
    let a = artifact(vec![
        function("get", vec![], Some("view")),
        function("set", vec![param("x", "uint256")], Some("nonpayable")),
        event("Changed", vec![indexed_param("x", "uint256", false)]),
    ]);
    let m = generate_module(&a).expect("artifact should generate");
    assert_eq!(m.imports.len(), 4);
    let muts: Vec<Mutability> = m
        .units
        .iter()
        .filter_map(|u| match u {
            GeneratedUnit::Method { mutability, .. } => Some(*mutability),
            _ => None,
        })
        .collect();
    assert_eq!(muts, vec![Mutability::View, Mutability::Nonpayable]);
}

#[test]
fn unknown_mutability_is_reported() {
    let a = artifact(vec![function("f", vec![], Some("static"))]);
    match generate_module(&a) {
        Err(BindError::Parse(p)) => {
            assert_eq!(p.detail, ParseDetail::UnknownMutability);
            assert_eq!(p.entry, Some(0));
            assert_eq!(p.field, b("stateMutability"));
        }
        _ => panic!("unknown mutability keyword must be a parse error"),
    }
}

#[test]
fn missing_abi_is_reported() {
    let a = obj(vec![("contractName", RawValue::Str(b("Sample")))]);
    match generate_module(&a) {
        Err(BindError::Parse(p)) => {
            assert_eq!(p.detail, ParseDetail::Missing);
            assert_eq!(p.field, b("abi"));
            assert_eq!(p.entry, None);
        }
        _ => panic!("an artifact without an interface must be rejected"),
    }
}

#[test]
fn structural_errors_carry_the_entry_index() {
    let a = artifact(vec![
        function("ok", vec![], None),
        obj(vec![("type", RawValue::Str(b("function")))]),
    ]);
    match generate_module(&a) {
        Err(BindError::Parse(p)) => {
            assert_eq!(p.entry, Some(1));
            assert_eq!(p.field, b("name"));
            assert_eq!(p.detail, ParseDetail::Missing);
        }
        _ => panic!("the second entry is missing its name"),
    }
}

#[test]
fn unknown_entry_kind_is_reported() {
    let a = artifact(vec![obj(vec![("type", RawValue::Str(b("error")))])]);
    match generate_module(&a) {
        Err(BindError::Parse(p)) => assert_eq!(p.detail, ParseDetail::UnknownEntryKind),
        _ => panic!("an unrecognized discriminator must be rejected"),
    }
}

#[test]
fn fallback_and_receive_generate_no_units() {
    let a = artifact(vec![
        obj(vec![("type", RawValue::Str(b("fallback")))]),
        obj(vec![("type", RawValue::Str(b("receive")))]),
    ]);
    let m = generate_module(&a).expect("fallback and receive are accepted");
    assert_eq!(m.units.len(), 2);
}

#[test]
fn integer_bindings_are_lossless() {
    let cases = [
        ("uint8", "u8"),
        ("uint16", "u16"),
        ("uint24", "u32"),
        ("uint32", "u32"),
        ("uint40", "u64"),
        ("uint64", "u64"),
        ("uint128", "u128"),
        ("uint136", "U256"),
        ("uint256", "U256"),
        ("int8", "i8"),
        ("int48", "i64"),
        ("int256", "I256"),
    ];
    for (wire, host) in cases {
        let bnd = binding_for(&parse_ok(wire));
        assert_eq!(bnd.host_type, b(host), "host type for {wire}");
        assert_eq!(bnd.codec, canon_of(wire), "codec for {wire}");
    }
}

#[test]
fn composite_bindings_compose() {
    assert_eq!(binding_for(&parse_ok("bytes32")).host_type, b("[u8; 32]"));
    assert_eq!(binding_for(&parse_ok("address[]")).host_type, b("Vec<Address>"));
    assert_eq!(binding_for(&parse_ok("uint8[4]")).host_type, b("[u8; 4]"));
    assert_eq!(binding_for(&parse_ok("bytes")).host_type, b("Vec<u8>"));
    assert_eq!(binding_for(&parse_ok("string")).host_type, b("String"));
    let comps = vec![param("a", "uint8"), param("b", "bool")];
    let t = parse_type(&b("tuple"), &comps).expect("tuple should parse");
    assert_eq!(binding_for(&t).host_type, b("(u8, bool)"));
}

#[test]
fn bytecode_link_placeholders_are_reported() {
    let mut bc = String::from("6080");
    bc.push_str("__MyLib");
    for _ in 0..33 {
        bc.push('_');
    }
    bc.push_str("6001");
    let a = obj(vec![
        ("contractName", RawValue::Str(b("Sample"))),
        ("abi", RawValue::Arr(vec![])),
        ("bytecode", RawValue::Str(b(&bc))),
    ]);
    let m = generate_module(&a).expect("artifact with bytecode should generate");
    let dep = m
        .units
        .iter()
        .find_map(|u| match u {
            GeneratedUnit::Deployment { bytecode, link_refs } => Some((bytecode, link_refs)),
            _ => None,
        })
        .expect("one deployment unit");
    assert_eq!(dep.0, &b(&bc));
    assert_eq!(dep.1.len(), 1);
    assert_eq!(dep.1[0].name, b("MyLib"));
    assert_eq!(dep.1[0].offset, 4);
}

#[test]
fn tuple_parameters_flow_through_the_pipeline() {
    let tup = obj(vec![
        ("name", RawValue::Str(b("pair"))),
        ("type", RawValue::Str(b("tuple"))),
        (
            "components",
            RawValue::Arr(vec![param("lo", "uint8"), param("hi", "bool")]),
        ),
    ]);
    let a = artifact(vec![function("store", vec![tup], Some("nonpayable"))]);
    let m = generate_module(&a).expect("tuple parameter should generate");
    match &m.units[1] {
        GeneratedUnit::Method { identifier, inputs, .. } => {
            assert_eq!(identifier, &b("store"));
            assert_eq!(inputs.len(), 1);
            assert_eq!(inputs[0].name, b("pair"));
            assert_eq!(inputs[0].binding.codec, b("(uint8,bool)"));
            assert_eq!(inputs[0].binding.host_type, b("(u8, bool)"));
        }
        _ => panic!("second unit should be the method"),
    }
}

#[test]
fn networks_become_deployments() {
    let net = obj(vec![("address", RawValue::Str(b("0xdeadbeef")))]);
    let a = obj(vec![
        ("contractName", RawValue::Str(b("Sample"))),
        ("abi", RawValue::Arr(vec![])),
        ("networks", obj(vec![("1", net)])),
    ]);
    let loaded = ethbindgen::artifact::load_artifact(&a).expect("artifact should load");
    assert_eq!(loaded.name, b("Sample"));
    assert_eq!(loaded.deployments.len(), 1);
    assert_eq!(loaded.deployments[0].0, b("1"));
    assert_eq!(loaded.deployments[0].1, b("0xdeadbeef"));
}

#[test]
fn unknown_fields_are_ignored() {
    let a = obj(vec![
        ("contractName", RawValue::Str(b("Sample"))),
        ("abi", RawValue::Arr(vec![])),
        ("compiler", obj(vec![("version", RawValue::Str(b("0.8.0")))])),
        ("schemaVersion", RawValue::Num(b("3"))),
    ]);
    assert!(generate_module(&a).is_ok());
}

#[test]
fn generation_is_deterministic() {
    let build = || {
        artifact(vec![
            function("foo", vec![param("x", "uint256")], Some("payable")),
            function("foo", vec![param("x", "address")], None),
            event("E", vec![indexed_param("a", "bytes32", true)]),
        ])
    };
    let m1 = generate_module(&build()).expect("should generate");
    let m2 = generate_module(&build()).expect("should generate");
    assert_eq!(m1.units.len(), m2.units.len());
    assert_eq!(m1.imports, m2.imports);
    assert_eq!(method_identifiers(&m1), method_identifiers(&m2));
}

#[test]
fn builder_carries_settings() {
    let builder = ethbindgen::builder::Builder::new(String::from("build/Sample.json"));
    assert_eq!(builder.args.artifact_path, "build/Sample.json");
    assert_eq!(builder.args.runtime_crate_name, "ethcontract");
    let renamed = builder.with_runtime_crate_name(String::from("my_runtime"));
    assert_eq!(renamed.args.runtime_crate_name, "my_runtime");
    assert_eq!(renamed.args.artifact_path, "build/Sample.json");
}
