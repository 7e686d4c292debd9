use cpu_template::doc::DocField;
use cpu_template::schema::decode_template;
use cpu_template::schema::encode_template;
use cpu_template::CpuidLeafModifier;
use cpu_template::CpuidRegister;
use cpu_template::CpuidRegisterModifier;
use cpu_template::CustomCpuTemplate;
use cpu_template::DocValue;
use cpu_template::KvmCpuidFlags;
use cpu_template::RegisterModifier;
use cpu_template::RegisterValueFilter;

fn txt(s: &str) -> DocValue {
    DocValue::Text(s.to_string())
}

fn field(name: &str, value: DocValue) -> DocField {
    DocField { name: name.to_string(), value }
}

fn obj(fields: Vec<DocField>) -> DocValue {
    DocValue::Object(fields)
}

fn reg_mod_doc(register: &str, bitmap: &str) -> DocValue {
    obj(vec![field("register", txt(register)), field("bitmap", txt(bitmap))])
}

fn leaf_mod_doc(leaf: &str, subleaf: &str, flags: u64, modifiers: Vec<DocValue>) -> DocValue {
    obj(vec![
        field("leaf", txt(leaf)),
        field("subleaf", txt(subleaf)),
        field("flags", DocValue::Number(flags)),
        field("modifiers", DocValue::Array(modifiers)),
    ])
}

fn msr_mod_doc(addr: &str, bitmap: &str) -> DocValue {
    obj(vec![field("addr", txt(addr)), field("bitmap", txt(bitmap))])
}

fn build_test_template() -> CustomCpuTemplate {
    let fv32 = RegisterValueFilter { filter: 0b1110 << 28, value: 0b0100 << 28 };
    let fv64 = RegisterValueFilter { filter: 0xffff_0000_0000_00ff, value: 0x1234_0000_0000_0042 };
    CustomCpuTemplate {
        cpuid_modifiers: vec![CpuidLeafModifier {
            leaf: 0x3,
            subleaf: 0x2,
            flags: KvmCpuidFlags(1),
            modifiers: vec![
                CpuidRegisterModifier { register: CpuidRegister::Eax, bitmap: fv32 },
                CpuidRegisterModifier { register: CpuidRegister::Edx, bitmap: fv32 },
            ],
        }],
        msr_modifiers: vec![
            RegisterModifier { addr: 0x9999, bitmap: fv64 },
            RegisterModifier { addr: 0x8000, bitmap: fv64 },
        ],
    }
}

#[test]
fn test_malformed_json() {
    // Misspelled register name
    let doc = obj(vec![field(
        "cpuid_modifiers",
        DocValue::Array(vec![leaf_mod_doc(
            "0x80000001",
            "0b000111",
            0,
            vec![reg_mod_doc("ekx", "0bx00100xxx1xxxxxxxxxxxxxxxxxxxxx1")],
        )]),
    )]);
    let err = decode_template(&doc).unwrap_err();
    assert!(err
        .message()
        .contains("Invalid CPUID register. Must be one of [eax, ebx, ecx, edx]"));

    // Malformed MSR register address
    let doc = obj(vec![field(
        "msr_modifiers",
        DocValue::Array(vec![msr_mod_doc("0jj0", "0bx00100xxx1xxxx00xxx1xxxxxxxxxxx1")]),
    )]);
    let err = decode_template(&doc).unwrap_err();
    assert!(err
        .message()
        .contains("Failed to parse string [0jj0] as a number for CPU template -"));

    // Malformed CPUID leaf address
    let doc = obj(vec![field(
        "cpuid_modifiers",
        DocValue::Array(vec![leaf_mod_doc(
            "k",
            "0b000111",
            0,
            vec![reg_mod_doc("eax", "0bx00100xxx1xxxxxxxxxxxxxxxxxxxxx1")],
        )]),
    )]);
    let err = decode_template(&doc).unwrap_err();
    assert!(err
        .message()
        .contains("Failed to parse string [k] as a decimal number for CPU template"));

    // Malformed 64-bit bitmap - `?` characters
    let doc = obj(vec![field(
        "msr_modifiers",
        DocValue::Array(vec![msr_mod_doc("200", "0bx0?100x?x1xxxx00xxx1xxxxxxxxxxx1")]),
    )]);
    let err = decode_template(&doc).unwrap_err();
    assert!(err
        .message()
        .contains("Failed to parse string [x0?100x?x1xxxx00xxx1xxxxxxxxxxx1] as a bitmap"));

    // Malformed 64-bit bitmap - a stray digit
    let doc = obj(vec![field(
        "msr_modifiers",
        DocValue::Array(vec![msr_mod_doc("200", "0bx00100x0x1xxxx05xxx1xxxxxxxxxxx1")]),
    )]);
    let err = decode_template(&doc).unwrap_err();
    assert!(err
        .message()
        .contains("Failed to parse string [x00100x0x1xxxx05xxx1xxxxxxxxxxx1] as a bitmap"));
}

#[test]
fn test_deserialization_lifecycle() {
    let leaf_doc = |leaf: &str| {
        leaf_mod_doc(leaf, "0x0", 0, vec![reg_mod_doc(
            "eax",
            "0bx00100xxx1xxxxxxxxxxxxxxxxxxxxx1",
        )])
    };
    let msr_doc =
        |addr: &str| msr_mod_doc(addr, "0bx00100xxx1xxxx00xxx1xxxxxxxxxxx1xxxxxxxxxxxxxxxxxxxxxxxxxxxxxxxx");
    let doc = obj(vec![
        field(
            "cpuid_modifiers",
            DocValue::Array(vec![
                leaf_doc("0x0"),
                leaf_doc("0x1"),
                leaf_doc("0x2"),
                leaf_doc("0x3"),
                leaf_doc("0x80000001"),
            ]),
        ),
        field(
            "msr_modifiers",
            DocValue::Array(vec![
                msr_doc("0x0"),
                msr_doc("0x1"),
                msr_doc("0x2"),
                msr_doc("0x3"),
            ]),
        ),
    ]);
    let cpu_template = decode_template(&doc).expect("Failed to deserialize custom CPU template.");
    assert_eq!(5, cpu_template.cpuid_modifiers.len());
    assert_eq!(4, cpu_template.msr_modifiers.len());
}

#[test]
fn test_serialization_lifecycle() {
    let template = build_test_template();
    let encoded = encode_template(&template);
    let decoded = decode_template(&encoded).unwrap();
    assert_eq!(template, decoded);
}

#[test]
fn test_bitmap_width() {
    let mut cpuid_checked = false;
    let mut msr_checked = false;

    let template = build_test_template();
    let encoded = encode_template(&template);

    let DocValue::Object(pairs) = &encoded else {
        panic!("template did not encode to an object")
    };

    for pair in pairs {
        if pair.name == "cpuid_modifiers" {
            let DocValue::Array(leaves) = &pair.value else { panic!() };
            let DocValue::Object(leaf_fields) = &leaves[0] else { panic!() };
            for lf in leaf_fields {
                if lf.name == "modifiers" {
                    let DocValue::Array(mods) = &lf.value else { panic!() };
                    let DocValue::Object(reg_fields) = &mods[0] else { panic!() };
                    for rf in reg_fields {
                        if rf.name == "bitmap" {
                            let DocValue::Text(bitmap) = &rf.value else { panic!() };
                            // 32-bit width behind a "0b" prefix
                            assert_eq!(bitmap.len(), 34);
                            cpuid_checked = true;
                        }
                    }
                }
            }
        }
        if pair.name == "msr_modifiers" {
            let DocValue::Array(msrs) = &pair.value else { panic!() };
            let DocValue::Object(msr_fields) = &msrs[0] else { panic!() };
            for mf in msr_fields {
                if mf.name == "bitmap" {
                    let DocValue::Text(bitmap) = &mf.value else { panic!() };
                    // 64-bit width behind a "0b" prefix
                    assert_eq!(bitmap.len(), 66);
                    assert!(bitmap.starts_with("0b"));
                    msr_checked = true;
                }
            }
        }
    }

    assert!(cpuid_checked, "CPUID bitmap width in a template was not tested.");
    assert!(msr_checked, "MSR bitmap width in a template was not tested.");
}

#[test]
fn empty_document_decodes_to_empty_template() {
    let t = decode_template(&obj(vec![])).unwrap();
    assert!(t.cpuid_modifiers.is_empty());
    assert!(t.msr_modifiers.is_empty());
    assert_eq!(t, CustomCpuTemplate::default());
}

#[test]
fn unknown_duplicate_and_missing_fields_are_rejected() {
    let err = decode_template(&obj(vec![field("cpuid_modifierz", DocValue::Array(vec![]))]))
        .unwrap_err();
    assert!(err.message().contains("unknown field `cpuid_modifierz`"));

    let err = decode_template(&obj(vec![
        field("msr_modifiers", DocValue::Array(vec![])),
        field("msr_modifiers", DocValue::Array(vec![])),
    ]))
    .unwrap_err();
    assert!(err.message().contains("duplicate field `msr_modifiers`"));

    let doc = obj(vec![field(
        "msr_modifiers",
        DocValue::Array(vec![obj(vec![field(
            "bitmap",
            txt("0bx00100xxx1xxxx00xxx1xxxxxxxxxxx1"),
        )])]),
    )]);
    let err = decode_template(&doc).unwrap_err();
    assert!(err.message().contains("missing field `addr`"));

    let err = decode_template(&obj(vec![field("msr_modifiers", DocValue::Number(3))]))
        .unwrap_err();
    assert!(err.message().contains("invalid type for msr_modifiers"));

    let err = decode_template(&DocValue::Number(1)).unwrap_err();
    assert!(err.message().contains("invalid type for custom CPU template"));
}

#[test]
fn msr_index_list_keeps_document_order() {
    let doc = obj(vec![field(
        "msr_modifiers",
        DocValue::Array(vec![
            msr_mod_doc("0x9999", "0b01xx"),
            msr_mod_doc("0x8000", "0b01xx"),
            msr_mod_doc("3", "0b01xx"),
        ]),
    )]);
    let t = decode_template(&doc).unwrap();
    assert_eq!(t.get_msr_index_list(), vec![0x9999, 0x8000, 3]);
}
