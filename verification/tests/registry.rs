use spv_grammar::registry::{extension_registry, grammar_registry, ExtensionRegistry};
use spv_grammar::schema::{Enumerant, Grammar, Instruction, Literal, OperandKind};

fn strings(names: &[&str]) -> Vec<String> {
    names.iter().map(|s| s.to_string()).collect()
}

fn instr(name: &str, opcode: u32, extensions: Option<&[&str]>) -> Instruction {
    Instruction {
        opname: name.to_string(),
        class: None,
        opcode,
        operands: None,
        capabilities: None,
        extensions: extensions.map(strings),
        version: None,
    }
}

fn enumerant(name: &str, value: u64, extensions: Option<&[&str]>) -> Enumerant {
    Enumerant {
        enumerant: name.to_string(),
        value: Literal::Integer(value),
        capabilities: None,
        parameters: None,
        extensions: extensions.map(strings),
        version: None,
    }
}

fn grammar(instructions: Vec<Instruction>, kinds: Option<Vec<OperandKind>>) -> Grammar {
    Grammar {
        copyright: Vec::new(),
        magic_number: None,
        major_version: None,
        minor_version: None,
        version: None,
        revision: 1,
        instructions,
        operand_kinds: kinds,
    }
}

fn sample() -> Grammar {
    grammar(
        vec![
            instr("OpA", 1, Some(&["SPV_KHR_b", "SPV_AMD_z"])),
            instr("OpB", 2, None),
            instr("OpC", 3, Some(&["SPV_KHR_b"])),
        ],
        Some(vec![
            OperandKind {
                category: "ValueEnum".to_string(),
                kind: "Capability".to_string(),
                enumerants: Some(vec![
                    enumerant("X", 0, Some(&["SPV_KHR_a"])),
                    enumerant("Y", 1, None),
                    enumerant("Z", 2, Some(&["SPV_EXT_q", "SPV_KHR_a"])),
                ]),
                bases: None,
            },
            OperandKind {
                category: "Id".to_string(),
                kind: "IdRef".to_string(),
                enumerants: None,
                bases: None,
            },
        ]),
    )
}

#[test]
fn registry_lists_every_extension_once_in_lexicographic_order() {
    let r = grammar_registry(&sample());
    assert_eq!(r.names(), strings(&["SPV_AMD_z", "SPV_EXT_q", "SPV_KHR_a", "SPV_KHR_b"]));
    assert_eq!(r.len(), 4);
}

#[test]
fn registry_order_does_not_depend_on_discovery_order() {
    let mut g = sample();
    let forward = grammar_registry(&g).names();
    g.instructions.reverse();
    g.operand_kinds.as_mut().unwrap().reverse();
    for k in g.operand_kinds.as_mut().unwrap() {
        if let Some(es) = k.enumerants.as_mut() {
            es.reverse();
        }
    }
    assert_eq!(grammar_registry(&g).names(), forward);
}

#[test]
fn registry_assigns_dense_indices() {
    let r = grammar_registry(&sample());
    assert_eq!(r.index_of("SPV_AMD_z"), Some(0));
    assert_eq!(r.index_of("SPV_EXT_q"), Some(1));
    assert_eq!(r.index_of("SPV_KHR_a"), Some(2));
    assert_eq!(r.index_of("SPV_KHR_b"), Some(3));
    assert_eq!(r.index_of("SPV_KHR_c"), None);
    assert_eq!(r.name(2), "SPV_KHR_a");
}

#[test]
fn registry_spans_all_grammars() {
    let extra = grammar(vec![instr("Ext", 1, Some(&["SPV_AAA", "SPV_KHR_b"]))], None);
    let r = extension_registry(&vec![sample(), extra]);
    assert_eq!(
        r.names(),
        strings(&["SPV_AAA", "SPV_AMD_z", "SPV_EXT_q", "SPV_KHR_a", "SPV_KHR_b"])
    );
    assert_eq!(extension_registry(&Vec::new()).names(), Vec::<String>::new());
}

#[test]
fn registry_insert_reports_whether_the_name_is_new() {
    let mut r = ExtensionRegistry::new();
    assert!(r.insert("b"));
    assert!(r.insert("a"));
    assert!(!r.insert("b"));
    assert!(r.insert("c"));
    assert_eq!(r.names(), strings(&["a", "b", "c"]));
    r.add_listed(&None);
    r.add_listed(&Some(strings(&["ab", "a"])));
    assert_eq!(r.names(), strings(&["a", "ab", "b", "c"]));
}
