use spv_grammar::canon::canonical_instructions;
use spv_grammar::schema::Instruction;

fn instr(name: &str, opcode: u32) -> Instruction {
    Instruction {
        opname: name.to_string(),
        class: None,
        opcode,
        operands: None,
        capabilities: None,
        extensions: None,
        version: None,
    }
}

fn names(instrs: &Vec<Instruction>) -> Vec<(u32, String)> {
    canonical_instructions(instrs)
        .iter()
        .map(|&i| (instrs[i].opcode, instrs[i].opname.clone()))
        .collect()
}

#[test]
fn later_name_replaces_vendor_name_for_shared_opcode() {
    let instrs = vec![instr("OpFooKHR", 12), instr("OpFoo", 12)];
    assert_eq!(canonical_instructions(&instrs), vec![1]);
    assert_eq!(names(&instrs), vec![(12, "OpFoo".to_string())]);
}

#[test]
fn later_vendor_name_replaces_ratified_name_too() {
    let instrs = vec![instr("OpFoo", 12), instr("OpFooKHR", 12)];
    assert_eq!(names(&instrs), vec![(12, "OpFooKHR".to_string())]);
}

#[test]
fn repeated_name_keeps_the_first_entry() {
    let mut second = instr("OpFoo", 12);
    second.version = Some("1.4".to_string());
    let instrs = vec![instr("OpFoo", 12), second];
    assert_eq!(canonical_instructions(&instrs), vec![0]);
}

#[test]
fn replacement_compares_with_the_kept_entry() {
    let instrs = vec![instr("A", 5), instr("B", 5), instr("A", 5), instr("A", 5)];
    assert_eq!(canonical_instructions(&instrs), vec![2]);
    let instrs = vec![instr("A", 5), instr("B", 5), instr("B", 5)];
    assert_eq!(canonical_instructions(&instrs), vec![1]);
}

#[test]
fn canonical_order_is_ascending_and_unique() {
    let instrs = vec![
        instr("OpC", 30),
        instr("OpA", 10),
        instr("OpB", 20),
        instr("OpAKHR", 10),
        instr("OpD", 4),
        instr("OpCEXT", 30),
        instr("OpE", 4000),
    ];
    let order = canonical_instructions(&instrs);
    assert_eq!(order, vec![4, 3, 2, 5, 6]);
    for w in order.windows(2) {
        assert!(instrs[w[0]].opcode < instrs[w[1]].opcode);
    }
}

#[test]
fn empty_list_has_empty_canonical_order() {
    assert_eq!(canonical_instructions(&Vec::new()), Vec::<usize>::new());
}
