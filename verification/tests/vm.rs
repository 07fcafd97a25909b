use tinychain::state::State;
use tinychain::vm::{StackItem, VM};

#[test]
fn test_vm() {
    let mut state = State::new();
    let mut vm = VM::new(vec![0x02, 0x0a, 0x03, 0x0a, 0x0e]);
    vm.run(&mut state).unwrap();

    assert_eq!(StackItem::Int(1), vm.stack.pop());
}

#[test]
fn test_vm_pack() {
    let data = vec![0x4f, 0x0c, 0x4f, 0x0c, 0x46, 0x0c, 0x03, 0x0a, 0x0d];

    let mut state = State::new();
    let mut vm = VM::new(data);
    vm.run(&mut state).unwrap();

    let result = vm.stack.pop();
    assert_eq!("FOO", result.to_string().unwrap());
}

#[test]
fn test_vm_store() {
    let data = vec![
        0x05, 0x0a, 0x4f, 0x0c, 0x4f, 0x0c, 0x46, 0x0c, 0x03, 0x0a, 0x0d, 0x0f,
    ];

    let mut state = State::new();
    let mut vm = VM::new(data);
    vm.run(&mut state).unwrap();

    assert_eq!(state.get(&vec![70, 79, 79, 0]).unwrap(), vec![5]);
}

#[test]
fn test_vm_pack_and_store_after_calculation() {
    let data = vec![
        0x02, 0x0a, 0x03, 0x0a, 0x0b, 0x4f, 0x0c, 0x4f, 0x0c, 0x46, 0x0c, 0x03, 0x0a, 0x0d, 0x0f,
    ];

    let mut state = State::new();
    let mut vm = VM::new(data);
    vm.run(&mut state).unwrap();

    assert_eq!(state.get(&vec![70, 79, 79, 0]).unwrap(), vec![5]);
}

#[test]
fn test_vm_store_get() {
    let mut data = vec![
        0x02, 0x0a, 0x03, 0x0a, 0x0b, 0x4f, 0x0c, 0x4f, 0x0c, 0x46, 0x0c, 0x03, 0x0a, 0x0d, 0x0f,
    ];
    let push_foo = vec![0x4f, 0x0c, 0x4f, 0x0c, 0x46, 0x0c, 0x03, 0x0a, 0x0d, 0x0ae];
    data.extend(push_foo);

    let mut state = State::new();
    let mut vm = VM::new(data);
    vm.run(&mut state).unwrap();

    let val = vm.stack.pop();

    assert_eq!(5_u8, val.try_into_u8().unwrap());
}

#[test]
fn test_vm_mul() {
    let data = vec![0x02, 0x0c, 0x03, 0x0c, 0xea];
    let mut state = State::new();
    let mut vm = VM::new(data);
    vm.run(&mut state).unwrap();

    let val = vm.stack.pop();

    assert_eq!(6_u8, val.try_into_u8().unwrap());
}

#[test]
fn test_vm_div() {
    let data = vec![0x03, 0x0c, 0x06, 0x0c, 0xfd];
    let mut state = State::new();
    let mut vm = VM::new(data);
    vm.run(&mut state).unwrap();

    let val = vm.stack.pop();

    assert_eq!(2_u8, val.try_into_u8().unwrap());
}

#[test]
fn test_vm_push_add() {
    // Two non-opcode operands pushed as integers and added: 7 + 9.
    let data = vec![0x07, 0x0a, 0x09, 0x0a, 0x0b];
    let mut state = State::new();
    let mut vm = VM::new(data);
    vm.run(&mut state).unwrap();

    assert_eq!(StackItem::Int(16), vm.stack.pop());
}

#[test]
fn test_vm_div_by_zero() {
    // Pushes 0, then 5, then divides 5 by 0.
    let data = vec![0x00, 0x0c, 0x05, 0x0c, 0xfd];
    let mut state = State::new();
    let mut vm = VM::new(data);
    assert_eq!(
        vm.run(&mut state),
        Err(tinychain::error::Error::VmArithmetic)
    );
}

#[test]
fn test_vm_type_error() {
    // Packs a 3-byte bundle, then tries to add it to a byte.
    let data = vec![
        0x4f, 0x0c, 0x4f, 0x0c, 0x46, 0x0c, 0x03, 0x0a, 0x0d, 0x01, 0x0c, 0x0b,
    ];
    let mut state = State::new();
    let mut vm = VM::new(data);
    assert_eq!(vm.run(&mut state), Err(tinychain::error::Error::VmTypeError));
}

#[test]
fn test_vm_pack_limit() {
    // Pack of 65 bytes exceeds the largest bundle width.
    let data = vec![0x41, 0x0a, 0x0d];
    let mut state = State::new();
    let mut vm = VM::new(data);
    assert_eq!(vm.run(&mut state), Err(tinychain::error::Error::VmLimit));
}

#[test]
fn test_vm_get_missing_key() {
    // Gets a key that was never stored.
    let data = vec![0x4f, 0x0c, 0xae];
    let mut state = State::new();
    let mut vm = VM::new(data);
    assert_eq!(vm.run(&mut state), Err(tinychain::error::Error::VmState));
}

#[test]
fn test_vm_fault_leaves_state_as_found() {
    // Stores 5 under "FOO", then faults on a missing key: the effects
    // before the fault remain; the faulting instruction changes nothing.
    let mut data = vec![
        0x05, 0x0a, 0x4f, 0x0c, 0x4f, 0x0c, 0x46, 0x0c, 0x03, 0x0a, 0x0d, 0x0f,
    ];
    data.extend(vec![0x01, 0x0c, 0xae]);
    let mut state = State::new();
    let mut vm = VM::new(data);
    assert_eq!(vm.run(&mut state), Err(tinychain::error::Error::VmState));
    assert_eq!(state.get(&vec![70, 79, 79, 0]).unwrap(), vec![5]);
    assert!(state.get(&vec![1]).is_none());
}

#[test]
fn test_vm_empty_program() {
    let mut state = State::new();
    let mut vm = VM::new(vec![]);
    assert!(vm.run(&mut state).is_ok());
    assert_eq!(StackItem::Byte(0), vm.stack.pop());
}

#[test]
fn test_state_put_get_delete() {
    let mut state = State::new();
    state.put(vec![1, 2], vec![3]);
    state.put(vec![1, 2], vec![4]);
    assert_eq!(state.get(&vec![1, 2]).unwrap(), vec![4]);
    state.delete(&vec![1, 2]);
    assert!(state.get(&vec![1, 2]).is_none());
}
