use vstd::prelude::*;

use vstd::utf8::{decode_utf8, valid_utf8};

use crate::error::Error;
use crate::state::State;
use crate::util::utf8_to_string;

verus! {

/// The byte-coded instruction set of the virtual machine.
#[derive(Clone, Copy, Debug, PartialEq, Eq, Structural)]
pub enum Instruction {
    PushInt,
    Add,
    PushByte,
    Pack,
    Sub,
    Store,
    Get,
    Mul,
    Div,
}

/// The opcode table: which byte decodes to which instruction.
pub open spec fn spec_instruction(b: u8) -> Option<Instruction> {
    if b == 0x0a {
        Some(Instruction::PushInt)
    } else if b == 0x0b {
        Some(Instruction::Add)
    } else if b == 0x0c {
        Some(Instruction::PushByte)
    } else if b == 0x0d {
        Some(Instruction::Pack)
    } else if b == 0x0e {
        Some(Instruction::Sub)
    } else if b == 0x0f {
        Some(Instruction::Store)
    } else if b == 0xae {
        Some(Instruction::Get)
    } else if b == 0xea {
        Some(Instruction::Mul)
    } else if b == 0xfd {
        Some(Instruction::Div)
    } else {
        None
    }
}

impl Instruction {
    /// Decode one byte to an instruction, if it is an opcode.
    pub fn try_from(value: u8) -> (r: Option<Instruction>)
        ensures
            r == spec_instruction(value),
    {
        match value {
            0x0a => Some(Instruction::PushInt),
            0x0b => Some(Instruction::Add),
            0x0c => Some(Instruction::PushByte),
            0x0d => Some(Instruction::Pack),
            0x0e => Some(Instruction::Sub),
            0x0f => Some(Instruction::Store),
            0xae => Some(Instruction::Get),
            0xea => Some(Instruction::Mul),
            0xfd => Some(Instruction::Div),
            _ => None,
        }
    }
}

/// The mathematical value of a stack item: a single byte, a fixed-width
/// byte bundle (of width 4, 8, 16, 32 or 64), or a signed integer.
pub ghost enum ItemV {
    Byte(u8),
    Bytes(Seq<u8>),
    Int(i32),
}

/// An operand of the virtual machine's stack.
#[derive(Clone, Copy, Debug, PartialEq, Eq)]
pub enum StackItem {
    Byte(u8),
    Bytes4([u8; 4]),
    Bytes8([u8; 8]),
    Bytes16([u8; 16]),
    Bytes32([u8; 32]),
    Bytes64([u8; 64]),
    Int(i32),
}

impl View for StackItem {
    type V = ItemV;

    open spec fn view(&self) -> ItemV {
        match *self {
            StackItem::Byte(b) => ItemV::Byte(b),
            StackItem::Bytes4(a) => ItemV::Bytes(a@),
            StackItem::Bytes8(a) => ItemV::Bytes(a@),
            StackItem::Bytes16(a) => ItemV::Bytes(a@),
            StackItem::Bytes32(a) => ItemV::Bytes(a@),
            StackItem::Bytes64(a) => ItemV::Bytes(a@),
            StackItem::Int(i) => ItemV::Int(i),
        }
    }
}

/// The byte string an item denotes: a byte maps to itself, a bundle to
/// its contents, an integer to its lowest byte.
pub open spec fn item_bytes(v: ItemV) -> Seq<u8> {
    match v {
        ItemV::Byte(b) => seq![b],
        ItemV::Bytes(s) => s,
        ItemV::Int(i) => seq![(i as int % 256) as u8],
    }
}

/// The integer pair of two operands: arithmetic is defined only between
/// bytes and integers.
pub open spec fn as_int_pair(a: ItemV, b: ItemV) -> Option<(i32, i32)> {
    match (a, b) {
        (ItemV::Byte(x), ItemV::Byte(y)) => Some((x as i32, y as i32)),
        (ItemV::Byte(x), ItemV::Int(y)) => Some((x as i32, y)),
        (ItemV::Int(x), ItemV::Byte(y)) => Some((x, y as i32)),
        (ItemV::Int(x), ItemV::Int(y)) => Some((x, y)),
        _ => None,
    }
}

/// Addition on items: the first popped operand is the left argument.
pub open spec fn spec_add(a: ItemV, b: ItemV) -> Result<ItemV, Error> {
    match as_int_pair(a, b) {
        None => Err(Error::VmTypeError),
        Some(p) => match p.0.checked_add(p.1) {
            Some(v) => Ok(ItemV::Int(v)),
            None => Err(Error::VmArithmetic),
        },
    }
}

/// Subtraction on items.
pub open spec fn spec_sub(a: ItemV, b: ItemV) -> Result<ItemV, Error> {
    match as_int_pair(a, b) {
        None => Err(Error::VmTypeError),
        Some(p) => match p.0.checked_sub(p.1) {
            Some(v) => Ok(ItemV::Int(v)),
            None => Err(Error::VmArithmetic),
        },
    }
}

/// Multiplication on items.
pub open spec fn spec_mul(a: ItemV, b: ItemV) -> Result<ItemV, Error> {
    match as_int_pair(a, b) {
        None => Err(Error::VmTypeError),
        Some(p) => match p.0.checked_mul(p.1) {
            Some(v) => Ok(ItemV::Int(v)),
            None => Err(Error::VmArithmetic),
        },
    }
}

/// Division on items: division by zero fails.
pub open spec fn spec_div(a: ItemV, b: ItemV) -> Result<ItemV, Error> {
    match as_int_pair(a, b) {
        None => Err(Error::VmTypeError),
        Some(p) => match p.0.checked_div(p.1) {
            Some(v) => Ok(ItemV::Int(v)),
            None => Err(Error::VmArithmetic),
        },
    }
}

/// The bytes an item list denotes with every zero byte removed.
pub open spec fn nonzero_of(s: Seq<u8>) -> Seq<u8>
    decreases s.len(),
{
    if s.len() == 0 {
        s
    } else if s[0] == 0 {
        nonzero_of(s.drop_first())
    } else {
        seq![s[0]] + nonzero_of(s.drop_first())
    }
}

/// Filtering distributes over appending one byte.
proof fn lemma_nonzero_push(s: Seq<u8>, b: u8)
    ensures
        nonzero_of(s.push(b)) == if b == 0 {
            nonzero_of(s)
        } else {
            nonzero_of(s) + seq![b]
        },
    decreases s.len(),
{
    if s.len() == 0 {
        assert(s.push(b)[0] == b);
        assert(s.push(b).drop_first() =~= Seq::<u8>::empty());
        assert(nonzero_of(Seq::<u8>::empty()) == Seq::<u8>::empty());
        if b != 0 {
            assert(nonzero_of(s.push(b)) == seq![b] + Seq::<u8>::empty());
            assert(seq![b] + Seq::<u8>::empty() =~= nonzero_of(s) + seq![b]);
        } else {
            assert(nonzero_of(s.push(b)) =~= nonzero_of(s));
        }
    } else {
        assert(s.push(b)[0] == s[0]);
        assert(s.push(b).drop_first() =~= s.drop_first().push(b));
        lemma_nonzero_push(s.drop_first(), b);
        if b != 0 && s[0] != 0 {
            assert(seq![s[0]] + (nonzero_of(s.drop_first()) + seq![b]) =~= (seq![s[0]]
                + nonzero_of(s.drop_first())) + seq![b]);
        }
    }
}

impl StackItem {
    /// The bytes the item denotes.
    pub fn to_bytes(self) -> (r: Vec<u8>)
        ensures
            r@ == item_bytes(self@),
    {
        match self {
            StackItem::Byte(b) => {
                let mut v: Vec<u8> = Vec::new();
                v.push(b);
                assert(v@ =~= seq![b]);
                v
            },
            StackItem::Bytes4(a) => vstd::slice::slice_to_vec(a.as_slice()),
            StackItem::Bytes8(a) => vstd::slice::slice_to_vec(a.as_slice()),
            StackItem::Bytes16(a) => vstd::slice::slice_to_vec(a.as_slice()),
            StackItem::Bytes32(a) => vstd::slice::slice_to_vec(a.as_slice()),
            StackItem::Bytes64(a) => vstd::slice::slice_to_vec(a.as_slice()),
            StackItem::Int(i) => {
                let b = i.checked_rem_euclid(256).unwrap() as u8;
                let mut v: Vec<u8> = Vec::new();
                v.push(b);
                assert(v@ =~= seq![(i as int % 256) as u8]);
                v
            },
        }
    }

    /// The item's bytes, with zero bytes removed, read as UTF-8.
    pub fn to_string(self) -> (r: Result<String, Error>)
        ensures
            r is Ok <==> valid_utf8(nonzero_of(item_bytes(self@))),
            r matches Ok(s) ==> s@ == decode_utf8(nonzero_of(item_bytes(self@))),
            r matches Err(e) ==> e == Error::Codec,
    {
        let bytes = self.to_bytes();
        let mut kept: Vec<u8> = Vec::new();
        let mut i: usize = 0;
        while i < bytes.len()
            invariant
                i <= bytes@.len(),
                kept@ == nonzero_of(bytes@.take(i as int)),
            decreases bytes@.len() - i,
        {
            let b = bytes[i];
            if b != 0 {
                kept.push(b);
            }
            proof {
                lemma_nonzero_push(bytes@.take(i as int), bytes@[i as int]);
                assert(bytes@.take(i as int).push(bytes@[i as int]) =~= bytes@.take(i as int + 1));
            }
            i = i + 1;
        }
        assert(bytes@.take(bytes@.len() as int) =~= bytes@);
        match utf8_to_string(kept) {
            Some(s) => Ok(s),
            None => Err(Error::Codec),
        }
    }

    /// The integer pair of two operands, or a type error.
    pub fn a_b_as_int(self, rhs: StackItem) -> (r: Result<(i32, i32), Error>)
        ensures
            match as_int_pair(self@, rhs@) {
                Some(p) => r == Ok::<(i32, i32), Error>(p),
                None => r == Err::<(i32, i32), Error>(Error::VmTypeError),
            },
    {
        match (self, rhs) {
            (StackItem::Byte(x), StackItem::Byte(y)) => Ok((x as i32, y as i32)),
            (StackItem::Byte(x), StackItem::Int(y)) => Ok((x as i32, y)),
            (StackItem::Int(x), StackItem::Byte(y)) => Ok((x, y as i32)),
            (StackItem::Int(x), StackItem::Int(y)) => Ok((x, y)),
            _ => Err(Error::VmTypeError),
        }
    }

    /// Add two operands as integers.
    pub fn add(self, rhs: StackItem) -> (r: Result<StackItem, Error>)
        ensures
            match spec_add(self@, rhs@) {
                Ok(v) => r matches Ok(it) && it@ == v,
                Err(e) => r == Err::<StackItem, Error>(e),
            },
    {
        let p = self.a_b_as_int(rhs)?;
        match p.0.checked_add(p.1) {
            Some(v) => Ok(StackItem::Int(v)),
            None => Err(Error::VmArithmetic),
        }
    }

    /// Subtract two operands as integers; the first is the left argument.
    pub fn sub(self, rhs: StackItem) -> (r: Result<StackItem, Error>)
        ensures
            match spec_sub(self@, rhs@) {
                Ok(v) => r matches Ok(it) && it@ == v,
                Err(e) => r == Err::<StackItem, Error>(e),
            },
    {
        let p = self.a_b_as_int(rhs)?;
        match p.0.checked_sub(p.1) {
            Some(v) => Ok(StackItem::Int(v)),
            None => Err(Error::VmArithmetic),
        }
    }

    /// Multiply two operands as integers.
    pub fn mul(self, rhs: StackItem) -> (r: Result<StackItem, Error>)
        ensures
            match spec_mul(self@, rhs@) {
                Ok(v) => r matches Ok(it) && it@ == v,
                Err(e) => r == Err::<StackItem, Error>(e),
            },
    {
        let p = self.a_b_as_int(rhs)?;
        match p.0.checked_mul(p.1) {
            Some(v) => Ok(StackItem::Int(v)),
            None => Err(Error::VmArithmetic),
        }
    }

    /// Divide two operands as integers; division by zero fails.
    pub fn div(self, rhs: StackItem) -> (r: Result<StackItem, Error>)
        ensures
            match spec_div(self@, rhs@) {
                Ok(v) => r matches Ok(it) && it@ == v,
                Err(e) => r == Err::<StackItem, Error>(e),
            },
    {
        let p = self.a_b_as_int(rhs)?;
        match p.0.checked_div(p.1) {
            Some(v) => Ok(StackItem::Int(v)),
            None => Err(Error::VmArithmetic),
        }
    }

    /// The item as a single byte: a byte itself, or the lowest byte of an
    /// integer; bundles have no single-byte reading.
    pub fn try_into_u8(self) -> (r: Result<u8, Error>)
        ensures
            match spec_as_u8(self@) {
                Some(b) => r == Ok::<u8, Error>(b),
                None => r == Err::<u8, Error>(Error::VmTypeError),
            },
    {
        match self {
            StackItem::Byte(b) => Ok(b),
            StackItem::Int(i) => Ok(i.checked_rem_euclid(256).unwrap() as u8),
            _ => Err(Error::VmTypeError),
        }
    }
}

impl Default for StackItem {
    /// The default item is the zero byte.
    fn default() -> (r: StackItem)
        ensures
            r@ == ItemV::Byte(0),
    {
        StackItem::Byte(0)
    }
}

/// The single byte an item denotes, if it has one.
pub open spec fn spec_as_u8(v: ItemV) -> Option<u8> {
    match v {
        ItemV::Byte(b) => Some(b),
        ItemV::Int(i) => Some((i as int % 256) as u8),
        ItemV::Bytes(_) => None,
    }
}

/// Pop from an item sequence whose head is the stack top: an empty stack
/// yields the zero byte and stays empty.
pub open spec fn spec_pop(s: Seq<ItemV>) -> (ItemV, Seq<ItemV>) {
    if s.len() == 0 {
        (ItemV::Byte(0), s)
    } else {
        (s[0], s.drop_first())
    }
}

/// Push onto an item sequence bounded by `cap`: when full, the bottom
/// item is dropped.
pub open spec fn spec_stack_push(s: Seq<ItemV>, v: ItemV, cap: int) -> Seq<ItemV> {
    if s.len() < cap {
        seq![v] + s
    } else {
        (seq![v] + s).take(cap)
    }
}

/// A bounded operand stack; the top sits at index 0 of the view.
#[derive(Debug)]
pub struct Stack<const N: usize> {
    data: Vec<StackItem>,
}

impl<const N: usize> View for Stack<N> {
    type V = Seq<ItemV>;

    closed spec fn view(&self) -> Seq<ItemV> {
        self.data@.map_values(|it: StackItem| it@)
    }
}

impl<const N: usize> Stack<N> {
    /// An empty stack.
    pub fn new() -> (s: Stack<N>)
        ensures
            s@ == Seq::<ItemV>::empty(),
    {
        let s = Stack { data: Vec::new() };
        assert(s@ =~= Seq::<ItemV>::empty());
        s
    }

    /// How many items the stack holds.
    pub fn len(&self) -> (n: usize)
        ensures
            n == self@.len(),
    {
        self.data.len()
    }

    /// Pop the top item; an empty stack yields the zero byte.
    pub fn pop(&mut self) -> (r: StackItem)
        ensures
            (r@, final(self)@) == spec_pop(old(self)@),
    {
        if self.data.len() == 0 {
            StackItem::Byte(0)
        } else {
            let r = self.data.remove(0);
            assert(self@ =~= old(self)@.drop_first());
            r
        }
    }

    /// Push an item on top; when the stack is full, the bottom item is
    /// dropped.
    pub fn push(&mut self, item: StackItem)
        ensures
            final(self)@ == spec_stack_push(old(self)@, item@, N as int),
    {
        self.data.insert(0, item);
        assert(self@ =~= seq![item@] + old(self)@);
        if self.data.len() > N {
            self.data.truncate(N);
            assert(self@ =~= (seq![item@] + old(self)@).take(N as int));
        }
    }
}

/// One snapshot of the machine: the operand stack and the contract state.
pub ghost struct VmSnap {
    pub stack: Seq<ItemV>,
    pub store: Map<Seq<u8>, Seq<u8>>,
}

/// `bytes` padded with zero bytes up to width `w`.
pub open spec fn pad_to(bytes: Seq<u8>, w: int) -> Seq<u8> {
    Seq::new(w as nat, |i: int| if i < bytes.len() { bytes[i] } else { 0u8 })
}

/// The smallest fixed bundle width that holds `n` bytes.
pub open spec fn width_for(n: int) -> int {
    if n <= 4 {
        4
    } else if n <= 8 {
        8
    } else if n <= 16 {
        16
    } else if n <= 32 {
        32
    } else {
        64
    }
}

/// The bundle size an item asks for: at most 64, read from a byte or a
/// non-negative integer.
pub open spec fn spec_pack_n(v: ItemV) -> Result<int, Error> {
    match v {
        ItemV::Byte(b) => if b <= 64 {
            Ok(b as int)
        } else {
            Err(Error::VmLimit)
        },
        ItemV::Int(i) => if 0 <= i <= 64 {
            Ok(i as int)
        } else {
            Err(Error::VmLimit)
        },
        ItemV::Bytes(_) => Err(Error::VmTypeError),
    }
}

/// Pop `n` single bytes off an item sequence.
pub open spec fn spec_pop_bytes(s: Seq<ItemV>, n: int) -> Option<(Seq<u8>, Seq<ItemV>)>
    decreases n,
{
    if n <= 0 {
        Some((Seq::empty(), s))
    } else {
        let p = spec_pop(s);
        match spec_as_u8(p.0) {
            None => None,
            Some(b) => match spec_pop_bytes(p.1, n - 1) {
                None => None,
                Some(r) => Some((seq![b] + r.0, r.1)),
            },
        }
    }
}

/// The effect of one instruction on a machine snapshot, or the fault it
/// raises.
pub open spec fn spec_exec_instr(code: Seq<u8>, ip: int, instr: Instruction, v: VmSnap) -> Result<
    VmSnap,
    Error,
> {
    match instr {
        Instruction::PushInt => {
            let i = if ip >= 1 {
                ip - 1
            } else {
                0
            };
            Ok(
                VmSnap {
                    stack: spec_stack_push(v.stack, ItemV::Int(code[i] as i32), 128),
                    store: v.store,
                },
            )
        },
        Instruction::PushByte => {
            let i = if ip >= 1 {
                ip - 1
            } else {
                0
            };
            Ok(
                VmSnap {
                    stack: spec_stack_push(v.stack, ItemV::Byte(code[i]), 128),
                    store: v.store,
                },
            )
        },
        Instruction::Add => {
            let p1 = spec_pop(v.stack);
            let p2 = spec_pop(p1.1);
            match spec_add(p1.0, p2.0) {
                Ok(c) => Ok(VmSnap { stack: spec_stack_push(p2.1, c, 128), store: v.store }),
                Err(e) => Err(e),
            }
        },
        Instruction::Sub => {
            let p1 = spec_pop(v.stack);
            let p2 = spec_pop(p1.1);
            match spec_sub(p1.0, p2.0) {
                Ok(c) => Ok(VmSnap { stack: spec_stack_push(p2.1, c, 128), store: v.store }),
                Err(e) => Err(e),
            }
        },
        Instruction::Mul => {
            let p1 = spec_pop(v.stack);
            let p2 = spec_pop(p1.1);
            match spec_mul(p1.0, p2.0) {
                Ok(c) => Ok(VmSnap { stack: spec_stack_push(p2.1, c, 128), store: v.store }),
                Err(e) => Err(e),
            }
        },
        Instruction::Div => {
            let p1 = spec_pop(v.stack);
            let p2 = spec_pop(p1.1);
            match spec_div(p1.0, p2.0) {
                Ok(c) => Ok(VmSnap { stack: spec_stack_push(p2.1, c, 128), store: v.store }),
                Err(e) => Err(e),
            }
        },
        Instruction::Store => {
            let pk = spec_pop(v.stack);
            let pv = spec_pop(pk.1);
            Ok(
                VmSnap {
                    stack: pv.1,
                    store: v.store.insert(item_bytes(pk.0), item_bytes(pv.0)),
                },
            )
        },
        Instruction::Get => {
            let pk = spec_pop(v.stack);
            let key = item_bytes(pk.0);
            if !v.store.contains_key(key) {
                Err(Error::VmState)
            } else {
                let val = v.store[key];
                let n = val.len() as int;
                if n == 1 {
                    Ok(
                        VmSnap {
                            stack: spec_stack_push(pk.1, ItemV::Byte(val[0]), 128),
                            store: v.store,
                        },
                    )
                } else if n <= 64 {
                    Ok(
                        VmSnap {
                            stack: spec_stack_push(
                                pk.1,
                                ItemV::Bytes(pad_to(val, width_for(n))),
                                128,
                            ),
                            store: v.store,
                        },
                    )
                } else {
                    Err(Error::VmState)
                }
            }
        },
        Instruction::Pack => {
            let pn = spec_pop(v.stack);
            match spec_pack_n(pn.0) {
                Err(e) => Err(e),
                Ok(n) => match spec_pop_bytes(pn.1, n) {
                    None => Err(Error::VmTypeError),
                    Some(r) => Ok(
                        VmSnap {
                            stack: spec_stack_push(
                                r.1,
                                ItemV::Bytes(pad_to(r.0, width_for(n))),
                                128,
                            ),
                            store: v.store,
                        },
                    ),
                },
            }
        },
    }
}

/// The effect of the byte at `ip`: an opcode executes, any other byte is
/// inline data and leaves the machine unchanged.
pub open spec fn spec_step(code: Seq<u8>, ip: int, v: VmSnap) -> Result<VmSnap, Error> {
    match spec_instruction(code[ip]) {
        None => Ok(v),
        Some(instr) => spec_exec_instr(code, ip, instr, v),
    }
}

/// Run the machine from `ip` to the end of the code, or to the first
/// fault.
pub open spec fn spec_run_from(code: Seq<u8>, ip: int, v: VmSnap) -> Result<VmSnap, Error>
    decreases code.len() - ip,
{
    if ip < 0 || ip >= code.len() {
        Ok(v)
    } else {
        match spec_step(code, ip, v) {
            Err(e) => Err(e),
            Ok(v2) => spec_run_from(code, ip + 1, v2),
        }
    }
}

/// The contract state a run leaves behind: the effects of every
/// instruction before the first fault, or of the whole program when
/// none faults. A faulting instruction itself never touches the state.
pub open spec fn spec_store_after(code: Seq<u8>, ip: int, v: VmSnap) -> Map<Seq<u8>, Seq<u8>>
    decreases code.len() - ip,
{
    if ip < 0 || ip >= code.len() {
        v.store
    } else {
        match spec_step(code, ip, v) {
            Err(_) => v.store,
            Ok(v2) => spec_store_after(code, ip + 1, v2),
        }
    }
}

/// Copy up to `W` bytes into a zero-padded fixed array.
fn to_array<const W: usize>(bytes: &Vec<u8>) -> (a: [u8; W])
    requires
        bytes@.len() <= W,
    ensures
        a@ == pad_to(bytes@, W as int),
{
    let mut a: [u8; W] = [0u8; W];
    let mut i: usize = 0;
    while i < bytes.len()
        invariant
            i <= bytes@.len() <= W,
            a@.len() == W,
            forall|j: int| 0 <= j < i ==> a@[j] == bytes@[j],
            forall|j: int| i <= j < W ==> a@[j] == 0u8,
        decreases bytes@.len() - i,
    {
        a[i] = bytes[i];
        i = i + 1;
    }
    assert(a@ =~= pad_to(bytes@, W as int));
    a
}

/// The stack machine: a byte-coded program, an instruction pointer, and
/// a bounded operand stack; it mutates a contract state handed to `run`.
#[derive(Debug)]
pub struct VM {
    pub data: Vec<u8>,
    pub ip: usize,
    pub stack: Stack<128>,
}

impl VM {
    /// A machine at the start of a program with an empty stack.
    pub fn new(data: Vec<u8>) -> (vm: VM)
        ensures
            vm.data@ == data@,
            vm.ip == 0,
            vm.stack@ == Seq::<ItemV>::empty(),
    {
        VM { data, ip: 0, stack: Stack::new() }
    }

    /// Execute one instruction at the current instruction pointer. A
    /// faulting instruction leaves the contract state untouched.
    #[verifier::loop_isolation(false)]
    pub fn exec(&mut self, instr: &Instruction, state: &mut State) -> (r: Result<(), Error>)
        requires
            old(self).ip < old(self).data@.len(),
        ensures
            final(self).data@ == old(self).data@,
            final(self).ip == old(self).ip,
            match spec_exec_instr(
                old(self).data@,
                old(self).ip as int,
                *instr,
                VmSnap { stack: old(self).stack@, store: old(state)@ },
            ) {
                Ok(v2) => r is Ok && final(self).stack@ == v2.stack && final(state)@ == v2.store,
                Err(e) => r == Err::<(), Error>(e),
            },
            r is Err ==> final(state)@ == old(state)@,
    {
        match instr {
            Instruction::PushInt => {
                let i = if self.ip >= 1 {
                    self.ip - 1
                } else {
                    0
                };
                let b = self.data[i];
                self.stack.push(StackItem::Int(b as i32));
                Ok(())
            },
            Instruction::PushByte => {
                let i = if self.ip >= 1 {
                    self.ip - 1
                } else {
                    0
                };
                let b = self.data[i];
                self.stack.push(StackItem::Byte(b));
                Ok(())
            },
            Instruction::Add => {
                let a = self.stack.pop();
                let b = self.stack.pop();
                let c = a.add(b)?;
                self.stack.push(c);
                Ok(())
            },
            Instruction::Sub => {
                let a = self.stack.pop();
                let b = self.stack.pop();
                let c = a.sub(b)?;
                self.stack.push(c);
                Ok(())
            },
            Instruction::Mul => {
                let a = self.stack.pop();
                let b = self.stack.pop();
                let c = a.mul(b)?;
                self.stack.push(c);
                Ok(())
            },
            Instruction::Div => {
                let a = self.stack.pop();
                let b = self.stack.pop();
                let c = a.div(b)?;
                self.stack.push(c);
                Ok(())
            },
            Instruction::Store => {
                let key = self.stack.pop();
                let value = self.stack.pop();
                state.put(key.to_bytes(), value.to_bytes());
                Ok(())
            },
            Instruction::Get => {
                let key = self.stack.pop();
                let key_bytes = key.to_bytes();
                let value = match state.get(&key_bytes) {
                    Some(v) => v,
                    None => {
                        return Err(Error::VmState);
                    },
                };
                let n = value.len();
                let item = if n == 1 {
                    StackItem::Byte(value[0])
                } else if n <= 4 {
                    StackItem::Bytes4(to_array::<4>(&value))
                } else if n <= 8 {
                    StackItem::Bytes8(to_array::<8>(&value))
                } else if n <= 16 {
                    StackItem::Bytes16(to_array::<16>(&value))
                } else if n <= 32 {
                    StackItem::Bytes32(to_array::<32>(&value))
                } else if n <= 64 {
                    StackItem::Bytes64(to_array::<64>(&value))
                } else {
                    return Err(Error::VmState);
                };
                self.stack.push(item);
                Ok(())
            },
            Instruction::Pack => {
                let n_item = self.stack.pop();
                let n: usize = match n_item {
                    StackItem::Byte(b) => {
                        if b > 64 {
                            return Err(Error::VmLimit);
                        }
                        b as usize
                    },
                    StackItem::Int(x) => {
                        if x < 0 || x > 64 {
                            return Err(Error::VmLimit);
                        }
                        x as usize
                    },
                    _ => {
                        return Err(Error::VmTypeError);
                    },
                };
                let ghost s1 = self.stack@;
                let mut bytes: Vec<u8> = Vec::new();
                let mut j: usize = 0;
                while j < n
                    invariant
                        j <= n,
                        n <= 64,
                        self.data@ == old(self).data@,
                        self.ip == old(self).ip,
                        state@ == old(state)@,
                        match spec_pop_bytes(self.stack@, n - j) {
                            Some(r) => spec_pop_bytes(s1, n as int) == Some(
                                (bytes@ + r.0, r.1),
                            ),
                            None => spec_pop_bytes(s1, n as int) is None,
                        },
                        bytes@.len() == j,
                    decreases n - j,
                {
                    let ghost stack_here = self.stack@;
                    let ghost bytes_old = bytes@;
                    let it = self.stack.pop();
                    let b: u8 = match it {
                        StackItem::Byte(b) => b,
                        StackItem::Int(x) => x.checked_rem_euclid(256).unwrap() as u8,
                        _ => {
                            return Err(Error::VmTypeError);
                        },
                    };
                    bytes.push(b);
                    proof {
                        match spec_pop_bytes(self.stack@, n - (j + 1)) {
                            Some(r2) => {
                                assert(bytes@ + r2.0 =~= bytes_old + (seq![b] + r2.0));
                            },
                            None => {},
                        }
                    }
                    j = j + 1;
                }
                proof {
                    assert(bytes@ + Seq::<u8>::empty() =~= bytes@);
                }
                let item = if n <= 4 {
                    StackItem::Bytes4(to_array::<4>(&bytes))
                } else if n <= 8 {
                    StackItem::Bytes8(to_array::<8>(&bytes))
                } else if n <= 16 {
                    StackItem::Bytes16(to_array::<16>(&bytes))
                } else if n <= 32 {
                    StackItem::Bytes32(to_array::<32>(&bytes))
                } else {
                    StackItem::Bytes64(to_array::<64>(&bytes))
                };
                self.stack.push(item);
                Ok(())
            },
        }
    }

    /// Run the program to its end: each byte that decodes to an opcode
    /// executes; other bytes are inline data. The machine stops at the
    /// first fault, leaving the state as the fault found it.
    #[verifier::loop_isolation(false)]
    pub fn run(&mut self, state: &mut State) -> (r: Result<(), Error>)
        ensures
            final(self).data@ == old(self).data@,
            match spec_run_from(
                old(self).data@,
                old(self).ip as int,
                VmSnap { stack: old(self).stack@, store: old(state)@ },
            ) {
                Ok(v) => r is Ok && final(self).stack@ == v.stack && final(state)@ == v.store,
                Err(e) => r == Err::<(), Error>(e),
            },
            r is Err ==> final(state)@ == spec_store_after(
                old(self).data@,
                old(self).ip as int,
                VmSnap { stack: old(self).stack@, store: old(state)@ },
            ),
    {
        let ghost code = self.data@;
        let ghost ip0 = self.ip as int;
        let ghost v0 = VmSnap { stack: self.stack@, store: state@ };
        while self.ip < self.data.len()
            invariant
                self.data@ == code,
                spec_run_from(code, ip0, v0) == spec_run_from(
                    code,
                    self.ip as int,
                    VmSnap { stack: self.stack@, store: state@ },
                ),
                spec_store_after(code, ip0, v0) == spec_store_after(
                    code,
                    self.ip as int,
                    VmSnap { stack: self.stack@, store: state@ },
                ),
            decreases code.len() - self.ip,
        {
            let b = self.data[self.ip];
            match Instruction::try_from(b) {
                Some(instr) => {
                    match self.exec(&instr, state) {
                        Ok(()) => {},
                        Err(e) => {
                            return Err(e);
                        },
                    }
                },
                None => {},
            }
            self.ip = self.ip + 1;
        }
        Ok(())
    }
}

/// Law: a program of the form `PushInt x, PushInt y, Add` — the byte
/// stream `[x, 0x0a, y, 0x0a, 0x0b]` — leaves `Int(x + y)` on top of the
/// stack, whatever the contract state. The operand bytes must not
/// themselves be opcodes: an operand that is an opcode executes first
/// and can disturb the stack (an operand byte 0x0b, for instance, runs
/// an addition of its own).
pub proof fn lemma_push_push_add(x: u8, y: u8, store: Map<Seq<u8>, Seq<u8>>)
    requires
        spec_instruction(x) is None,
        spec_instruction(y) is None,
    ensures
        spec_run_from(
            seq![x, 0x0au8, y, 0x0au8, 0x0bu8],
            0,
            VmSnap { stack: Seq::empty(), store },
        ) matches Ok(v) && v.stack =~= seq![ItemV::Int((x + y) as i32)],
{
    let code = seq![x, 0x0au8, y, 0x0au8, 0x0bu8];
    let v0 = VmSnap { stack: Seq::<ItemV>::empty(), store };
    let s1 = seq![ItemV::Int(x as i32)];
    let v1 = VmSnap { stack: s1, store };
    let s2 = seq![ItemV::Int(y as i32), ItemV::Int(x as i32)];
    let v2 = VmSnap { stack: s2, store };
    let s3 = seq![ItemV::Int((x + y) as i32)];
    let v3 = VmSnap { stack: s3, store };
    assert(spec_step(code, 0, v0) == Ok::<VmSnap, Error>(v0));
    assert(spec_stack_push(v0.stack, ItemV::Int(code[0] as i32), 128) =~= s1);
    assert(spec_step(code, 1, v0) == Ok::<VmSnap, Error>(v1));
    assert(spec_step(code, 2, v1) == Ok::<VmSnap, Error>(v1));
    assert(spec_stack_push(s1, ItemV::Int(code[2] as i32), 128) =~= s2);
    assert(spec_step(code, 3, v1) == Ok::<VmSnap, Error>(v2));
    let pa = spec_pop(s2);
    let pb = spec_pop(pa.1);
    assert(pa.0 == ItemV::Int(y as i32));
    assert(pa.1 =~= seq![ItemV::Int(x as i32)]);
    assert(pb.0 == ItemV::Int(x as i32));
    assert(pb.1 =~= Seq::<ItemV>::empty());
    assert(spec_add(pa.0, pb.0) == Ok::<ItemV, Error>(ItemV::Int((x + y) as i32)));
    assert(spec_stack_push(pb.1, ItemV::Int((x + y) as i32), 128) =~= s3);
    assert(spec_step(code, 4, v2) == Ok::<VmSnap, Error>(v3));
    assert(spec_run_from(code, 5, v3) == Ok::<VmSnap, Error>(v3));
    assert(spec_run_from(code, 4, v2) == Ok::<VmSnap, Error>(v3));
    assert(spec_run_from(code, 3, v1) == Ok::<VmSnap, Error>(v3));
    assert(spec_run_from(code, 2, v1) == Ok::<VmSnap, Error>(v3));
    assert(spec_run_from(code, 1, v0) == Ok::<VmSnap, Error>(v3));
    assert(spec_run_from(code, 0, v0) == Ok::<VmSnap, Error>(v3));
}

} // verus!
