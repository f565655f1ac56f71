//! The machine state and the semantics of one instruction.
use vstd::prelude::*;
use crate::isa::{is_register, is_register_word, MEMORY_SIZE, REGISTER_BASE};

verus! {

/// Why the machine stopped on a fault.
#[derive(Clone, Copy, Debug, PartialEq, Eq, Structural)]
pub enum Fault {
    /// The word at the program counter is no opcode.
    InvalidOpcode,
    /// An operand word is neither a literal nor a register reference, a
    /// destination operand is no register reference, or RMEM finds a word
    /// outside the 15-bit value range.
    InvalidOperand,
    /// POP on an empty stack.
    EmptyStack,
    /// A memory address, jump target or successor address lies outside memory.
    AddressOutOfRange,
    /// MOD with a zero divisor.
    DivideByZero,
}

/// What one instruction did, as seen from outside the machine.
#[derive(Clone, Copy, Debug, PartialEq, Eq, Structural)]
pub enum Event {
    /// The instruction ran; nothing to report.
    Continue,
    /// The instruction ran and emitted this byte.
    Output(u8),
    /// IN found the input queue empty; the machine is unchanged.
    NeedInput,
    /// The machine is halted (by HALT, by RET on an empty stack, or earlier).
    Halted,
    /// The machine halted on a fault; nothing else changed.
    Fault(Fault),
}

/// The mathematical state of the machine.
pub struct VmModel {
    pub memory: Seq<u16>,
    pub registers: Seq<u16>,
    pub stack: Seq<u16>,
    pub pc: u16,
    pub halted: bool,
}

impl VmModel {
    /// Shape of every reachable state: full memory, eight registers, PC in memory.
    pub open spec fn wf(self) -> bool {
        &&& self.memory.len() == 32768
        &&& self.registers.len() == 8
        &&& self.pc < 32768
    }

    /// Every register and every stack entry holds a 15-bit value.
    pub open spec fn values_in_range(self) -> bool {
        &&& forall|i: int| 0 <= i < self.registers.len() ==> #[trigger] self.registers[i] < 32768
        &&& forall|i: int| 0 <= i < self.stack.len() ==> #[trigger] self.stack[i] < 32768
    }

    /// READ: the value an operand slot denotes.
    pub open spec fn read(self, addr: int) -> Option<u16> {
        if 0 <= addr < self.memory.len() {
            let w = self.memory[addr];
            if w < 32768 {
                Some(w)
            } else if is_register_word(w) {
                Some(self.registers[w - 32768])
            } else {
                None
            }
        } else {
            None
        }
    }

    /// The register that a destination slot names.
    pub open spec fn dest(self, addr: int) -> Option<int> {
        if 0 <= addr < self.memory.len() && is_register_word(self.memory[addr]) {
            Some(self.memory[addr] - 32768)
        } else {
            None
        }
    }

    pub open spec fn halt(self) -> VmModel {
        VmModel { halted: true, ..self }
    }

    pub open spec fn goto(self, target: int) -> VmModel {
        VmModel { pc: target as u16, ..self }
    }

    /// Writes register `r` and moves the PC on by `n`.
    pub open spec fn write(self, r: int, v: u16, n: int) -> VmModel {
        VmModel { registers: self.registers.update(r, v), pc: (self.pc + n) as u16, ..self }
    }
}

/// Whether the instruction continues at the next address (and so needs it in memory).
pub open spec fn falls_through(op: u16) -> bool {
    !(op == 0 || op == 6 || op == 7 || op == 8 || op == 18)
}

/// Whether an instruction with opcode `op` at `pc` lies, with its successor if
/// it needs one, inside memory.
pub open spec fn fits(op: u16, pc: int) -> bool {
    let end = pc + 1 + crate::isa::arity_of(op);
    if falls_through(op) { end < 32768 } else { end <= 32768 }
}

/// The result of EQ, GT, ADD, MULT, AND and OR on two operand values.
pub open spec fn alu(op: u16, x: u16, y: u16) -> u16 {
    if op == 4 {
        if x == y { 1 } else { 0 }
    } else if op == 5 {
        if x > y { 1 } else { 0 }
    } else if op == 9 {
        ((x + y) % 32768) as u16
    } else if op == 10 {
        ((x * y) % 32768) as u16
    } else if op == 12 {
        (x & y) & 0x7fff
    } else {
        (x | y) & 0x7fff
    }
}

/// Follows a jump to `t`, or faults when `t` lies outside memory.
pub open spec fn jump(m: VmModel, t: u16) -> (VmModel, Event) {
    if t < 32768 { (m.goto(t as int), Event::Continue) } else { (m.halt(), Event::Fault(Fault::AddressOutOfRange)) }
}

pub open spec fn bad_operand(m: VmModel) -> (VmModel, Event) {
    (m.halt(), Event::Fault(Fault::InvalidOperand))
}

/// The effect of a valid opcode other than IN, whose slots all lie in memory.
pub open spec fn execute(m: VmModel, op: u16) -> (VmModel, Event) {
    let pc = m.pc as int;
    let (a, b, c) = (pc + 1, pc + 2, pc + 3);
    if op == 0 {
        (m.halt(), Event::Halted)
    } else if op == 1 {
        match (m.dest(a), m.read(b)) {
            (Some(r), Some(v)) => (m.write(r, v, 3), Event::Continue),
            _ => bad_operand(m),
        }
    } else if op == 2 {
        match m.read(a) {
            Some(v) => (VmModel { stack: m.stack.push(v), pc: (m.pc + 2) as u16, ..m }, Event::Continue),
            None => bad_operand(m),
        }
    } else if op == 3 {
        match m.dest(a) {
            Some(r) => if m.stack.len() == 0 {
                (m.halt(), Event::Fault(Fault::EmptyStack))
            } else {
                (VmModel { stack: m.stack.drop_last(), ..m }.write(r, m.stack.last(), 2), Event::Continue)
            },
            None => bad_operand(m),
        }
    } else if op == 6 {
        match m.read(a) {
            Some(t) => jump(m, t),
            None => bad_operand(m),
        }
    } else if op == 7 || op == 8 {
        match (m.read(a), m.read(b)) {
            (Some(x), Some(t)) => if (x != 0) == (op == 7) {
                jump(m, t)
            } else if pc + 3 < 32768 {
                (m.goto(pc + 3), Event::Continue)
            } else {
                (m.halt(), Event::Fault(Fault::AddressOutOfRange))
            },
            _ => bad_operand(m),
        }
    } else if op == 11 {
        match (m.dest(a), m.read(b), m.read(c)) {
            (Some(r), Some(x), Some(y)) => if y == 0 {
                (m.halt(), Event::Fault(Fault::DivideByZero))
            } else {
                (m.write(r, (x % y) as u16, 4), Event::Continue)
            },
            _ => bad_operand(m),
        }
    } else if op == 4 || op == 5 || op == 9 || op == 10 || op == 12 || op == 13 {
        match (m.dest(a), m.read(b), m.read(c)) {
            (Some(r), Some(x), Some(y)) => (m.write(r, alu(op, x, y), 4), Event::Continue),
            _ => bad_operand(m),
        }
    } else if op == 14 {
        match (m.dest(a), m.read(b)) {
            (Some(r), Some(x)) => (m.write(r, !x & 0x7fff, 3), Event::Continue),
            _ => bad_operand(m),
        }
    } else if op == 15 {
        match (m.dest(a), m.read(b)) {
            (Some(r), Some(t)) => if t < 32768 {
                if m.memory[t as int] < 32768 {
                    (m.write(r, m.memory[t as int], 3), Event::Continue)
                } else {
                    bad_operand(m)
                }
            } else {
                (m.halt(), Event::Fault(Fault::AddressOutOfRange))
            },
            _ => bad_operand(m),
        }
    } else if op == 16 {
        match (m.read(a), m.read(b)) {
            (Some(t), Some(v)) => if t < 32768 {
                (VmModel { memory: m.memory.update(t as int, v), pc: (m.pc + 3) as u16, ..m }, Event::Continue)
            } else {
                (m.halt(), Event::Fault(Fault::AddressOutOfRange))
            },
            _ => bad_operand(m),
        }
    } else if op == 17 {
        match m.read(a) {
            Some(t) => if t < 32768 {
                (VmModel { stack: m.stack.push((m.pc + 2) as u16), pc: t, ..m }, Event::Continue)
            } else {
                (m.halt(), Event::Fault(Fault::AddressOutOfRange))
            },
            None => bad_operand(m),
        }
    } else if op == 18 {
        if m.stack.len() == 0 {
            (m.halt(), Event::Halted)
        } else {
            let t = m.stack.last();
            if t < 32768 {
                (VmModel { stack: m.stack.drop_last(), pc: t, ..m }, Event::Continue)
            } else {
                (m.halt(), Event::Fault(Fault::AddressOutOfRange))
            }
        }
    } else if op == 19 {
        match m.read(a) {
            Some(v) => (m.goto(pc + 2), Event::Output((v & 0xff) as u8)),
            None => bad_operand(m),
        }
    } else {
        (m.goto(pc + 1), Event::Continue)
    }
}

/// One fetch–decode–execute step on a machine and its pending input.
pub open spec fn step_spec(m: VmModel, q: Seq<u16>) -> (VmModel, Seq<u16>, Event) {
    if m.halted {
        (m, q, Event::Halted)
    } else {
        let op = m.memory[m.pc as int];
        if op > 21 {
            (m.halt(), q, Event::Fault(Fault::InvalidOpcode))
        } else if !fits(op, m.pc as int) {
            (m.halt(), q, Event::Fault(Fault::AddressOutOfRange))
        } else if op == 20 {
            match m.dest(m.pc + 1) {
                Some(r) => if q.len() == 0 {
                    (m, q, Event::NeedInput)
                } else {
                    (m.write(r, q[0], 2), q.drop_first(), Event::Continue)
                },
                None => (m.halt(), q, Event::Fault(Fault::InvalidOperand)),
            }
        } else {
            let (m2, e) = execute(m, op);
            (m2, q, e)
        }
    }
}

/// The executable machine state.
pub struct Vm {
    memory: Vec<u16>,
    registers: Vec<u16>,
    stack: Vec<u16>,
    pc: u16,
    halted: bool,
}

impl View for Vm {
    type V = VmModel;

    closed spec fn view(&self) -> VmModel {
        VmModel {
            memory: self.memory@,
            registers: self.registers@,
            stack: self.stack@,
            pc: self.pc,
            halted: self.halted,
        }
    }
}

impl Vm {
    /// A running machine with zeroed memory and registers, an empty stack and PC 0.
    pub fn new() -> (r: Vm)
        ensures
            r@.wf(),
            r@.memory == Seq::new(32768, |i: int| 0u16),
            r@.registers == Seq::new(8, |i: int| 0u16),
            r@.stack == Seq::<u16>::empty(),
            r@.pc == 0,
            !r@.halted,
    {
        let mut memory: Vec<u16> = Vec::new();
        while memory.len() < MEMORY_SIZE as usize
            invariant
                memory.len() <= 32768,
                forall|i: int| 0 <= i < memory.len() ==> memory@[i] == 0u16,
            decreases 32768 - memory.len(),
        {
            memory.push(0);
        }
        let registers: Vec<u16> = vec![0u16; 8];
        let r = Vm { memory, registers, stack: Vec::new(), pc: 0, halted: false };
        assert(r@.memory =~= Seq::new(32768, |i: int| 0u16));
        assert(r@.registers =~= Seq::new(8, |i: int| 0u16));
        r
    }

    /// A copy of the machine that shares nothing with it.
    pub fn duplicate(&self) -> (r: Vm)
        ensures
            r@ == self@,
    {
        let mut memory: Vec<u16> = Vec::new();
        let mut i: usize = 0;
        while i < self.memory.len()
            invariant
                i <= self.memory.len(),
                memory@ == self.memory@.subrange(0, i as int),
            decreases self.memory.len() - i,
        {
            memory.push(self.memory[i]);
            i = i + 1;
        }
        let mut registers: Vec<u16> = Vec::new();
        let mut i: usize = 0;
        while i < self.registers.len()
            invariant
                i <= self.registers.len(),
                registers@ == self.registers@.subrange(0, i as int),
            decreases self.registers.len() - i,
        {
            registers.push(self.registers[i]);
            i = i + 1;
        }
        let mut stack: Vec<u16> = Vec::new();
        let mut i: usize = 0;
        while i < self.stack.len()
            invariant
                i <= self.stack.len(),
                stack@ == self.stack@.subrange(0, i as int),
            decreases self.stack.len() - i,
        {
            stack.push(self.stack[i]);
            i = i + 1;
        }
        assert(memory@ =~= self.memory@);
        assert(registers@ =~= self.registers@);
        assert(stack@ =~= self.stack@);
        Vm { memory, registers, stack, pc: self.pc, halted: self.halted }
    }

    /// The program counter.
    pub fn pc(&self) -> (r: u16)
        ensures
            r == self@.pc,
    {
        self.pc
    }

    /// Whether the machine has halted.
    pub fn is_halted(&self) -> (r: bool)
        ensures
            r == self@.halted,
    {
        self.halted
    }

    /// The word at a memory address.
    pub fn word_at(&self, addr: u16) -> (r: u16)
        requires
            self@.wf(),
            addr < 32768,
        ensures
            r == self@.memory[addr as int],
    {
        self.memory[addr as usize]
    }

    /// The value of register `r`.
    pub fn register(&self, r: usize) -> (v: u16)
        requires
            self@.wf(),
            r < 8,
        ensures
            v == self@.registers[r as int],
    {
        self.registers[r]
    }

    /// The number of entries on the stack.
    pub fn stack_len(&self) -> (r: usize)
        ensures
            r == self@.stack.len(),
    {
        self.stack.len()
    }

    /// The stack entry at position `i`, counted from the bottom.
    pub fn stack_entry(&self, i: usize) -> (v: u16)
        requires
            i < self@.stack.len(),
        ensures
            v == self@.stack[i as int],
    {
        self.stack[i]
    }

    /// Stores `v` into register `r`, as the operator's `set` does.
    pub fn set_register(&mut self, r: usize, v: u16)
        requires
            old(self)@.wf(),
            r < 8,
        ensures
            final(self)@ == (VmModel { registers: old(self)@.registers.update(r as int, v), ..old(self)@ }),
    {
        self.registers.set(r, v);
    }

    /// Places an image at address 0 and zeroes the rest of memory; the PC
    /// returns to 0, while registers, stack and run state stay as they are.
    pub fn load_words(&mut self, words: &Vec<u16>)
        requires
            old(self)@.wf(),
            words.len() <= 32768,
        ensures
            final(self)@.wf(),
            final(self)@.memory == Seq::new(32768, |i: int| if i < words@.len() { words@[i] } else { 0u16 }),
            final(self)@.registers == old(self)@.registers,
            final(self)@.stack == old(self)@.stack,
            final(self)@.pc == 0,
            final(self)@.halted == old(self)@.halted,
    {
        let mut i: usize = 0;
        while i < MEMORY_SIZE as usize
            invariant
                i <= 32768,
                words.len() <= 32768,
                self@.memory.len() == 32768,
                self@.registers == old(self)@.registers,
                self@.stack == old(self)@.stack,
                self@.pc == old(self)@.pc,
                self@.halted == old(self)@.halted,
                forall|j: int| 0 <= j < i ==> #[trigger] self@.memory[j] == if j < words@.len() { words@[j] } else { 0u16 },
            decreases 32768 - i,
        {
            let w = if i < words.len() { words[i] } else { 0 };
            self.memory.set(i, w);
            i = i + 1;
        }
        self.pc = 0;
        assert(self@.memory =~= Seq::new(32768, |i: int| if i < words@.len() { words@[i] } else { 0u16 }));
    }

    /// READ of the operand slot at `addr`.
    fn read_value(&self, addr: usize) -> (r: Option<u16>)
        requires
            self@.wf(),
        ensures
            r == self@.read(addr as int),
    {
        if addr >= self.memory.len() {
            return None;
        }
        let w = self.memory[addr];
        if w < REGISTER_BASE {
            Some(w)
        } else if is_register(w) {
            Some(self.registers[(w - REGISTER_BASE) as usize])
        } else {
            None
        }
    }

    /// The register that the destination slot at `addr` names.
    fn get_register(&self, addr: usize) -> (r: Option<usize>)
        requires
            self@.wf(),
        ensures
            r matches Some(i) ==> i < 8 && self@.dest(addr as int) == Some(i as int),
            r is None ==> self@.dest(addr as int) is None,
    {
        if addr < self.memory.len() && is_register(self.memory[addr]) {
            Some((self.memory[addr] - REGISTER_BASE) as usize)
        } else {
            None
        }
    }

    fn fail(&mut self, f: Fault) -> (e: Event)
        ensures
            final(self)@ == old(self)@.halt(),
            e == Event::Fault(f),
    {
        self.halted = true;
        Event::Fault(f)
    }

    fn write(&mut self, r: usize, v: u16, n: u16)
        requires
            old(self)@.wf(),
            r < 8,
            old(self)@.pc + n < 32768,
        ensures
            final(self)@ == old(self)@.write(r as int, v, n as int),
    {
        self.registers.set(r, v);
        self.pc = self.pc + n;
    }

    /// Runs a valid opcode other than IN whose slots lie in memory.
    #[verifier::rlimit(50)]
    fn execute_op(&mut self, op: u16) -> (e: Event)
        requires
            old(self)@.wf(),
            !old(self)@.halted,
            op == old(self)@.memory[old(self)@.pc as int],
            op <= 21,
            op != 20,
            fits(op, old(self)@.pc as int),
        ensures
            (final(self)@, e) == execute(old(self)@, op),
    {
        let pc = self.pc as usize;
        let (a, b, c) = (pc + 1, pc + 2, pc + 3);
        match op {
            0 => {
                self.halted = true;
                Event::Halted
            },
            1 => match (self.get_register(a), self.read_value(b)) {
                (Some(r), Some(v)) => {
                    self.write(r, v, 3);
                    Event::Continue
                },
                _ => self.fail(Fault::InvalidOperand),
            },
            2 => match self.read_value(a) {
                Some(v) => {
                    self.stack.push(v);
                    self.pc = self.pc + 2;
                    Event::Continue
                },
                None => self.fail(Fault::InvalidOperand),
            },
            3 => match self.get_register(a) {
                Some(r) => match self.stack.pop() {
                    Some(v) => {
                        self.write(r, v, 2);
                        Event::Continue
                    },
                    None => self.fail(Fault::EmptyStack),
                },
                None => self.fail(Fault::InvalidOperand),
            },
            6 => match self.read_value(a) {
                Some(t) => self.jump(t),
                None => self.fail(Fault::InvalidOperand),
            },
            7 | 8 => match (self.read_value(a), self.read_value(b)) {
                (Some(x), Some(t)) => {
                    if (x != 0) == (op == 7) {
                        self.jump(t)
                    } else if pc + 3 < MEMORY_SIZE as usize {
                        self.pc = self.pc + 3;
                        Event::Continue
                    } else {
                        self.fail(Fault::AddressOutOfRange)
                    }
                },
                _ => self.fail(Fault::InvalidOperand),
            },
            11 => match (self.get_register(a), self.read_value(b), self.read_value(c)) {
                (Some(r), Some(x), Some(y)) => {
                    if y == 0 {
                        self.fail(Fault::DivideByZero)
                    } else {
                        self.write(r, x % y, 4);
                        Event::Continue
                    }
                },
                _ => self.fail(Fault::InvalidOperand),
            },
            4 | 5 | 9 | 10 | 12 | 13 => match (self.get_register(a), self.read_value(b), self.read_value(c)) {
                (Some(r), Some(x), Some(y)) => {
                    self.write(r, compute(op, x, y), 4);
                    Event::Continue
                },
                _ => self.fail(Fault::InvalidOperand),
            },
            14 => match (self.get_register(a), self.read_value(b)) {
                (Some(r), Some(x)) => {
                    self.write(r, !x & 0x7fff, 3);
                    Event::Continue
                },
                _ => self.fail(Fault::InvalidOperand),
            },
            15 => match (self.get_register(a), self.read_value(b)) {
                (Some(r), Some(t)) => {
                    if t < MEMORY_SIZE {
                        let v = self.memory[t as usize];
                        if v < MEMORY_SIZE {
                            self.write(r, v, 3);
                            Event::Continue
                        } else {
                            self.fail(Fault::InvalidOperand)
                        }
                    } else {
                        self.fail(Fault::AddressOutOfRange)
                    }
                },
                _ => self.fail(Fault::InvalidOperand),
            },
            16 => match (self.read_value(a), self.read_value(b)) {
                (Some(t), Some(v)) => {
                    if t < MEMORY_SIZE {
                        self.memory.set(t as usize, v);
                        self.pc = self.pc + 3;
                        Event::Continue
                    } else {
                        self.fail(Fault::AddressOutOfRange)
                    }
                },
                _ => self.fail(Fault::InvalidOperand),
            },
            17 => match self.read_value(a) {
                Some(t) => {
                    if t < MEMORY_SIZE {
                        self.stack.push(self.pc + 2);
                        self.pc = t;
                        Event::Continue
                    } else {
                        self.fail(Fault::AddressOutOfRange)
                    }
                },
                None => self.fail(Fault::InvalidOperand),
            },
            18 => {
                let n = self.stack.len();
                if n == 0 {
                    self.halted = true;
                    Event::Halted
                } else {
                    let t = self.stack[n - 1];
                    if t < MEMORY_SIZE {
                        self.stack.pop();
                        self.pc = t;
                        Event::Continue
                    } else {
                        self.fail(Fault::AddressOutOfRange)
                    }
                }
            },
            19 => match self.read_value(a) {
                Some(v) => {
                    self.pc = self.pc + 2;
                    Event::Output((v & 0xff) as u8)
                },
                None => self.fail(Fault::InvalidOperand),
            },
            _ => {
                self.pc = self.pc + 1;
                Event::Continue
            },
        }
    }

    fn jump(&mut self, t: u16) -> (e: Event)
        ensures
            (final(self)@, e) == jump(old(self)@, t),
    {
        if t < MEMORY_SIZE {
            self.pc = t;
            Event::Continue
        } else {
            self.fail(Fault::AddressOutOfRange)
        }
    }

    /// Executes one instruction; IN draws its character from the front of `queue`.
    pub fn step(&mut self, queue: &mut Vec<u16>) -> (e: Event)
        requires
            old(self)@.wf(),
        ensures
            (final(self)@, final(queue)@, e) == step_spec(old(self)@, old(queue)@),
            final(self)@.wf(),
    {
        if self.halted {
            return Event::Halted;
        }
        let op = self.memory[self.pc as usize];
        if op > 21 {
            return self.fail(Fault::InvalidOpcode);
        }
        let end = self.pc as usize + 1 + crate::isa::arity(op) as usize;
        let falls = !(op == 0 || op == 6 || op == 7 || op == 8 || op == 18);
        if end > MEMORY_SIZE as usize || (falls && end == MEMORY_SIZE as usize) {
            return self.fail(Fault::AddressOutOfRange);
        }
        if op == 20 {
            match self.get_register(self.pc as usize + 1) {
                Some(r) => {
                    if queue.len() == 0 {
                        Event::NeedInput
                    } else {
                        let ch = queue.remove(0);
                        self.write(r, ch, 2);
                        Event::Continue
                    }
                },
                None => self.fail(Fault::InvalidOperand),
            }
        } else {
            self.execute_op(op)
        }
    }
}

/// Up to `n` steps: stops early at the first event other than `Continue` and
/// `Output`; gives the final machine, the input left over, the bytes emitted
/// in order, and the event that stopped it (`Continue` when `n` ran out).
pub open spec fn run_spec(m: VmModel, q: Seq<u16>, n: nat) -> (VmModel, Seq<u16>, Seq<u8>, Event)
    decreases n,
{
    if n == 0 {
        (m, q, Seq::empty(), Event::Continue)
    } else {
        let (m1, q1, e) = step_spec(m, q);
        match e {
            Event::Continue => run_spec(m1, q1, (n - 1) as nat),
            Event::Output(b) => {
                let (m2, q2, out, e2) = run_spec(m1, q1, (n - 1) as nat);
                (m2, q2, seq![b] + out, e2)
            },
            _ => (m1, q1, Seq::empty(), e),
        }
    }
}

impl Vm {
    /// Runs at most `budget` steps, appending every emitted byte to `out`.
    pub fn run(&mut self, queue: &mut Vec<u16>, budget: u64, out: &mut Vec<u8>) -> (e: Event)
        requires
            old(self)@.wf(),
        ensures
            final(self)@.wf(),
            final(self)@ == run_spec(old(self)@, old(queue)@, budget as nat).0,
            final(queue)@ == run_spec(old(self)@, old(queue)@, budget as nat).1,
            final(out)@ == old(out)@ + run_spec(old(self)@, old(queue)@, budget as nat).2,
            e == run_spec(old(self)@, old(queue)@, budget as nat).3,
    {
        let ghost m0 = self@;
        let ghost q0 = queue@;
        let ghost o0 = out@;
        let mut left: u64 = budget;
        while left > 0
            invariant
                self@.wf(),
                m0 == old(self)@,
                q0 == old(queue)@,
                o0 == old(out)@,
                ({
                    let (m, q, bytes, ev) = run_spec(m0, q0, budget as nat);
                    let (mr, qr, br, er) = run_spec(self@, queue@, left as nat);
                    &&& m == mr
                    &&& q == qr
                    &&& ev == er
                    &&& o0 + bytes == out@ + br
                }),
            decreases left,
        {
            let ghost before = (self@, queue@);
            let e = self.step(queue);
            left = left - 1;
            match e {
                Event::Continue => {},
                Event::Output(b) => {
                    proof {
                        let (_, _, br, _) = run_spec(self@, queue@, left as nat);
                        assert(out@.push(b) + br =~= out@ + (seq![b] + br));
                    }
                    out.push(b);
                },
                _ => {
                    proof {
                        assert(run_spec(before.0, before.1, (left + 1) as nat)
                            == (self@, queue@, Seq::<u8>::empty(), e));
                        assert(out@ + Seq::<u8>::empty() =~= out@);
                    }
                    return e;
                },
            }
        }
        proof {
            assert(out@ + Seq::<u8>::empty() =~= out@);
        }
        Event::Continue
    }
}

proof fn lemma_alu_in_range(op: u16, x: u16, y: u16)
    ensures
        alu(op, x, y) < 32768,
        !x & 0x7fff < 32768,
{
    assert((x & y) & 0x7fff <= 0x7fff) by (bit_vector);
    assert((x | y) & 0x7fff <= 0x7fff) by (bit_vector);
    assert(!x & 0x7fff <= 0x7fff) by (bit_vector);
}

/// Every step of a well-formed machine whose registers and stack hold 15-bit
/// values, fed 15-bit input, leaves the PC inside memory and every register
/// and stack entry a 15-bit value.
pub proof fn lemma_step_keeps_values_in_range(m: VmModel, q: Seq<u16>)
    requires
        m.wf(),
        m.values_in_range(),
        forall|i: int| 0 <= i < q.len() ==> #[trigger] q[i] < 32768,
    ensures
        step_spec(m, q).0.wf(),
        step_spec(m, q).0.values_in_range(),
        forall|i: int| 0 <= i < step_spec(m, q).1.len() ==> #[trigger] step_spec(m, q).1[i] < 32768,
{
    let pc = m.pc as int;
    if !m.halted {
        let op = m.memory[pc];
        assert forall|i: int| 0 <= i < m.memory.len() && m.read(i) is Some implies m.read(i)->0 < 32768 by {
            let w = m.memory[i];
            if 32768 <= w && w < 32776 {
                assert(m.registers[w - 32768] < 32768);
            }
        }
        if op <= 21 && fits(op, pc) {
            let (a, b, c) = (pc + 1, pc + 2, pc + 3);
            if op == 4 || op == 5 || op == 9 || op == 10 || op == 12 || op == 13 {
                if let (Some(r), Some(x), Some(y)) = (m.dest(a), m.read(b), m.read(c)) {
                    lemma_alu_in_range(op, x, y);
                }
            } else if op == 14 {
                if let (Some(r), Some(x)) = (m.dest(a), m.read(b)) {
                    lemma_alu_in_range(op, x, x);
                }
            } else if op == 11 {
                if let (Some(r), Some(x), Some(y)) = (m.dest(a), m.read(b), m.read(c)) {
                    if y != 0 {
                        assert(x % y <= x) by (nonlinear_arith)
                            requires
                                y != 0,
                        ;
                    }
                }
            } else if op == 3 {
                if m.stack.len() > 0 {
                    assert(m.stack[m.stack.len() - 1] < 32768);
                }
            } else if op == 18 {
                if m.stack.len() > 0 {
                    assert(m.stack[m.stack.len() - 1] < 32768);
                }
            } else if op == 20 {
                if q.len() > 0 {
                    assert(q[0] < 32768);
                }
            }
        }
    }
}

/// ADD, MULT, MOD, AND, OR and NOT write a 15-bit value, from operands that
/// are 15-bit values.
pub proof fn lemma_arithmetic_result_in_range(m: VmModel, q: Seq<u16>)
    requires
        m.wf(),
        m.values_in_range(),
        !m.halted,
        ({
            let op = m.memory[m.pc as int];
            op == 9 || op == 10 || op == 11 || op == 12 || op == 13 || op == 14
        }),
        step_spec(m, q).2 == Event::Continue,
    ensures
        m.dest(m.pc + 1) matches Some(r) && step_spec(m, q).0.registers[r] < 32768,
{
    lemma_step_keeps_values_in_range(m, Seq::empty());
    assert(step_spec(m, q).0 == step_spec(m, Seq::empty()).0);
}

/// ADD, MULT, MOD, AND, OR and NOT run whenever the instruction and its
/// successor lie in memory, the destination names a register, the sources
/// decode and (for MOD) the divisor is not zero: the destination receives the
/// operation's result, a 15-bit value, and the PC moves past the instruction.
pub proof fn lemma_arithmetic_writes_result(m: VmModel, q: Seq<u16>, r: int, x: u16, y: u16)
    requires
        m.wf(),
        m.values_in_range(),
        !m.halted,
        ({
            let op = m.memory[m.pc as int];
            op == 9 || op == 10 || op == 11 || op == 12 || op == 13 || op == 14
        }),
        fits(m.memory[m.pc as int], m.pc as int),
        m.dest(m.pc + 1) == Some(r),
        m.read(m.pc + 2) == Some(x),
        m.memory[m.pc as int] != 14 ==> m.read(m.pc + 3) == Some(y),
        m.memory[m.pc as int] == 11 ==> y != 0,
    ensures
        step_spec(m, q).2 == Event::Continue,
        step_spec(m, q).0 == m.write(
            r,
            if m.memory[m.pc as int] == 11 {
                (x % y) as u16
            } else if m.memory[m.pc as int] == 14 {
                !x & 0x7fff
            } else {
                alu(m.memory[m.pc as int], x, y)
            },
            if m.memory[m.pc as int] == 14 { 3 } else { 4 },
        ),
        step_spec(m, q).0.registers[r] < 32768,
{
    lemma_arithmetic_result_in_range(m, q);
}

/// OUT emits the low byte of the value of its operand.
pub proof fn lemma_out_emits_low_byte(m: VmModel, q: Seq<u16>, v: u16)
    requires
        m.wf(),
        !m.halted,
        m.memory[m.pc as int] == 19,
        fits(19, m.pc as int),
        m.read(m.pc + 1) == Some(v),
    ensures
        step_spec(m, q).2 == Event::Output((v & 0xff) as u8),
        step_spec(m, q).0 == m.goto(m.pc + 2),
{
}

/// Two runs from the same machine state on the same pending input end alike:
/// same state, same leftover input, same bytes emitted, same stopping event.
pub proof fn lemma_transcript_determined(m1: VmModel, m2: VmModel, q1: Seq<u16>, q2: Seq<u16>, n: nat)
    requires
        m1 == m2,
        q1 == q2,
    ensures
        run_spec(m1, q1, n) == run_spec(m2, q2, n),
{
}

/// EQ, GT, ADD, MULT, AND and OR on two operand values.
fn compute(op: u16, x: u16, y: u16) -> (r: u16)
    requires
        op == 4 || op == 5 || op == 9 || op == 10 || op == 12 || op == 13,
    ensures
        r == alu(op, x, y),
{
    match op {
        4 => if x == y { 1 } else { 0 },
        5 => if x > y { 1 } else { 0 },
        9 => ((x as u32 + y as u32) % 32768) as u16,
        10 => {
            proof {
                assert((x as u32) * (y as u32) <= 65535u32 * 65535u32) by (nonlinear_arith)
                    requires
                        x <= 65535,
                        y <= 65535,
                ;
            }
            ((x as u32 * y as u32) % 32768) as u16
        },
        12 => (x & y) & 0x7fff,
        _ => (x | y) & 0x7fff,
    }
}

} // verus!
