//! The machine together with its console: input queue, snapshot and debugger.
use vstd::prelude::*;
use crate::console::{command_of, debug_command_of, parse_command, parse_debug_command, Command, DebugCommand};
use crate::image::{decode_image, words_of, ImageError};
use crate::machine::{run_spec, step_spec, Event, Vm, VmModel};

verus! {

/// What handling a line of console input did.
#[derive(Clone, Copy, Debug, PartialEq, Eq, Structural)]
pub enum Reply {
    /// The state was snapshot.
    Saved,
    /// The snapshot replaced the live state.
    Loaded,
    /// Debug rendering is now on (`true`) or off.
    Debugging(bool),
    /// Stepping mode is on.
    Stepping,
    /// Register R was set to V.
    RegisterSet(u16, u16),
    /// A `set` line that was not understood; nothing changed.
    BadSet,
    /// The operator asked to see the registers; nothing changed.
    ShowRegisters,
    /// The operator asked to leave; nothing changed.
    Quit,
    /// The line was queued for the guest program.
    Queued,
    /// The line held a byte outside ASCII and was dropped.
    NotAscii,
}

/// The mathematical state of a console session.
pub struct CpuModel {
    pub vm: VmModel,
    pub snapshot: VmModel,
    pub queue: Seq<u16>,
    pub debugging: bool,
    pub stepping: bool,
    pub breakpoint: u16,
}

impl CpuModel {
    pub open spec fn wf(self) -> bool {
        self.vm.wf() && self.snapshot.wf()
    }
}

/// The state after `save`: the snapshot is the live machine.
pub open spec fn saved(c: CpuModel) -> CpuModel {
    CpuModel { snapshot: c.vm, ..c }
}

/// The state after `load`: the live machine is the snapshot.
pub open spec fn loaded(c: CpuModel) -> CpuModel {
    CpuModel { vm: c.snapshot, ..c }
}

pub open spec fn is_ascii(line: Seq<u8>) -> bool {
    forall|i: int| 0 <= i < line.len() ==> #[trigger] line[i] < 128
}

/// The words a line hands the guest: one per byte, ending in a newline.
pub open spec fn guest_words(line: Seq<u8>) -> Seq<u16> {
    let w = Seq::new(line.len(), |i: int| line[i] as u16);
    if line.len() > 0 && line.last() == 10 { w } else { w.push(10) }
}

/// The effect of a line of console input on a session.
pub open spec fn after_line(c: CpuModel, line: Seq<u8>) -> (CpuModel, Reply) {
    match command_of(line) {
        Command::Save => (saved(c), Reply::Saved),
        Command::Load => (loaded(c), Reply::Loaded),
        Command::ToggleDebug => (CpuModel { debugging: !c.debugging, ..c }, Reply::Debugging(!c.debugging)),
        Command::Step => (CpuModel { stepping: true, ..c }, Reply::Stepping),
        Command::SetRegister(r, v) => (
            CpuModel { vm: VmModel { registers: c.vm.registers.update(r as int, v), ..c.vm }, ..c },
            Reply::RegisterSet(r, v),
        ),
        Command::BadSet => (c, Reply::BadSet),
        Command::ShowRegisters => (c, Reply::ShowRegisters),
        Command::Quit => (c, Reply::Quit),
        Command::Guest => if is_ascii(line) {
            (CpuModel { queue: c.queue + guest_words(line), ..c }, Reply::Queued)
        } else {
            (c, Reply::NotAscii)
        },
    }
}

/// The pre-fetch hook: reaching the breakpoint turns stepping mode on.
pub open spec fn after_pre_fetch(c: CpuModel) -> CpuModel {
    if c.debugging && c.breakpoint == c.vm.pc { CpuModel { stepping: true, ..c } } else { c }
}

/// The effect of a line typed at the stepping prompt.
pub open spec fn after_debug_line(c: CpuModel, line: Seq<u8>) -> CpuModel {
    match debug_command_of(line) {
        DebugCommand::Break(n) => CpuModel { breakpoint: n, stepping: false, ..c },
        DebugCommand::Continue => CpuModel { stepping: false, ..c },
        _ => c,
    }
}

/// One line of the debugger's disassembly window.
pub struct Listing {
    /// The address of the instruction.
    pub addr: u16,
    /// The word at that address.
    pub opcode: u16,
    /// The raw words of its operand slots (none for a word that is no opcode).
    pub operands: Vec<u16>,
    /// Whether this is the instruction at the PC.
    pub current: bool,
}

/// First address of the debugger's window around `pc`.
pub open spec fn window_start(pc: int) -> int {
    if pc >= 3 { pc - 3 } else { 0 }
}

/// One past the last address of the debugger's window around `pc`.
pub open spec fn window_end(pc: int) -> int {
    if pc + 7 <= 32768 { pc + 7 } else { 32768 }
}

/// The operand words shown after the word at `addr`, cut at the end of memory.
pub open spec fn shown_operands(m: VmModel, addr: int) -> Seq<u16> {
    let op = m.memory[addr];
    let k = if op <= 21 { crate::isa::arity_of(op) as int } else { 0 };
    let end = if addr + 1 + k <= 32768 { addr + 1 + k } else { 32768 };
    m.memory.subrange(addr + 1, end)
}

/// The last (up to) five stack entries, bottom first.
pub open spec fn stack_top_of(m: VmModel) -> Seq<u16> {
    let n = m.stack.len() as int;
    m.stack.subrange(if n >= 5 { n - 5 } else { 0 }, n)
}

/// A Synacor machine with its console session.
pub struct CPU {
    vm: Vm,
    snapshot: Vm,
    input_queue: Vec<u16>,
    debugging: bool,
    stepping: bool,
    breakpoint: u16,
}

impl View for CPU {
    type V = CpuModel;

    closed spec fn view(&self) -> CpuModel {
        CpuModel {
            vm: self.vm@,
            snapshot: self.snapshot@,
            queue: self.input_queue@,
            debugging: self.debugging,
            stepping: self.stepping,
            breakpoint: self.breakpoint,
        }
    }
}

impl CPU {
    /// A machine with empty memory, registers and stack, running at PC 0; the
    /// snapshot is that same state, debugging is off, stepping mode is armed
    /// and the breakpoint is address 0.
    pub fn new() -> (r: CPU)
        ensures
            r@.wf(),
            r@.vm.memory == Seq::new(32768, |i: int| 0u16),
            r@.vm.registers == Seq::new(8, |i: int| 0u16),
            r@.vm.stack == Seq::<u16>::empty(),
            r@.vm.pc == 0,
            !r@.vm.halted,
            r@.snapshot == r@.vm,
            r@.queue == Seq::<u16>::empty(),
            !r@.debugging,
            r@.stepping,
            r@.breakpoint == 0,
    {
        CPU {
            vm: Vm::new(),
            snapshot: Vm::new(),
            input_queue: Vec::new(),
            debugging: false,
            stepping: true,
            breakpoint: 0,
        }
    }

    /// Loads an image (the bytes of the image file): its words fill memory from
    /// address 0, the rest of memory is zero, and the PC returns to 0; registers,
    /// stack and run state are left as they are, and the snapshot becomes a copy
    /// of the freshly loaded machine. An image of
    /// odd length or of more words than memory is refused and changes nothing.
    pub fn read_binary(&mut self, bytes: &Vec<u8>) -> (r: Result<(), ImageError>)
        requires
            old(self)@.wf(),
        ensures
            final(self)@.wf(),
            bytes@.len() % 2 == 1 ==> r == Err::<(), ImageError>(ImageError::OddLength),
            bytes@.len() % 2 == 0 && bytes@.len() > 65536 ==> r == Err::<(), ImageError>(ImageError::TooLarge),
            r is Err ==> final(self)@ == old(self)@,
            bytes@.len() % 2 == 0 && bytes@.len() <= 65536 ==> r is Ok,
            r is Ok ==> ({
                let words = words_of(bytes@);
                &&& final(self)@.vm.memory == Seq::new(32768, |i: int| if i < words.len() { words[i] } else { 0u16 })
                &&& final(self)@.vm.registers == old(self)@.vm.registers
                &&& final(self)@.vm.stack == old(self)@.vm.stack
                &&& final(self)@.vm.pc == 0
                &&& final(self)@.vm.halted == old(self)@.vm.halted
                &&& final(self)@.snapshot == final(self)@.vm
                &&& final(self)@.queue == old(self)@.queue
                &&& final(self)@.debugging == old(self)@.debugging
                &&& final(self)@.stepping == old(self)@.stepping
                &&& final(self)@.breakpoint == old(self)@.breakpoint
            }),
    {
        match decode_image(bytes) {
            Ok(words) => {
                self.vm.load_words(&words);
                self.snapshot = self.vm.duplicate();
                Ok(())
            },
            Err(e) => Err(e),
        }
    }

    /// Executes one instruction; IN takes its character from the input queue.
    pub fn step(&mut self) -> (e: Event)
        requires
            old(self)@.wf(),
        ensures
            final(self)@.wf(),
            (final(self)@.vm, final(self)@.queue, e) == step_spec(old(self)@.vm, old(self)@.queue),
            final(self)@.snapshot == old(self)@.snapshot,
            final(self)@.debugging == old(self)@.debugging,
            final(self)@.stepping == old(self)@.stepping,
            final(self)@.breakpoint == old(self)@.breakpoint,
    {
        self.vm.step(&mut self.input_queue)
    }

    /// Executes up to `budget` instructions, stopping at the first event other
    /// than `Continue` or `Output`; every emitted byte is appended to `out`.
    pub fn run(&mut self, budget: u64, out: &mut Vec<u8>) -> (e: Event)
        requires
            old(self)@.wf(),
        ensures
            final(self)@.wf(),
            final(self)@.vm == run_spec(old(self)@.vm, old(self)@.queue, budget as nat).0,
            final(self)@.queue == run_spec(old(self)@.vm, old(self)@.queue, budget as nat).1,
            final(out)@ == old(out)@ + run_spec(old(self)@.vm, old(self)@.queue, budget as nat).2,
            e == run_spec(old(self)@.vm, old(self)@.queue, budget as nat).3,
            final(self)@.snapshot == old(self)@.snapshot,
            final(self)@.debugging == old(self)@.debugging,
            final(self)@.stepping == old(self)@.stepping,
            final(self)@.breakpoint == old(self)@.breakpoint,
    {
        self.vm.run(&mut self.input_queue, budget, out)
    }

    /// Takes a snapshot of the live machine.
    pub fn save(&mut self)
        ensures
            final(self)@ == saved(old(self)@),
    {
        self.snapshot = self.vm.duplicate();
    }

    /// Replaces the live machine with a copy of the snapshot.
    pub fn load(&mut self)
        ensures
            final(self)@ == loaded(old(self)@),
    {
        self.vm = self.snapshot.duplicate();
    }

    /// Appends a line for the guest to the input queue, ending it in a newline.
    fn enqueue(&mut self, line: &Vec<u8>)
        ensures
            final(self)@ == (CpuModel { queue: old(self)@.queue + guest_words(line@), ..old(self)@ }),
    {
        let ghost q0 = self.input_queue@;
        let mut i: usize = 0;
        while i < line.len()
            invariant
                i <= line@.len(),
                self.input_queue@ == q0 + Seq::new(i as nat, |k: int| line@[k] as u16),
                self.vm == old(self).vm,
                self.snapshot == old(self).snapshot,
                self.debugging == old(self).debugging,
                self.stepping == old(self).stepping,
                self.breakpoint == old(self).breakpoint,
                q0 == old(self).input_queue@,
            decreases line.len() - i,
        {
            self.input_queue.push(line[i] as u16);
            i = i + 1;
            assert(self.input_queue@ =~= q0 + Seq::new(i as nat, |k: int| line@[k] as u16));
        }
        if line.len() == 0 || line[line.len() - 1] != 10 {
            self.input_queue.push(10);
        }
        assert(self.input_queue@ =~= q0 + guest_words(line@));
    }

    fn ascii_only(line: &Vec<u8>) -> (r: bool)
        ensures
            r == is_ascii(line@),
    {
        let mut i: usize = 0;
        while i < line.len()
            invariant
                i <= line@.len(),
                forall|k: int| 0 <= k < i ==> line@[k] < 128,
            decreases line.len() - i,
        {
            if line[i] >= 128 {
                return false;
            }
            i = i + 1;
        }
        true
    }

    /// Handles a line read from the console while IN waits for input: an
    /// operator command acts on the session, any other line goes to the guest.
    pub fn handle_line(&mut self, line: &Vec<u8>) -> (r: Reply)
        requires
            old(self)@.wf(),
        ensures
            final(self)@.wf(),
            (final(self)@, r) == after_line(old(self)@, line@),
    {
        match parse_command(line) {
            Command::Save => {
                self.save();
                Reply::Saved
            },
            Command::Load => {
                self.load();
                Reply::Loaded
            },
            Command::ToggleDebug => {
                self.debugging = !self.debugging;
                Reply::Debugging(self.debugging)
            },
            Command::Step => {
                self.stepping = true;
                Reply::Stepping
            },
            Command::SetRegister(r, v) => {
                self.vm.set_register(r as usize, v);
                Reply::RegisterSet(r, v)
            },
            Command::BadSet => Reply::BadSet,
            Command::ShowRegisters => Reply::ShowRegisters,
            Command::Quit => Reply::Quit,
            Command::Guest => {
                if CPU::ascii_only(line) {
                    self.enqueue(line);
                    Reply::Queued
                } else {
                    Reply::NotAscii
                }
            },
        }
    }

    /// The hook run before each fetch: with debugging on, reaching the
    /// breakpoint turns stepping mode on. Tells whether the operator is to be
    /// asked before the next instruction.
    pub fn pre_fetch(&mut self) -> (prompt: bool)
        ensures
            final(self)@ == after_pre_fetch(old(self)@),
            prompt == (final(self)@.debugging && final(self)@.stepping),
    {
        if self.debugging && self.breakpoint == self.vm.pc() {
            self.stepping = true;
        }
        self.debugging && self.stepping
    }

    /// Handles a line typed at the stepping prompt.
    pub fn debug_line(&mut self, line: &Vec<u8>) -> (c: DebugCommand)
        ensures
            c == debug_command_of(line@),
            final(self)@ == after_debug_line(old(self)@, line@),
    {
        let c = parse_debug_command(line);
        match c {
            DebugCommand::Break(n) => {
                self.breakpoint = n;
                self.stepping = false;
            },
            DebugCommand::Continue => {
                self.stepping = false;
            },
            _ => {},
        }
        c
    }

    /// The program counter.
    pub fn pc(&self) -> (r: u16)
        ensures
            r == self@.vm.pc,
    {
        self.vm.pc()
    }

    /// Whether the machine has halted.
    pub fn is_halted(&self) -> (r: bool)
        ensures
            r == self@.vm.halted,
    {
        self.vm.is_halted()
    }

    /// The value of register `r`.
    pub fn register(&self, r: usize) -> (v: u16)
        requires
            self@.wf(),
            r < 8,
        ensures
            v == self@.vm.registers[r as int],
    {
        self.vm.register(r)
    }

    /// The word at a memory address.
    pub fn word_at(&self, addr: u16) -> (w: u16)
        requires
            self@.wf(),
            addr < 32768,
        ensures
            w == self@.vm.memory[addr as int],
    {
        self.vm.word_at(addr)
    }

    /// The number of entries on the stack.
    pub fn stack_len(&self) -> (r: usize)
        ensures
            r == self@.vm.stack.len(),
    {
        self.vm.stack_len()
    }

    /// The number of characters waiting for IN.
    pub fn queue_len(&self) -> (r: usize)
        ensures
            r == self@.queue.len(),
    {
        self.input_queue.len()
    }

    /// Whether debug rendering is on.
    pub fn is_debugging(&self) -> (r: bool)
        ensures
            r == self@.debugging,
    {
        self.debugging
    }

    /// Whether stepping mode is on.
    pub fn is_stepping(&self) -> (r: bool)
        ensures
            r == self@.stepping,
    {
        self.stepping
    }

    /// The breakpoint address.
    pub fn breakpoint(&self) -> (r: u16)
        ensures
            r == self@.breakpoint,
    {
        self.breakpoint
    }

    /// The last (up to) five stack entries, bottom first.
    pub fn stack_top(&self) -> (r: Vec<u16>)
        ensures
            r@ == stack_top_of(self@.vm),
    {
        let n = self.vm.stack_len();
        let mut i: usize = if n >= 5 { n - 5 } else { 0 };
        let ghost lo = i as int;
        let mut r: Vec<u16> = Vec::new();
        while i < n
            invariant
                n == self@.vm.stack.len(),
                lo <= i <= n,
                lo == (if n >= 5 { n - 5 } else { 0 }),
                r@ == self@.vm.stack.subrange(lo, i as int),
            decreases n - i,
        {
            r.push(self.vm.stack_entry(i));
            i = i + 1;
        }
        r
    }

    /// The instruction at `addr` as the debugger shows it.
    fn listing(&self, addr: u16) -> (l: Listing)
        requires
            self@.wf(),
            addr < 32768,
        ensures
            l.addr == addr,
            l.opcode == self@.vm.memory[addr as int],
            l.operands@ == shown_operands(self@.vm, addr as int),
            l.current == (addr == self@.vm.pc),
    {
        let op = self.vm.word_at(addr);
        let k: u16 = if op <= 21 { crate::isa::arity(op) } else { 0 };
        let end: u32 = if addr as u32 + 1 + k as u32 <= 32768 { addr as u32 + 1 + k as u32 } else { 32768 };
        let mut operands: Vec<u16> = Vec::new();
        let mut a: u32 = addr as u32 + 1;
        assert(a <= end);
        while a < end
            invariant
                self@.wf(),
                addr as u32 + 1 <= a,
                a <= end,
                end <= 32768,
                operands@ == self@.vm.memory.subrange(addr + 1, a as int),
            decreases end - a,
        {
            operands.push(self.vm.word_at(a as u16));
            a = a + 1;
        }
        Listing { addr, opcode: op, operands, current: addr == self.vm.pc() }
    }

    /// The disassembly window of the debugger: the instructions at PC-3
    /// through PC+6 that lie in memory, in address order.
    pub fn window(&self) -> (w: Vec<Listing>)
        requires
            self@.wf(),
        ensures
            w@.len() == window_end(self@.vm.pc as int) - window_start(self@.vm.pc as int),
            forall|i: int| 0 <= i < w@.len() ==> {
                let addr = window_start(self@.vm.pc as int) + i;
                &&& (#[trigger] w@[i]).addr == addr
                &&& w@[i].opcode == self@.vm.memory[addr]
                &&& w@[i].operands@ == shown_operands(self@.vm, addr)
                &&& w@[i].current == (addr == self@.vm.pc)
            },
    {
        let pc = self.vm.pc();
        let lo: u16 = if pc >= 3 { pc - 3 } else { 0 };
        let hi: u32 = if pc as u32 + 7 <= 32768 { pc as u32 + 7 } else { 32768 };
        let mut w: Vec<Listing> = Vec::new();
        let mut a: u32 = lo as u32;
        while a < hi
            invariant
                self@.wf(),
                pc == self@.vm.pc,
                lo as int == window_start(pc as int),
                hi as int == window_end(pc as int),
                lo <= a <= hi,
                w@.len() == a - lo,
                forall|i: int| 0 <= i < w@.len() ==> {
                    let addr = lo + i;
                    &&& (#[trigger] w@[i]).addr == addr
                    &&& w@[i].opcode == self@.vm.memory[addr]
                    &&& w@[i].operands@ == shown_operands(self@.vm, addr)
                    &&& w@[i].current == (addr == self@.vm.pc)
                },
            decreases hi - a,
        {
            let l = self.listing(a as u16);
            w.push(l);
            a = a + 1;
        }
        w
    }
}

/// Saving and then loading at once leaves the session as saving alone left it:
/// the live machine, the input queue and the debugger flags are those from
/// before the save.
pub proof fn lemma_save_then_load(c: CpuModel)
    ensures
        loaded(saved(c)) == saved(c),
        loaded(saved(c)).vm == c.vm,
        loaded(saved(c)).queue == c.queue,
        loaded(saved(c)).debugging == c.debugging,
        loaded(saved(c)).stepping == c.stepping,
        loaded(saved(c)).breakpoint == c.breakpoint,
{
}

/// Lines from the console keep every register, stack entry and queued
/// character of the live machine and of the snapshot a 15-bit value.
pub proof fn lemma_line_keeps_values_in_range(c: CpuModel, line: Seq<u8>)
    requires
        c.wf(),
        c.vm.values_in_range(),
        c.snapshot.values_in_range(),
        forall|i: int| 0 <= i < c.queue.len() ==> #[trigger] c.queue[i] < 32768,
    ensures
        after_line(c, line).0.wf(),
        after_line(c, line).0.vm.values_in_range(),
        after_line(c, line).0.snapshot.values_in_range(),
        forall|i: int| 0 <= i < after_line(c, line).0.queue.len() ==> #[trigger] after_line(c, line).0.queue[i] < 32768,
{
    if command_of(line) is Guest && is_ascii(line) {
        let g = guest_words(line);
        assert forall|i: int| 0 <= i < g.len() implies #[trigger] g[i] < 32768 by {
            if i < line.len() {
                assert(line[i] < 128);
            }
        }
        let q = c.queue + g;
        assert forall|i: int| 0 <= i < q.len() implies #[trigger] q[i] < 32768 by {
            if i >= c.queue.len() {
                assert(q[i] == g[i - c.queue.len()]);
            }
        }
    }
}

/// Whatever happened to the live machine after a save, a load that finds the
/// snapshot still in place restores registers, stack, memory, PC and run
/// state as they were at the save, and leaves the input queue as it is.
pub proof fn lemma_load_restores_save_point(c: CpuModel, later: CpuModel)
    requires
        later.snapshot == saved(c).snapshot,
    ensures
        loaded(later).vm == c.vm,
        loaded(later).vm.registers == c.vm.registers,
        loaded(later).vm.stack == c.vm.stack,
        loaded(later).vm.memory == c.vm.memory,
        loaded(later).vm.pc == c.vm.pc,
        loaded(later).queue == later.queue,
{
}

} // verus!
