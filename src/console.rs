//! The operator's command language, read from lines of console input.
use vstd::prelude::*;

verus! {

/// What an input line asks of the machine.
#[derive(Clone, Copy, Debug, PartialEq, Eq, Structural)]
pub enum Command {
    /// `save`: snapshot the machine.
    Save,
    /// `load`: restore the snapshot.
    Load,
    /// `d`: toggle debug rendering.
    ToggleDebug,
    /// `s`: enter stepping mode.
    Step,
    /// `set R V`: store V in register R.
    SetRegister(u16, u16),
    /// A line that starts with `set ` but is no valid `set R V`.
    BadSet,
    /// `reg`: show the registers.
    ShowRegisters,
    /// `q`: leave at once.
    Quit,
    /// Anything else is input for the guest program.
    Guest,
}

/// What a line typed at the stepping prompt asks.
#[derive(Clone, Copy, Debug, PartialEq, Eq, Structural)]
pub enum DebugCommand {
    /// Run one instruction and stop again (`s`, or any other line).
    Step,
    /// `b N`: set the breakpoint to address N and leave stepping mode.
    Break(u16),
    /// A line that starts with `b ` but names no address.
    BadBreak,
    /// `c`: leave stepping mode.
    Continue,
}

/// The bytes that the command grammar treats as blank.
pub open spec fn is_blank(b: u8) -> bool {
    b == 32 || b == 9 || b == 10 || b == 11 || b == 12 || b == 13
}

pub open spec fn trim_start(s: Seq<u8>) -> Seq<u8>
    decreases s.len(),
{
    if s.len() > 0 && is_blank(s[0]) { trim_start(s.drop_first()) } else { s }
}

pub open spec fn trim_end(s: Seq<u8>) -> Seq<u8>
    decreases s.len(),
{
    if s.len() > 0 && is_blank(s.last()) { trim_end(s.drop_last()) } else { s }
}

/// A line without its leading and trailing blanks.
pub open spec fn trimmed(s: Seq<u8>) -> Seq<u8> {
    trim_end(trim_start(s))
}

pub open spec fn is_digit(b: u8) -> bool {
    48 <= b && b <= 57
}

pub open spec fn all_digits(s: Seq<u8>) -> bool {
    forall|i: int| 0 <= i < s.len() ==> is_digit(#[trigger] s[i])
}

/// The value of a string of decimal digits.
pub open spec fn decimal_value(s: Seq<u8>) -> nat
    decreases s.len(),
{
    if s.len() == 0 { 0 } else { decimal_value(s.drop_last()) * 10 + (s.last() - 48) as nat }
}

/// The number that `s` spells in decimal, if it is one and at most `limit`.
pub open spec fn number_of(s: Seq<u8>, limit: nat) -> Option<u16> {
    if s.len() > 0 && all_digits(s) && decimal_value(s) <= limit && limit < 65536 {
        Some(decimal_value(s) as u16)
    } else {
        None
    }
}

pub open spec fn save_text() -> Seq<u8> { seq![115u8, 97, 118, 101] }
pub open spec fn load_text() -> Seq<u8> { seq![108u8, 111, 97, 100] }
pub open spec fn reg_text() -> Seq<u8> { seq![114u8, 101, 103] }
pub open spec fn set_text() -> Seq<u8> { seq![115u8, 101, 116, 32] }

/// The command that a line of console input holds.
pub open spec fn command_of(line: Seq<u8>) -> Command {
    let t = trimmed(line);
    if t == save_text() {
        Command::Save
    } else if t == load_text() {
        Command::Load
    } else if t == seq![100u8] {
        Command::ToggleDebug
    } else if t == seq![115u8] {
        Command::Step
    } else if t == reg_text() {
        Command::ShowRegisters
    } else if t == seq![113u8] {
        Command::Quit
    } else if t.len() >= 4 && t.subrange(0, 4) == set_text() {
        if t.len() >= 7 && 48 <= t[4] && t[4] <= 55 && t[5] == 32
            && number_of(t.subrange(6, t.len() as int), 32767) is Some {
            Command::SetRegister((t[4] - 48) as u16, number_of(t.subrange(6, t.len() as int), 32767)->0)
        } else {
            Command::BadSet
        }
    } else {
        Command::Guest
    }
}

/// The command that a line typed at the stepping prompt holds.
pub open spec fn debug_command_of(line: Seq<u8>) -> DebugCommand {
    let t = trimmed(line);
    if t == seq![99u8] {
        DebugCommand::Continue
    } else if t.len() >= 2 && t[0] == 98 && t[1] == 32 {
        match number_of(t.subrange(2, t.len() as int), 32767) {
            Some(n) => DebugCommand::Break(n),
            None => DebugCommand::BadBreak,
        }
    } else {
        DebugCommand::Step
    }
}

fn is_blank_byte(b: u8) -> (r: bool)
    ensures
        r == is_blank(b),
{
    b == 32 || b == 9 || b == 10 || b == 11 || b == 12 || b == 13
}

proof fn lemma_trim_start_skip(s: Seq<u8>, i: int)
    requires
        0 <= i < s.len(),
        is_blank(s[i]),
    ensures
        trim_start(s.subrange(i, s.len() as int)) == trim_start(s.subrange(i + 1, s.len() as int)),
{
    assert(s.subrange(i, s.len() as int).drop_first() =~= s.subrange(i + 1, s.len() as int));
}

proof fn lemma_trim_end_skip(s: Seq<u8>, j: int)
    requires
        0 < j <= s.len(),
        is_blank(s[j - 1]),
    ensures
        trim_end(s.subrange(0, j)) == trim_end(s.subrange(0, j - 1)),
{
    assert(s.subrange(0, j).drop_last() =~= s.subrange(0, j - 1));
}

/// The bounds of the trimmed line within `line`.
pub fn trim_bounds(line: &Vec<u8>) -> (r: (usize, usize))
    ensures
        r.0 <= r.1 <= line@.len(),
        line@.subrange(r.0 as int, r.1 as int) == trimmed(line@),
{
    let n = line.len();
    let mut i: usize = 0;
    assert(line@.subrange(0, n as int) =~= line@);
    while i < n && is_blank_byte(line[i])
        invariant
            i <= n == line@.len(),
            trim_start(line@) == trim_start(line@.subrange(i as int, n as int)),
        decreases n - i,
    {
        proof {
            lemma_trim_start_skip(line@, i as int);
        }
        i = i + 1;
    }
    let ghost rest = line@.subrange(i as int, n as int);
    assert(trim_start(rest) == rest);
    assert(line@.subrange(0, n as int) =~= line@);
    let mut j: usize = n;
    while j > i && is_blank_byte(line[j - 1])
        invariant
            i <= j <= n == line@.len(),
            trim_end(rest) == trim_end(line@.subrange(i as int, j as int)),
        decreases j,
    {
        proof {
            let s = line@.subrange(i as int, n as int);
            lemma_trim_end_skip(s, j - i);
            assert(s.subrange(0, j - i) =~= line@.subrange(i as int, j as int));
            assert(s.subrange(0, j - i - 1) =~= line@.subrange(i as int, j - 1));
        }
        j = j - 1;
    }
    (i, j)
}

proof fn lemma_decimal_grows(s: Seq<u8>, k: int)
    requires
        0 <= k <= s.len(),
        all_digits(s),
    ensures
        decimal_value(s.subrange(0, k)) <= decimal_value(s),
    decreases s.len() - k,
{
    if k < s.len() {
        let t = s.subrange(0, k + 1);
        assert(t.drop_last() =~= s.subrange(0, k));
        assert(is_digit(s[k]));
        lemma_decimal_grows(s, k + 1);
        assert(s.subrange(0, s.len() as int) =~= s);
    } else {
        assert(s.subrange(0, k) =~= s);
    }
}

/// Reads the decimal number in `line[start..end]`, if it is one and at most `limit`.
pub fn parse_number(line: &Vec<u8>, start: usize, end: usize, limit: u16) -> (r: Option<u16>)
    requires
        start <= end <= line@.len(),
    ensures
        r == number_of(line@.subrange(start as int, end as int), limit as nat),
{
    let ghost s = line@.subrange(start as int, end as int);
    if start == end {
        return None;
    }
    let mut i: usize = start;
    let mut acc: u32 = 0;
    while i < end
        invariant
            start <= i <= end <= line@.len(),
            s == line@.subrange(start as int, end as int),
            all_digits(line@.subrange(start as int, i as int)),
            acc as nat == decimal_value(line@.subrange(start as int, i as int)),
            acc <= limit,
        decreases end - i,
    {
        let b = line[i];
        if b < 48 || b > 57 {
            proof {
                assert(!is_digit(s[i - start]));
            }
            return None;
        }
        proof {
            let p = line@.subrange(start as int, i + 1);
            assert(p.drop_last() =~= line@.subrange(start as int, i as int));
        }
        acc = acc * 10 + (b - 48) as u32;
        i = i + 1;
        if acc > limit as u32 {
            proof {
                let p = line@.subrange(start as int, i as int);
                if all_digits(s) {
                    assert(s.subrange(0, i - start) =~= p);
                    lemma_decimal_grows(s, i - start);
                }
            }
            return None;
        }
    }
    proof {
        assert(line@.subrange(start as int, i as int) =~= s);
    }
    Some(acc as u16)
}

fn matches_text(line: &Vec<u8>, start: usize, end: usize, text: &[u8]) -> (r: bool)
    requires
        start <= end <= line@.len(),
    ensures
        r == (line@.subrange(start as int, end as int) == text@),
{
    if end - start != text.len() {
        return false;
    }
    let mut k: usize = 0;
    while k < text.len()
        invariant
            end - start == text@.len(),
            start <= end <= line@.len(),
            k <= text@.len(),
            forall|m: int| 0 <= m < k ==> line@[start + m] == text@[m],
        decreases text.len() - k,
    {
        if line[start + k] != text[k] {
            assert(line@.subrange(start as int, end as int)[k as int] != text@[k as int]);
            return false;
        }
        k = k + 1;
    }
    assert(line@.subrange(start as int, end as int) =~= text@);
    true
}

/// Classifies a line of console input.
pub fn parse_command(line: &Vec<u8>) -> (c: Command)
    ensures
        c == command_of(line@),
{
    let (s, e) = trim_bounds(line);
    let ghost t = trimmed(line@);
    if matches_text(line, s, e, &[115u8, 97, 118, 101]) {
        assert(t == save_text());
        return Command::Save;
    }
    assert(t != save_text());
    if matches_text(line, s, e, &[108u8, 111, 97, 100]) {
        assert(t == load_text());
        return Command::Load;
    }
    assert(t != load_text());
    if e - s == 1 && line[s] == 100u8 {
        assert(t =~= seq![100u8]);
        return Command::ToggleDebug;
    }
    assert(t != seq![100u8] || t[0] == line@[s as int]);
    if e - s == 1 && line[s] == 115u8 {
        assert(t =~= seq![115u8]);
        return Command::Step;
    }
    assert(t != seq![115u8] || t[0] == line@[s as int]);
    if matches_text(line, s, e, &[114u8, 101, 103]) {
        assert(t == reg_text());
        return Command::ShowRegisters;
    }
    assert(t != reg_text());
    if e - s == 1 && line[s] == 113u8 {
        assert(t =~= seq![113u8]);
        return Command::Quit;
    }
    assert(t != seq![113u8] || t[0] == line@[s as int]);
    if e - s >= 4 && matches_text(line, s, s + 4, &[115u8, 101, 116, 32]) {
        assert(t.subrange(0, 4) =~= line@.subrange(s as int, s + 4));
        assert(t.subrange(0, 4) == set_text());
        if e - s >= 7 && line[s + 4] >= 48 && line[s + 4] <= 55 && line[s + 5] == 32 {
            assert(t.subrange(6, t.len() as int) =~= line@.subrange(s + 6, e as int));
            match parse_number(line, s + 6, e, 32767) {
                Some(v) => {
                    return Command::SetRegister((line[s + 4] - 48) as u16, v);
                },
                None => {
                    return Command::BadSet;
                },
            }
        }
        return Command::BadSet;
    }
    proof {
        if t.len() >= 4 {
            assert(t.subrange(0, 4) =~= line@.subrange(s as int, s + 4));
        }
    }
    Command::Guest
}

/// Classifies a line typed at the stepping prompt.
pub fn parse_debug_command(line: &Vec<u8>) -> (c: DebugCommand)
    ensures
        c == debug_command_of(line@),
{
    let (s, e) = trim_bounds(line);
    let ghost t = trimmed(line@);
    if e - s == 1 && line[s] == 99u8 {
        assert(t =~= seq![99u8]);
        return DebugCommand::Continue;
    }
    assert(t != seq![99u8] || t[0] == line@[s as int]);
    if e - s >= 2 && line[s] == 98 && line[s + 1] == 32 {
        assert(t.subrange(2, t.len() as int) =~= line@.subrange(s + 2, e as int));
        return match parse_number(line, s + 2, e, 32767) {
            Some(n) => DebugCommand::Break(n),
            None => DebugCommand::BadBreak,
        };
    }
    proof {
        if t.len() >= 2 {
            assert(t[0] == line@[s as int]);
            assert(t[1] == line@[s + 1]);
        }
    }
    DebugCommand::Step
}

} // verus!
