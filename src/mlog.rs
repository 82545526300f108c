//! The target instructions and their text form.
use vstd::prelude::*;

verus! {

/// One instruction of the target machine.
#[derive(Debug)]
pub enum Instruction {
    /// `set dst src`
    SetVariable { dst: String, src: String },
    /// `op op dst a b`
    Op { op: String, dst: String, a: String, b: String },
    /// `jump label equal cond 0`
    JumpIfZero { label: String, cond: String },
    /// `jump label always`
    Jump { label: String },
    /// `radar f1 f2 f3 sort object order output`
    Radar {
        filter1: String,
        filter2: String,
        filter3: String,
        sort: String,
        object: String,
        order: String,
        output: String,
    },
    /// `ubind object`
    Ubind { object: String },
    /// `ucontrol move x y 0 0 0`
    UcontrolMove { x: String, y: String },
    /// `ucontrol move x y radius result 0`
    UcontrolWithin { x: String, y: String, radius: String, result: String },
    /// `name:`
    Label { name: String },
}

/// The view of an instruction.
pub enum InstrV {
    SetVariable(Seq<char>, Seq<char>),
    Op(Seq<char>, Seq<char>, Seq<char>, Seq<char>),
    JumpIfZero(Seq<char>, Seq<char>),
    Jump(Seq<char>),
    Radar(Seq<char>, Seq<char>, Seq<char>, Seq<char>, Seq<char>, Seq<char>, Seq<char>),
    Ubind(Seq<char>),
    UcontrolMove(Seq<char>, Seq<char>),
    UcontrolWithin(Seq<char>, Seq<char>, Seq<char>, Seq<char>),
    Label(Seq<char>),
}

impl View for Instruction {
    type V = InstrV;

    open spec fn view(&self) -> InstrV {
        match self {
            Instruction::SetVariable { dst, src } => InstrV::SetVariable(dst@, src@),
            Instruction::Op { op, dst, a, b } => InstrV::Op(op@, dst@, a@, b@),
            Instruction::JumpIfZero { label, cond } => InstrV::JumpIfZero(label@, cond@),
            Instruction::Jump { label } => InstrV::Jump(label@),
            Instruction::Radar { filter1, filter2, filter3, sort, object, order, output } =>
                InstrV::Radar(filter1@, filter2@, filter3@, sort@, object@, order@, output@),
            Instruction::Ubind { object } => InstrV::Ubind(object@),
            Instruction::UcontrolMove { x, y } => InstrV::UcontrolMove(x@, y@),
            Instruction::UcontrolWithin { x, y, radius, result } =>
                InstrV::UcontrolWithin(x@, y@, radius@, result@),
            Instruction::Label { name } => InstrV::Label(name@),
        }
    }
}

/// The views of a list of instructions.
pub open spec fn code_view(c: Seq<Instruction>) -> Seq<InstrV> {
    c.map_values(|i: Instruction| i@)
}

/// The text of one instruction, without its line break.
pub open spec fn render(i: InstrV) -> Seq<char> {
    match i {
        InstrV::SetVariable(d, s) => "set "@ + d + " "@ + s,
        InstrV::Op(o, d, a, b) => "op "@ + o + " "@ + d + " "@ + a + " "@ + b,
        InstrV::JumpIfZero(l, c) => "jump "@ + l + " equal "@ + c + " 0"@,
        InstrV::Jump(l) => "jump "@ + l + " always"@,
        InstrV::Radar(f1, f2, f3, s, o, ord, out) =>
            "radar "@ + f1 + " "@ + f2 + " "@ + f3 + " "@ + s + " "@ + o + " "@ + ord + " "@ + out,
        InstrV::Ubind(o) => "ubind "@ + o,
        InstrV::UcontrolMove(x, y) => "ucontrol move "@ + x + " "@ + y + " 0 0 0"@,
        InstrV::UcontrolWithin(x, y, r, res) =>
            "ucontrol move "@ + x + " "@ + y + " "@ + r + " "@ + res + " 0"@,
        InstrV::Label(n) => n + ":"@,
    }
}

/// The text of a list of instructions: each one on a line of its own.
pub open spec fn render_all(code: Seq<InstrV>) -> Seq<char>
    decreases code.len(),
{
    if code.len() == 0 {
        Seq::empty()
    } else {
        render_all(code.drop_last()) + render(code.last()) + "\n"@
    }
}

fn append_words(s: &mut String, parts: &Vec<&str>)
    ensures
        final(s)@ == old(s)@ + parts_text(parts@, parts@.len() as int),
{
    let mut i: usize = 0;
    while i < parts.len()
        invariant
            i <= parts.len(),
            s@ == old(s)@ + parts_text(parts@, i as int),
        decreases parts.len() - i,
    {
        s.append(parts[i]);
        proof {
            assert(parts_text(parts@, i + 1) == parts_text(parts@, i as int) + parts@[i as int]@);
        }
        i += 1;
    }
}

/// The concatenation of the first `n` of `parts`.
pub open spec fn parts_text(parts: Seq<&str>, n: int) -> Seq<char>
    decreases n,
{
    if n <= 0 {
        Seq::empty()
    } else {
        parts_text(parts, n - 1) + parts[n - 1]@
    }
}

impl Instruction {
    /// Appends the text of this instruction and a line break to `out`.
    pub fn render_into(&self, out: &mut String)
        ensures
            final(out)@ == old(out)@ + render(self@) + "\n"@,
    {
        let parts: Vec<&str> = match self {
            Instruction::SetVariable { dst, src } => vec!["set ", dst.as_str(), " ", src.as_str()],
            Instruction::Op { op, dst, a, b } =>
                vec!["op ", op.as_str(), " ", dst.as_str(), " ", a.as_str(), " ", b.as_str()],
            Instruction::JumpIfZero { label, cond } =>
                vec!["jump ", label.as_str(), " equal ", cond.as_str(), " 0"],
            Instruction::Jump { label } => vec!["jump ", label.as_str(), " always"],
            Instruction::Radar { filter1, filter2, filter3, sort, object, order, output } => vec![
                "radar ",
                filter1.as_str(),
                " ",
                filter2.as_str(),
                " ",
                filter3.as_str(),
                " ",
                sort.as_str(),
                " ",
                object.as_str(),
                " ",
                order.as_str(),
                " ",
                output.as_str(),
            ],
            Instruction::Ubind { object } => vec!["ubind ", object.as_str()],
            Instruction::UcontrolMove { x, y } =>
                vec!["ucontrol move ", x.as_str(), " ", y.as_str(), " 0 0 0"],
            Instruction::UcontrolWithin { x, y, radius, result } => vec![
                "ucontrol move ",
                x.as_str(),
                " ",
                y.as_str(),
                " ",
                radius.as_str(),
                " ",
                result.as_str(),
                " 0",
            ],
            Instruction::Label { name } => vec![name.as_str(), ":"],
        };
        append_words(out, &parts);
        out.append("\n");
        proof {
            let p = parts@;
            reveal_with_fuel(parts_text, 15);
            assert(parts_text(p, p.len() as int) =~= render(self@));
        }
    }
}

/// The text of a list of instructions, one per line.
pub fn render_code(code: &Vec<Instruction>) -> (r: String)
    ensures
        r@ == render_all(code_view(code@)),
{
    let mut out = String::new();
    let mut i: usize = 0;
    while i < code.len()
        invariant
            i <= code.len(),
            out@ == render_all(code_view(code@.take(i as int))),
        decreases code.len() - i,
    {
        code[i].render_into(&mut out);
        proof {
            let cv = code_view(code@.take(i + 1));
            assert(cv.drop_last() =~= code_view(code@.take(i as int)));
            assert(cv.last() == code@[i as int]@);
        }
        i += 1;
    }
    assert(code@.take(code@.len() as int) =~= code@);
    out
}

} // verus!
