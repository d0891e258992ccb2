//! The compiled form of a dialogue: nodes of instructions with their labels.

use vstd::prelude::*;
use vstd::hash_map::StringHashMap;
use crate::number::{Number, NumberView};

verus! {

/// The operations of the machine, in the order of their codes from 0 on.
#[derive(Debug, Copy, Clone, PartialEq, Eq, Structural)]
pub enum OpCode {
    JumpTo,
    Jump,
    RunLine,
    RunCommand,
    AddOption,
    ShowOptions,
    PushString,
    PushFloat,
    PushBool,
    PushNull,
    JumpIfFalse,
    Pop,
    CallFunc,
    PushVariable,
    StoreVariable,
    Stop,
    RunNode,
}

impl OpCode {
    /// The operation with this code, if there is one.
    pub open spec fn of_code(code: int) -> Option<OpCode> {
        if code == 0 {
            Some(OpCode::JumpTo)
        } else if code == 1 {
            Some(OpCode::Jump)
        } else if code == 2 {
            Some(OpCode::RunLine)
        } else if code == 3 {
            Some(OpCode::RunCommand)
        } else if code == 4 {
            Some(OpCode::AddOption)
        } else if code == 5 {
            Some(OpCode::ShowOptions)
        } else if code == 6 {
            Some(OpCode::PushString)
        } else if code == 7 {
            Some(OpCode::PushFloat)
        } else if code == 8 {
            Some(OpCode::PushBool)
        } else if code == 9 {
            Some(OpCode::PushNull)
        } else if code == 10 {
            Some(OpCode::JumpIfFalse)
        } else if code == 11 {
            Some(OpCode::Pop)
        } else if code == 12 {
            Some(OpCode::CallFunc)
        } else if code == 13 {
            Some(OpCode::PushVariable)
        } else if code == 14 {
            Some(OpCode::StoreVariable)
        } else if code == 15 {
            Some(OpCode::Stop)
        } else if code == 16 {
            Some(OpCode::RunNode)
        } else {
            None
        }
    }

    /// The code of the operation.
    pub open spec fn code_of(self) -> int {
        match self {
            OpCode::JumpTo => 0,
            OpCode::Jump => 1,
            OpCode::RunLine => 2,
            OpCode::RunCommand => 3,
            OpCode::AddOption => 4,
            OpCode::ShowOptions => 5,
            OpCode::PushString => 6,
            OpCode::PushFloat => 7,
            OpCode::PushBool => 8,
            OpCode::PushNull => 9,
            OpCode::JumpIfFalse => 10,
            OpCode::Pop => 11,
            OpCode::CallFunc => 12,
            OpCode::PushVariable => 13,
            OpCode::StoreVariable => 14,
            OpCode::Stop => 15,
            OpCode::RunNode => 16,
        }
    }

    /// Decodes an operation.
    pub fn from_i32(code: i32) -> (opcode: Option<OpCode>)
        ensures
            opcode == OpCode::of_code(code as int),
    {
        match code {
            0 => Some(OpCode::JumpTo),
            1 => Some(OpCode::Jump),
            2 => Some(OpCode::RunLine),
            3 => Some(OpCode::RunCommand),
            4 => Some(OpCode::AddOption),
            5 => Some(OpCode::ShowOptions),
            6 => Some(OpCode::PushString),
            7 => Some(OpCode::PushFloat),
            8 => Some(OpCode::PushBool),
            9 => Some(OpCode::PushNull),
            10 => Some(OpCode::JumpIfFalse),
            11 => Some(OpCode::Pop),
            12 => Some(OpCode::CallFunc),
            13 => Some(OpCode::PushVariable),
            14 => Some(OpCode::StoreVariable),
            15 => Some(OpCode::Stop),
            16 => Some(OpCode::RunNode),
            _ => None,
        }
    }

    /// Encodes an operation.
    pub fn to_i32(self) -> (code: i32)
        ensures
            code == self.code_of(),
            OpCode::of_code(code as int) == Some(self),
    {
        match self {
            OpCode::JumpTo => 0,
            OpCode::Jump => 1,
            OpCode::RunLine => 2,
            OpCode::RunCommand => 3,
            OpCode::AddOption => 4,
            OpCode::ShowOptions => 5,
            OpCode::PushString => 6,
            OpCode::PushFloat => 7,
            OpCode::PushBool => 8,
            OpCode::PushNull => 9,
            OpCode::JumpIfFalse => 10,
            OpCode::Pop => 11,
            OpCode::CallFunc => 12,
            OpCode::PushVariable => 13,
            OpCode::StoreVariable => 14,
            OpCode::Stop => 15,
            OpCode::RunNode => 16,
        }
    }
}

/// What an [`Operand`] is in contracts.
pub enum OperandView {
    Text(Seq<char>),
    Flag(bool),
    Float(NumberView),
    Empty,
}

/// The value of an operand.
#[derive(Debug)]
pub enum OperandValue {
    StringValue(String),
    BoolValue(bool),
    FloatValue(Number),
}

/// An operand of an instruction: a string, a boolean, a number, or nothing.
#[derive(Debug)]
pub struct Operand {
    pub value: Option<OperandValue>,
}

impl View for Operand {
    type V = OperandView;

    open spec fn view(&self) -> OperandView {
        match self.value {
            Some(OperandValue::StringValue(text)) => OperandView::Text(text@),
            Some(OperandValue::BoolValue(flag)) => OperandView::Flag(flag),
            Some(OperandValue::FloatValue(number)) => OperandView::Float(number@),
            None => OperandView::Empty,
        }
    }
}

impl Clone for Operand {
    fn clone(&self) -> (operand: Operand)
        ensures
            operand@ == self@,
    {
        match &self.value {
            Some(OperandValue::StringValue(text)) => Operand {
                value: Some(OperandValue::StringValue(text.clone())),
            },
            Some(OperandValue::BoolValue(flag)) => Operand {
                value: Some(OperandValue::BoolValue(*flag)),
            },
            Some(OperandValue::FloatValue(number)) => Operand {
                value: Some(OperandValue::FloatValue(number.clone())),
            },
            None => Operand { value: None },
        }
    }
}

impl Operand {
    /// The operand that holds this string.
    pub fn string(text: String) -> (operand: Operand)
        ensures
            operand@ == OperandView::Text(text@),
    {
        Operand { value: Some(OperandValue::StringValue(text)) }
    }

    /// The operand that holds this boolean.
    pub fn boolean(flag: bool) -> (operand: Operand)
        ensures
            operand@ == OperandView::Flag(flag),
    {
        Operand { value: Some(OperandValue::BoolValue(flag)) }
    }

    /// The operand that holds this number.
    pub fn float(number: Number) -> (operand: Operand)
        ensures
            operand@ == OperandView::Float(number@),
    {
        Operand { value: Some(OperandValue::FloatValue(number)) }
    }
}

/// What an [`Instruction`] is in contracts.
pub struct InstructionView {
    pub opcode: int,
    pub operands: Seq<OperandView>,
}

/// An instruction: the code of its operation and its operands.
#[derive(Debug)]
pub struct Instruction {
    pub opcode: i32,
    pub operands: Vec<Operand>,
}

impl View for Instruction {
    type V = InstructionView;

    open spec fn view(&self) -> InstructionView {
        InstructionView {
            opcode: self.opcode as int,
            operands: Seq::new(self.operands@.len(), |i: int| self.operands@[i]@),
        }
    }
}

impl InstructionView {
    /// The operand at `index`, or the empty operand where there is none.
    pub open spec fn operand(self, index: int) -> OperandView {
        if 0 <= index < self.operands.len() {
            self.operands[index]
        } else {
            OperandView::Empty
        }
    }
}

impl Clone for Instruction {
    fn clone(&self) -> (instruction: Instruction)
        ensures
            instruction@ == self@,
    {
        let mut operands: Vec<Operand> = Vec::new();
        let mut i: usize = 0;
        while i < self.operands.len()
            invariant
                i <= self.operands.len(),
                operands@.len() == i,
                forall|j: int| 0 <= j < i ==> (#[trigger] operands@[j])@ == self.operands@[j]@,
            decreases self.operands.len() - i,
        {
            operands.push(self.operands[i].clone());
            i += 1;
        }
        let instruction = Instruction { opcode: self.opcode, operands };
        assert(instruction@.operands =~= self@.operands);
        instruction
    }
}

impl Instruction {
    /// The instruction with this operation and these operands.
    pub fn new(opcode: OpCode, operands: Vec<Operand>) -> (instruction: Instruction)
        ensures
            instruction.opcode == opcode.code_of(),
            instruction.operands == operands,
    {
        Instruction { opcode: opcode.to_i32(), operands }
    }
}

/// A node: a named stream of instructions with its labels.
pub struct Node {
    pub name: String,
    pub instructions: Vec<Instruction>,
    pub labels: StringHashMap<i32>,
    pub tags: Vec<String>,
    pub source_text_string_id: String,
}

/// What a [`Node`] is in contracts.
pub struct NodeView {
    pub name: Seq<char>,
    pub instructions: Seq<InstructionView>,
    pub labels: Map<Seq<char>, i32>,
    pub tags: Seq<Seq<char>>,
    pub source_text_string_id: Seq<char>,
}

impl View for Node {
    type V = NodeView;

    open spec fn view(&self) -> NodeView {
        NodeView {
            name: self.name@,
            instructions: Seq::new(self.instructions@.len(), |i: int| self.instructions@[i]@),
            labels: self.labels@,
            tags: Seq::new(self.tags@.len(), |i: int| self.tags@[i]@),
            source_text_string_id: self.source_text_string_id@,
        }
    }
}

/// The node of this name without instructions, labels or tags.
pub open spec fn empty_node(name: Seq<char>) -> NodeView {
    NodeView {
        name,
        instructions: Seq::empty(),
        labels: Map::empty(),
        tags: Seq::empty(),
        source_text_string_id: Seq::empty(),
    }
}

impl Node {
    /// The node of this name without instructions, labels or tags.
    pub fn new(name: String) -> (node: Node)
        ensures
            node.name == name,
            node.instructions@.len() == 0,
            node.labels@ == Map::<Seq<char>, i32>::empty(),
            node.tags@.len() == 0,
            node.source_text_string_id@.len() == 0,
            node@ == empty_node(name@),
    {
        let node = Node {
            name,
            instructions: Vec::new(),
            labels: StringHashMap::new(),
            tags: Vec::new(),
            source_text_string_id: String::new(),
        };
        assert(node@.instructions =~= Seq::empty());
        assert(node@.tags =~= Seq::empty());
        assert(node@.source_text_string_id =~= Seq::empty());
        node
    }
}

/// A program: its nodes by name.
pub struct Program {
    pub name: String,
    pub nodes: StringHashMap<Node>,
    pub initial_values: StringHashMap<Operand>,
}

/// What a [`Program`] is in contracts.
pub struct ProgramView {
    pub name: Seq<char>,
    pub nodes: Map<Seq<char>, NodeView>,
    pub initial_values: Map<Seq<char>, OperandView>,
}

impl View for Program {
    type V = ProgramView;

    open spec fn view(&self) -> ProgramView {
        ProgramView {
            name: self.name@,
            nodes: Map::new(
                |name: Seq<char>| self.nodes@.contains_key(name),
                |name: Seq<char>| self.nodes@[name]@,
            ),
            initial_values: Map::new(
                |name: Seq<char>| self.initial_values@.contains_key(name),
                |name: Seq<char>| self.initial_values@[name]@,
            ),
        }
    }
}

impl Program {
    /// The program without nodes.
    pub fn new() -> (program: Program)
        ensures
            program.name@.len() == 0,
            program.nodes@ == Map::<Seq<char>, Node>::empty(),
            program.initial_values@ == Map::<Seq<char>, Operand>::empty(),
            program@ == (ProgramView {
                name: Seq::empty(),
                nodes: Map::empty(),
                initial_values: Map::empty(),
            }),
    {
        let program = Program {
            name: String::new(),
            nodes: StringHashMap::new(),
            initial_values: StringHashMap::new(),
        };
        assert(program@.name =~= Seq::empty());
        assert(program@.nodes =~= Map::empty());
        assert(program@.initial_values =~= Map::empty());
        program
    }
}

} // verus!
