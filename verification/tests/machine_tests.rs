use yharnam::{
    add_random_functions, visit_count, Arithmetic, ExecutionState, Function, FunctionInfo,
    Instruction, MachineHandle, Node, Number, NumberParser, NumberUtilities, OpCode, Operand,
    ParamCount, Program,
    RandomFunctions, ReturningFunction, SuspendReason, VirtualMachine, VisitFunctions, VmError,
    YarnValue,
};

fn num(value: f32) -> Number {
    Number::new(value.to_bits(), value.to_string())
}

fn float(value: &YarnValue) -> f32 {
    let parsed = match value {
        YarnValue::Str(text) => num(text.parse::<f32>().unwrap_or(0.0)),
        _ => Number::zero(),
    };
    f32::from_bits(value.as_number(parsed).bits)
}

struct Host<F>(F);

impl<F> ReturningFunction for Host<F>
where
    F: Fn(&MachineHandle, &[YarnValue]) -> Result<YarnValue, String>,
{
    fn call(&self, machine: &MachineHandle, params: &[YarnValue]) -> Result<YarnValue, String> {
        (self.0)(machine, params)
    }
}

fn host<F>(function: F) -> Box<dyn ReturningFunction>
where
    F: Fn(&MachineHandle, &[YarnValue]) -> Result<YarnValue, String> + 'static,
{
    Box::new(Host(function))
}

fn arithmetic() -> Arithmetic {
    let undefined = || "not defined for these values".to_string();
    Arithmetic {
        add: host(move |_, p| {
            p[0].add(&p[1], num(float(&p[0]) + float(&p[1]))).ok_or_else(undefined)
        }),
        minus: host(move |_, p| {
            p[0].sub(&p[1], num(float(&p[0]) - float(&p[1]))).ok_or_else(undefined)
        }),
        unary_minus: host(|_, p| Ok(p[0].neg((-float(&p[0])).to_string()))),
        divide: host(move |_, p| {
            p[0].div(&p[1], num(float(&p[0]) / float(&p[1]))).ok_or_else(undefined)
        }),
        multiply: host(move |_, p| {
            p[0].mul(&p[1], num(float(&p[0]) * float(&p[1]))).ok_or_else(undefined)
        }),
        modulo: host(move |_, p| {
            p[0].rem(&p[1], num(float(&p[0]) % float(&p[1]))).ok_or_else(undefined)
        }),
    }
}

fn visits() -> VisitFunctions {
    VisitFunctions {
        visited_count: host(|machine, p| {
            let count = visit_count(machine.visit_counter, &p[0].as_string());
            Ok(YarnValue::Number(num(count as f32)))
        }),
    }
}

fn unary(function: fn(f32) -> f32) -> Box<dyn ReturningFunction> {
    host(move |_, p| Ok(YarnValue::Number(num(function(float(&p[0]))))))
}

fn utilities() -> NumberUtilities {
    NumberUtilities {
        floor: unary(f32::floor),
        ceil: unary(f32::ceil),
        decimal: unary(|value| value.fract().abs()),
        dec: unary(|value| if value.floor() == value { value - 1. } else { value.floor() }),
        inc: unary(|value| if value.ceil() == value { value + 1. } else { value.ceil() }),
        round: unary(f32::round),
        round_places: host(|_, p| {
            let multiplier = 10u32.pow(float(&p[1]) as u32) as f32;
            Ok(YarnValue::Number(num((float(&p[0]) * multiplier).round() / multiplier)))
        }),
    }
}

struct Parser;

impl NumberParser for Parser {
    fn parse(&self, text: &str) -> Number {
        num(text.parse::<f32>().unwrap_or(0.0))
    }
}

fn new_machine(program: Program) -> VirtualMachine {
    VirtualMachine::new(program, arithmetic(), visits(), utilities(), Box::new(Parser))
}

struct Nothing;

impl Function for Nothing {
    fn call(&self, _machine: &MachineHandle, _params: &[YarnValue]) {}
}

fn string(value: &str) -> YarnValue {
    YarnValue::Str(value.to_string())
}

fn text(value: &str) -> Operand {
    Operand::string(value.to_string())
}

fn count(value: f32) -> Operand {
    Operand::float(num(value))
}

fn op(opcode: OpCode, operands: Vec<Operand>) -> Instruction {
    Instruction::new(opcode, operands)
}

fn node(name: &str, instructions: Vec<Instruction>, labels: &[(&str, i32)]) -> Node {
    let mut node = Node::new(name.to_string());
    node.instructions = instructions;
    for (label, place) in labels {
        node.labels.insert(label.to_string(), *place);
    }
    node
}

fn machine(nodes: Vec<Node>) -> VirtualMachine {
    let mut program = Program::new();
    for node in nodes {
        program.nodes.insert(node.name.clone(), node);
    }
    let mut vm = new_machine(program);
    vm.library.insert(
        "last_value".to_string(),
        FunctionInfo::new_returning(
            -1,
            host(|_, p| p.last().cloned().ok_or_else(|| "no parameters".to_string())),
        ),
    );
    vm.library.insert("nothing".to_string(), FunctionInfo::new(0, Box::new(Nothing)));
    vm
}

fn line(reason: SuspendReason) -> (String, Vec<String>) {
    match reason {
        SuspendReason::Line(line) => (line.id, line.substitutions),
        other => panic!("expected a line, got {:?}", other),
    }
}

fn complete(reason: SuspendReason) -> String {
    match reason {
        SuspendReason::DialogueComplete(node) => node,
        other => panic!("expected the end of the dialogue, got {:?}", other),
    }
}

fn general(result: Result<SuspendReason, VmError>) -> bool {
    matches!(result, Err(VmError::General(_)))
}

#[test]
fn single_line() {
    let mut vm = machine(vec![node(
        "Start",
        vec![op(OpCode::RunLine, vec![text("L1"), count(0.0)]), op(OpCode::Stop, vec![])],
        &[],
    )]);
    assert_eq!(vm.execution_state, ExecutionState::Stopped);
    vm.set_node("Start").unwrap();
    assert_eq!(vm.execution_state, ExecutionState::Suspended);
    assert_eq!(line(vm.continue_dialogue().unwrap()), ("L1".to_string(), vec![]));
    assert_eq!(vm.execution_state, ExecutionState::Suspended);
    assert_eq!(complete(vm.continue_dialogue().unwrap()), "Start");
    assert_eq!(vm.execution_state, ExecutionState::Stopped);
    assert_eq!(vm.visit_counter.get("Start"), Some(&1));
    assert!(vm.state.stack.is_empty());
    assert!(vm.state.current_options.is_empty());
    assert_eq!(vm.state.current_node_name, "");
}

#[test]
fn option_selection() {
    let mut vm = machine(vec![
        node(
            "Start",
            vec![
                op(OpCode::AddOption, vec![text("L_a"), text("A"), count(0.0)]),
                op(OpCode::AddOption, vec![text("L_b"), text("B"), count(0.0)]),
                op(OpCode::ShowOptions, vec![]),
                op(OpCode::RunNode, vec![]),
            ],
            &[],
        ),
        node("A", vec![op(OpCode::RunLine, vec![text("LA")]), op(OpCode::Stop, vec![])], &[]),
        node("B", vec![op(OpCode::RunLine, vec![text("LB")]), op(OpCode::Stop, vec![])], &[]),
    ]);
    vm.set_node("Start").unwrap();
    match vm.continue_dialogue().unwrap() {
        SuspendReason::Options(options) => {
            assert_eq!(options.len(), 2);
            assert_eq!((options[0].line.id.as_str(), options[0].id), ("L_a", 0));
            assert_eq!(options[0].destination_node, "A");
            assert_eq!((options[1].line.id.as_str(), options[1].id), ("L_b", 1));
            assert_eq!(options[1].destination_node, "B");
        }
        other => panic!("expected options, got {:?}", other),
    }
    assert_eq!(vm.execution_state, ExecutionState::WaitingOnOptionSelection);
    assert!(general(vm.continue_dialogue()));
    assert!(matches!(vm.set_selected_option(2), Err(VmError::General(_))));
    assert_eq!(vm.execution_state, ExecutionState::WaitingOnOptionSelection);
    vm.set_selected_option(1).unwrap();
    assert_eq!(vm.execution_state, ExecutionState::Suspended);
    assert!(vm.state.current_options.is_empty());
    assert!(matches!(vm.set_selected_option(0), Err(VmError::General(_))));
    match vm.continue_dialogue().unwrap() {
        SuspendReason::NodeChange { start, end } => {
            assert_eq!((start.as_str(), end.as_str()), ("B", "Start"));
        }
        other => panic!("expected a node change, got {:?}", other),
    }
    assert_eq!(vm.visit_counter.get("Start"), Some(&1));
    assert_eq!(line(vm.continue_dialogue().unwrap()).0, "LB");
    assert_eq!(complete(vm.continue_dialogue().unwrap()), "B");
    assert_eq!(vm.visit_counter.get("B"), Some(&1));
    assert_eq!(vm.visit_counter.get("A"), None);
}

#[test]
fn expression() {
    let mut vm = machine(vec![node(
        "Start",
        vec![
            op(OpCode::PushFloat, vec![count(2.0)]),
            op(OpCode::PushFloat, vec![count(3.0)]),
            op(OpCode::PushFloat, vec![count(2.0)]),
            op(OpCode::CallFunc, vec![text("Add")]),
            op(OpCode::StoreVariable, vec![text("$x")]),
            op(OpCode::Pop, vec![]),
            op(OpCode::PushVariable, vec![text("$x")]),
            op(OpCode::PushString, vec![text("Start")]),
            op(OpCode::PushFloat, vec![count(1.0)]),
            op(OpCode::CallFunc, vec![text("visited_count")]),
            op(OpCode::RunLine, vec![text("L"), count(2.0)]),
        ],
        &[],
    )]);
    vm.set_node("Start").unwrap();
    assert_eq!(
        line(vm.continue_dialogue().unwrap()),
        ("L".to_string(), vec!["5".to_string(), "0".to_string()])
    );
    assert_eq!(complete(vm.continue_dialogue().unwrap()), "Start");
    assert_eq!(vm.variable_storage.get("$x"), Some(&YarnValue::Number(num(5.0))));
    assert_eq!(vm.execution_state, ExecutionState::Stopped);
}

#[test]
fn conditional_skip() {
    let mut vm = machine(vec![node(
        "Start",
        vec![
            op(OpCode::PushBool, vec![Operand::boolean(false)]),
            op(OpCode::JumpIfFalse, vec![text("L")]),
            op(OpCode::RunLine, vec![text("skipped")]),
            op(OpCode::Pop, vec![]),
            op(OpCode::RunLine, vec![text("taken")]),
            op(OpCode::Stop, vec![]),
        ],
        &[("L", 3)],
    )]);
    vm.set_node("Start").unwrap();
    assert_eq!(line(vm.continue_dialogue().unwrap()).0, "taken");
    assert!(vm.state.stack.is_empty());
    assert_eq!(complete(vm.continue_dialogue().unwrap()), "Start");
}

#[test]
fn conditional_not_skipped() {
    let mut vm = machine(vec![node(
        "Start",
        vec![
            op(OpCode::PushBool, vec![Operand::boolean(true)]),
            op(OpCode::JumpIfFalse, vec![text("L")]),
            op(OpCode::RunLine, vec![text("first")]),
            op(OpCode::Stop, vec![]),
        ],
        &[("L", 3)],
    )]);
    vm.set_node("Start").unwrap();
    assert_eq!(line(vm.continue_dialogue().unwrap()).0, "first");
    assert_eq!(vm.state.stack.len(), 1);
}

#[test]
fn substitutions() {
    let mut vm = machine(vec![node(
        "Start",
        vec![
            op(OpCode::PushString, vec![text("x")]),
            op(OpCode::PushString, vec![text("y")]),
            op(OpCode::RunLine, vec![text("L"), count(2.0)]),
        ],
        &[],
    )]);
    vm.set_node("Start").unwrap();
    assert_eq!(
        line(vm.continue_dialogue().unwrap()),
        ("L".to_string(), vec!["x".to_string(), "y".to_string()])
    );
    assert!(vm.state.stack.is_empty());
}

#[test]
fn empty_options_guard() {
    let mut vm = machine(vec![node("Only", vec![op(OpCode::ShowOptions, vec![])], &[])]);
    vm.set_node("Only").unwrap();
    assert_eq!(complete(vm.continue_dialogue().unwrap()), "Only");
    assert_eq!(vm.execution_state, ExecutionState::Stopped);
    assert_eq!(vm.visit_counter.get("Only"), Some(&1));
}

#[test]
fn command_placeholders_are_filled_from_the_last_down() {
    let mut vm = machine(vec![node(
        "Start",
        vec![
            op(OpCode::PushString, vec![text("{1}")]),
            op(OpCode::PushFloat, vec![count(1.5)]),
            op(OpCode::PushNull, vec![]),
            op(OpCode::RunCommand, vec![text("go {0} {1} {2} {1}"), count(3.0)]),
            op(OpCode::PushBool, vec![Operand::boolean(true)]),
            op(OpCode::RunCommand, vec![text("plain {0}")]),
        ],
        &[],
    )]);
    vm.set_node("Start").unwrap();
    match vm.continue_dialogue().unwrap() {
        SuspendReason::Command(text) => assert_eq!(text, "go {1} 1.5 null {1}"),
        other => panic!("expected a command, got {:?}", other),
    }
    match vm.continue_dialogue().unwrap() {
        SuspendReason::Command(text) => assert_eq!(text, "plain {0}"),
        other => panic!("expected a command, got {:?}", other),
    }
    assert_eq!(vm.state.stack.len(), 1);
}

#[test]
fn visiting_a_node_twice() {
    let mut vm = machine(vec![
        node("N", vec![op(OpCode::Stop, vec![])], &[]),
        node(
            "Ask",
            vec![
                op(OpCode::PushString, vec![text("N")]),
                op(OpCode::PushFloat, vec![count(1.0)]),
                op(OpCode::CallFunc, vec![text("visited")]),
                op(OpCode::PushString, vec![text("N")]),
                op(OpCode::PushFloat, vec![count(1.0)]),
                op(OpCode::CallFunc, vec![text("visited_count")]),
                op(OpCode::RunLine, vec![text("L"), count(2.0)]),
            ],
            &[],
        ),
    ]);
    vm.set_node("Ask").unwrap();
    assert_eq!(line(vm.continue_dialogue().unwrap()).1, vec!["False", "0"]);
    for _ in 0..2 {
        vm.set_node("N").unwrap();
        assert_eq!(complete(vm.continue_dialogue().unwrap()), "N");
    }
    assert_eq!(vm.visit_counter.get("N"), Some(&2));
    vm.set_node("Ask").unwrap();
    assert_eq!(line(vm.continue_dialogue().unwrap()).1, vec!["True", "2"]);
}

#[test]
fn set_node_twice_is_set_node_once() {
    let nodes = || {
        vec![
            node("X", vec![op(OpCode::RunLine, vec![text("LX")])], &[]),
            node("Y", vec![op(OpCode::RunLine, vec![text("LY")])], &[]),
        ]
    };
    let mut twice = machine(nodes());
    twice.set_node("X").unwrap();
    twice.set_node("Y").unwrap();
    let mut once = machine(nodes());
    once.set_node("Y").unwrap();
    assert_eq!(twice.state.current_node_name, once.state.current_node_name);
    assert_eq!(twice.state.program_counter, once.state.program_counter);
    assert_eq!(twice.execution_state, once.execution_state);
    assert_eq!(line(twice.continue_dialogue().unwrap()), line(once.continue_dialogue().unwrap()));
}

#[test]
fn set_node_keeps_variables_and_visits() {
    let mut vm = machine(vec![node(
        "Start",
        vec![op(OpCode::PushNull, vec![]), op(OpCode::StoreVariable, vec![text("$v")])],
        &[],
    )]);
    vm.set_node("Start").unwrap();
    complete(vm.continue_dialogue().unwrap());
    vm.set_node("Start").unwrap();
    assert_eq!(vm.variable_storage.get("$v"), Some(&YarnValue::Null));
    assert_eq!(vm.visit_counter.get("Start"), Some(&1));
    assert_eq!(vm.state.program_counter, 0);
    assert!(vm.state.stack.is_empty());
}

#[test]
fn set_node_fails_on_what_the_program_lacks() {
    let mut vm = machine(vec![node("Start", vec![], &[])]);
    vm.set_node("Start").unwrap();
    assert!(matches!(vm.set_node("Nowhere"), Err(VmError::General(_))));
    assert_eq!(vm.execution_state, ExecutionState::Stopped);
    assert_eq!(vm.state.current_node_name, "Start");
    let mut empty = machine(vec![]);
    assert!(matches!(empty.set_node("Start"), Err(VmError::General(_))));
    assert_eq!(empty.execution_state, ExecutionState::Stopped);
    assert!(general(empty.continue_dialogue()));
}

#[test]
fn jumps_follow_labels() {
    let mut vm = machine(vec![node(
        "Start",
        vec![
            op(OpCode::JumpTo, vec![text("end")]),
            op(OpCode::RunLine, vec![text("skipped")]),
            op(OpCode::PushString, vec![text("back")]),
            op(OpCode::Jump, vec![]),
            op(OpCode::RunLine, vec![text("skipped too")]),
            op(OpCode::RunLine, vec![text("reached")]),
            op(OpCode::JumpTo, vec![text("far")]),
            op(OpCode::RunLine, vec![text("never")]),
        ],
        &[("end", 2), ("back", 5), ("far", 99)],
    )]);
    vm.set_node("Start").unwrap();
    assert_eq!(line(vm.continue_dialogue().unwrap()).0, "reached");
    assert_eq!(vm.state.stack, vec![YarnValue::Str("back".to_string())]);
    assert_eq!(complete(vm.continue_dialogue().unwrap()), "Start");
}

#[test]
fn a_negative_label_ends_the_node() {
    let mut vm =
        machine(vec![node("Start", vec![op(OpCode::JumpTo, vec![text("l")])], &[("l", -3)])]);
    vm.set_node("Start").unwrap();
    assert_eq!(complete(vm.continue_dialogue().unwrap()), "Start");
}

#[test]
fn calls_take_the_count_and_the_parameters() {
    let mut vm = machine(vec![node(
        "Start",
        vec![
            op(OpCode::PushString, vec![text("below")]),
            op(OpCode::PushString, vec![text("a")]),
            op(OpCode::PushFloat, vec![count(1.0)]),
            op(OpCode::PushFloat, vec![count(2.0)]),
            op(OpCode::CallFunc, vec![text("Add")]),
            op(OpCode::PushFloat, vec![count(7.0)]),
            op(OpCode::PushFloat, vec![count(8.0)]),
            op(OpCode::PushFloat, vec![count(9.0)]),
            op(OpCode::PushFloat, vec![count(3.0)]),
            op(OpCode::CallFunc, vec![text("last_value")]),
            op(OpCode::PushFloat, vec![count(0.0)]),
            op(OpCode::CallFunc, vec![text("nothing")]),
            op(OpCode::RunLine, vec![text("L"), count(3.0)]),
        ],
        &[],
    )]);
    vm.set_node("Start").unwrap();
    assert_eq!(line(vm.continue_dialogue().unwrap()).1, vec!["below", "a1", "9"]);
    assert!(vm.state.stack.is_empty());
}

#[test]
fn builtin_functions_answer() {
    let call = |name: &str, params: Vec<Operand>| {
        let mut instructions = Vec::new();
        let n = params.len();
        for param in params {
            let opcode = match &param.value {
                Some(yharnam::OperandValue::StringValue(_)) => OpCode::PushString,
                Some(yharnam::OperandValue::BoolValue(_)) => OpCode::PushBool,
                Some(yharnam::OperandValue::FloatValue(_)) => OpCode::PushFloat,
                None => OpCode::PushNull,
            };
            instructions.push(op(opcode, vec![param]));
        }
        instructions.push(op(OpCode::PushFloat, vec![count(n as f32)]));
        instructions.push(op(OpCode::CallFunc, vec![text(name)]));
        instructions.push(op(OpCode::RunLine, vec![text("L"), count(1.0)]));
        let mut vm = machine(vec![node("Start", instructions, &[])]);
        vm.set_node("Start").unwrap();
        line(vm.continue_dialogue().unwrap()).1[0].clone()
    };
    let yes = Operand::boolean(true);
    let no = Operand::boolean(false);
    assert_eq!(call("And", vec![yes.clone(), no.clone()]), "False");
    assert_eq!(call("And", vec![yes.clone(), text("x")]), "True");
    assert_eq!(call("Or", vec![no.clone(), count(0.0)]), "False");
    assert_eq!(call("Or", vec![no.clone(), count(0.5)]), "True");
    assert_eq!(call("Xor", vec![yes.clone(), yes.clone()]), "False");
    assert_eq!(call("Xor", vec![yes.clone(), text("")]), "True");
    assert_eq!(call("Not", vec![count(f32::NAN)]), "True");
    assert_eq!(call("EqualTo", vec![count(1.0), count(1.0)]), "True");
    assert_eq!(call("EqualTo", vec![count(0.0), count(-0.0)]), "True");
    assert_eq!(call("EqualTo", vec![count(f32::NAN), count(f32::NAN)]), "False");
    assert_eq!(call("EqualTo", vec![text("1"), count(1.0)]), "False");
    assert_eq!(call("NotEqualTo", vec![text("a"), text("b")]), "True");
    assert_eq!(call("GreaterThan", vec![count(2.0), count(-3.0)]), "True");
    assert_eq!(call("GreaterThan", vec![text("a"), text("b")]), "False");
    assert_eq!(call("GreaterThan", vec![yes.clone(), no.clone()]), "False");
    assert_eq!(call("GreaterThanOrEqualTo", vec![count(2.0), count(2.0)]), "True");
    assert_eq!(call("GreaterThanOrEqualTo", vec![count(2.0), text("2")]), "False");
    assert_eq!(call("LessThan", vec![text("ab"), text("b")]), "True");
    assert_eq!(call("LessThan", vec![count(-1.0), count(-0.5)]), "True");
    assert_eq!(call("LessThanOrEqualTo", vec![count(3.0), count(2.0)]), "False");
    assert_eq!(call("LessThanOrEqualTo", vec![yes.clone(), yes.clone()]), "True");
    assert_eq!(call("visited", vec![text("Start")]), "False");
}

#[test]
fn errors_come_with_their_inputs() {
    let run = |instructions: Vec<Instruction>| {
        let mut vm = machine(vec![node("Start", instructions, &[("l", 0)])]);
        vm.set_node("Start").unwrap();
        vm.continue_dialogue()
    };
    assert!(matches!(
        run(vec![op(OpCode::PushFloat, vec![count(0.0)]), op(OpCode::CallFunc, vec![text("gone")])]),
        Err(VmError::MissingLibraryFunction(name)) if name == "gone"
    ));
    assert!(general(run(vec![op(OpCode::CallFunc, vec![text("Add")])])));
    assert!(general(run(vec![
        op(OpCode::PushFloat, vec![count(1.0)]),
        op(OpCode::CallFunc, vec![text("Add")])
    ])));
    assert!(general(run(vec![
        op(OpCode::PushFloat, vec![count(2.0)]),
        op(OpCode::CallFunc, vec![text("Add")])
    ])));
    assert!(general(run(vec![
        op(OpCode::PushString, vec![text("2")]),
        op(OpCode::CallFunc, vec![text("last_value")])
    ])));
    assert!(general(run(vec![op(OpCode::CallFunc, vec![])])));
    assert!(matches!(
        run(vec![
            op(OpCode::PushBool, vec![Operand::boolean(true)]),
            op(OpCode::PushNull, vec![]),
            op(OpCode::PushFloat, vec![count(2.0)]),
            op(OpCode::CallFunc, vec![text("Minus")])
        ]),
        Err(VmError::General(message)) if message == "not defined for these values"
    ));
    assert!(general(run(vec![
        op(OpCode::PushFloat, vec![count(0.0)]),
        op(OpCode::CallFunc, vec![text("last_value")])
    ])));
    assert!(general(run(vec![Instruction { opcode: 17, operands: vec![] }])));
    assert!(general(run(vec![Instruction { opcode: -1, operands: vec![] }])));
    assert!(general(run(vec![op(OpCode::JumpTo, vec![text("unknown")])])));
    assert!(general(run(vec![op(OpCode::JumpTo, vec![])])));
    assert!(general(run(vec![op(OpCode::Jump, vec![])])));
    assert!(general(run(vec![op(OpCode::JumpIfFalse, vec![text("l")])])));
    assert!(general(run(vec![op(OpCode::PushNull, vec![]), op(OpCode::JumpIfFalse, vec![])])));
    assert!(general(run(vec![op(OpCode::RunLine, vec![])])));
    assert!(general(run(vec![op(OpCode::RunLine, vec![text("L"), count(1.0)])])));
    assert!(general(run(vec![op(OpCode::RunCommand, vec![count(1.0)])])));
    assert!(general(run(vec![op(OpCode::AddOption, vec![text("L")])])));
    assert!(general(run(vec![op(OpCode::PushString, vec![count(1.0)])])));
    assert!(general(run(vec![op(OpCode::PushFloat, vec![text("1")])])));
    assert!(general(run(vec![op(OpCode::PushBool, vec![])])));
    assert!(general(run(vec![op(OpCode::PushVariable, vec![])])));
    assert!(general(run(vec![op(OpCode::StoreVariable, vec![text("$x")])])));
    assert!(general(run(vec![op(OpCode::PushNull, vec![]), op(OpCode::StoreVariable, vec![])])));
    assert!(general(run(vec![op(OpCode::RunNode, vec![])])));
    assert!(general(run(vec![
        op(OpCode::PushString, vec![text("Nowhere")]),
        op(OpCode::RunNode, vec![])
    ])));
    let mut vm = machine(vec![node("Start", vec![], &[])]);
    assert!(general(vm.continue_dialogue()));
    assert_eq!(vm.execution_state, ExecutionState::Stopped);
}

#[test]
fn pop_on_an_empty_stack_goes_on() {
    let mut vm = machine(vec![node(
        "Start",
        vec![op(OpCode::Pop, vec![]), op(OpCode::PushVariable, vec![text("$none")])],
        &[],
    )]);
    vm.set_node("Start").unwrap();
    let result = vm.run_instruction(op(OpCode::Pop, vec![]));
    assert!(matches!(result, Err(VmError::NoOperation)));
    assert_eq!(vm.state.program_counter, 1);
    let result = vm.run_instruction(op(OpCode::PushVariable, vec![text("$none")]));
    assert!(matches!(result, Err(VmError::NoOperation)));
    assert_eq!(vm.state.stack, vec![YarnValue::Null]);
}

#[test]
fn peeking_instructions_leave_the_stack() {
    let mut vm = machine(vec![node("Start", vec![], &[("l", 0)])]);
    vm.set_node("Start").unwrap();
    vm.state.stack.push(YarnValue::Str("l".to_string()));
    vm.run_instruction(op(OpCode::Jump, vec![])).unwrap_err();
    assert_eq!(vm.state.stack.len(), 1);
    vm.run_instruction(op(OpCode::StoreVariable, vec![text("$k")])).unwrap_err();
    assert_eq!(vm.state.stack.len(), 1);
    vm.state.stack.push(YarnValue::Bool(false));
    vm.run_instruction(op(OpCode::JumpIfFalse, vec![text("l")])).unwrap_err();
    assert_eq!(vm.state.stack.len(), 2);
    assert_eq!(vm.variable_storage.get("$k"), Some(&YarnValue::Str("l".to_string())));
}

fn arities(vm: &VirtualMachine, names: &[(&str, u8)]) {
    for (name, arity) in names {
        let info = vm.library.get(name).unwrap_or_else(|| panic!("{name} is missing"));
        assert_eq!(info.param_count, ParamCount::N(*arity), "{name}");
    }
}

#[test]
fn a_new_machine_has_the_built_in_functions() {
    let vm = new_machine(Program::new());
    let names = [
        ("Add", 2),
        ("Minus", 2),
        ("UnaryMinus", 1),
        ("Divide", 2),
        ("Multiply", 2),
        ("Modulo", 2),
        ("EqualTo", 2),
        ("NotEqualTo", 2),
        ("GreaterThan", 2),
        ("GreaterThanOrEqualTo", 2),
        ("LessThan", 2),
        ("LessThanOrEqualTo", 2),
        ("And", 2),
        ("Or", 2),
        ("Xor", 2),
        ("Not", 1),
        ("visited", 1),
        ("visited_count", 1),
        ("floor", 1),
        ("ceil", 1),
        ("decimal", 1),
        ("dec", 1),
        ("inc", 1),
        ("round", 1),
        ("round_places", 2),
    ];
    assert_eq!(vm.library.len(), names.len());
    arities(&vm, &names);
    assert_eq!(ParamCount::from(-1), ParamCount::Variadic);
    assert_eq!(ParamCount::from(3), ParamCount::N(3));
}

#[test]
fn the_random_functions_are_added_under_their_names() {
    let mut vm = new_machine(Program::new());
    let zero = || host(|_, _| Ok(YarnValue::Number(Number::zero())));
    add_random_functions(
        &mut vm.library,
        RandomFunctions { dice: zero(), random: zero(), random_range: zero(), random_test: zero() },
    );
    arities(&vm, &[("dice", 1), ("random", 0), ("random_range", 2), ("random_test", 1)]);
    assert_eq!(vm.library.len(), 25 + 4);
}

#[test]
fn each_host_function_stands_under_its_own_name() {
    let call = |name: &str, params: &[f32]| {
        let mut instructions: Vec<Instruction> =
            params.iter().map(|p| op(OpCode::PushFloat, vec![count(*p)])).collect();
        instructions.push(op(OpCode::PushFloat, vec![count(params.len() as f32)]));
        instructions.push(op(OpCode::CallFunc, vec![text(name)]));
        instructions.push(op(OpCode::RunLine, vec![text("L"), count(1.0)]));
        let mut vm = machine(vec![node("Start", instructions, &[])]);
        vm.set_node("Start").unwrap();
        line(vm.continue_dialogue().unwrap()).1[0].clone()
    };
    assert_eq!(call("Add", &[7.0, 2.0]), "9");
    assert_eq!(call("Minus", &[7.0, 2.0]), "5");
    assert_eq!(call("UnaryMinus", &[7.0]), "-7");
    assert_eq!(call("Divide", &[7.0, 2.0]), "3.5");
    assert_eq!(call("Multiply", &[7.0, 2.0]), "14");
    assert_eq!(call("Modulo", &[7.0, 2.0]), "1");
    assert_eq!(call("floor", &[-2.5]), "-3");
    assert_eq!(call("ceil", &[-2.5]), "-2");
    assert_eq!(call("decimal", &[-2.25]), "0.25");
    assert_eq!(call("dec", &[2.0]), "1");
    assert_eq!(call("dec", &[2.5]), "2");
    assert_eq!(call("inc", &[2.0]), "3");
    assert_eq!(call("inc", &[2.5]), "3");
    assert_eq!(call("round", &[2.5]), "3");
    assert_eq!(call("round_places", &[2.126, 2.0]), "2.13");
}

#[test]
fn arithmetic_goes_through_the_host() {
    let mut vm = machine(vec![node(
        "Start",
        vec![
            op(OpCode::PushFloat, vec![count(7.0)]),
            op(OpCode::PushFloat, vec![count(2.0)]),
            op(OpCode::PushFloat, vec![count(2.0)]),
            op(OpCode::CallFunc, vec![text("Modulo")]),
            op(OpCode::PushFloat, vec![count(1.0)]),
            op(OpCode::CallFunc, vec![text("UnaryMinus")]),
            op(OpCode::PushNull, vec![]),
            op(OpCode::PushFloat, vec![count(2.0)]),
            op(OpCode::CallFunc, vec![text("Multiply")]),
            op(OpCode::RunLine, vec![text("L"), count(1.0)]),
            op(OpCode::PushString, vec![text("5")]),
            op(OpCode::PushFloat, vec![count(2.0)]),
            op(OpCode::PushFloat, vec![count(2.0)]),
            op(OpCode::CallFunc, vec![text("Minus")]),
        ],
        &[],
    )]);
    vm.set_node("Start").unwrap();
    assert_eq!(line(vm.continue_dialogue().unwrap()).1, vec!["-0"]);
    assert!(general(vm.continue_dialogue()));
}

#[test]
fn opcodes_have_their_codes() {
    let codes = [
        OpCode::JumpTo,
        OpCode::Jump,
        OpCode::RunLine,
        OpCode::RunCommand,
        OpCode::AddOption,
        OpCode::ShowOptions,
        OpCode::PushString,
        OpCode::PushFloat,
        OpCode::PushBool,
        OpCode::PushNull,
        OpCode::JumpIfFalse,
        OpCode::Pop,
        OpCode::CallFunc,
        OpCode::PushVariable,
        OpCode::StoreVariable,
        OpCode::Stop,
        OpCode::RunNode,
    ];
    for (code, opcode) in codes.iter().enumerate() {
        assert_eq!(OpCode::from_i32(code as i32), Some(*opcode));
        assert_eq!(opcode.to_i32(), code as i32);
    }
    assert_eq!(OpCode::from_i32(17), None);
    assert_eq!(OpCode::from_i32(-1), None);
}

#[test]
fn lines_take_their_substitutions() {
    let filled = |text: &str, substitutions: &[&str]| {
        let line = yharnam::Line::new(
            "id".to_string(),
            substitutions.iter().map(|s| s.to_string()).collect(),
        );
        line.fill(text)
    };
    assert_eq!(filled("a {0} b {1} c {0}", &["x", "y"]), "a x b y c {0}");
    assert_eq!(filled("{1}{0}", &["{1}", "z"]), "z{1}");
    assert_eq!(filled("nothing", &["x"]), "nothing");
    assert_eq!(filled("{0}", &[]), "{0}");
}

#[test]
fn a_call_is_taken_and_finished() {
    let mut vm = machine(vec![node("Start", vec![], &[])]);
    vm.set_node("Start").unwrap();
    for value in [string("below"), string("a"), YarnValue::Null, YarnValue::Number(num(2.0))] {
        vm.state.stack.push(value);
    }
    let params = vm.take_call("Add", &Number::zero()).unwrap();
    assert_eq!(params, vec![string("a"), YarnValue::Null]);
    assert_eq!(vm.state.stack, vec![string("below")]);
    assert_eq!(vm.state.program_counter, 0);
    assert!(matches!(vm.finish_call(Ok(Some(string("r")))), Err(VmError::NoOperation)));
    assert_eq!(vm.state.stack, vec![string("below"), string("r")]);
    assert_eq!(vm.state.program_counter, 1);
    assert!(matches!(vm.finish_call(Ok(None)), Err(VmError::NoOperation)));
    assert_eq!(vm.state.stack.len(), 2);
    assert_eq!(vm.state.program_counter, 2);
    assert!(matches!(
        vm.finish_call(Err("no".to_string())),
        Err(VmError::General(message)) if message == "no"
    ));
    assert_eq!(vm.state.stack.len(), 2);
    assert_eq!(vm.state.program_counter, 2);
}

#[test]
fn a_call_that_is_not_in_order_changes_nothing() {
    let mut vm = machine(vec![node("Start", vec![], &[])]);
    vm.set_node("Start").unwrap();
    vm.variable_storage.insert("$v".to_string(), YarnValue::Bool(true));
    vm.state.stack.push(string("a"));
    vm.state.stack.push(YarnValue::Number(num(1.0)));
    let unchanged = |vm: &VirtualMachine| {
        assert_eq!(vm.state.stack, vec![string("a"), YarnValue::Number(num(1.0))]);
        assert_eq!(vm.state.program_counter, 0);
        assert_eq!(vm.variable_storage.get("$v"), Some(&YarnValue::Bool(true)));
        assert_eq!(vm.execution_state, ExecutionState::Suspended);
    };
    assert!(matches!(
        vm.run_instruction(op(OpCode::CallFunc, vec![text("gone")])),
        Err(VmError::MissingLibraryFunction(name)) if name == "gone"
    ));
    unchanged(&vm);
    assert!(matches!(vm.take_call("Add", &Number::zero()), Err(VmError::General(_))));
    unchanged(&vm);
    assert!(general(vm.run_instruction(op(OpCode::JumpTo, vec![text("unknown")]))));
    unchanged(&vm);
    assert!(general(vm.run_instruction(op(OpCode::RunLine, vec![text("L"), count(3.0)]))));
    unchanged(&vm);
    assert!(general(vm.run_instruction(op(OpCode::PushString, vec![]))));
    unchanged(&vm);
}

#[test]
fn a_host_function_that_fails_leaves_the_stack_below_the_call() {
    let mut vm = machine(vec![node("Start", vec![], &[])]);
    vm.set_node("Start").unwrap();
    for value in [string("below"), YarnValue::Bool(true), YarnValue::Bool(false)] {
        vm.state.stack.push(value);
    }
    vm.state.stack.push(YarnValue::Number(num(2.0)));
    assert!(general(vm.run_instruction(op(OpCode::CallFunc, vec![text("Minus")]))));
    assert_eq!(vm.state.stack, vec![string("below")]);
    assert_eq!(vm.state.program_counter, 0);
}

#[test]
fn a_node_that_is_not_there_stops_the_machine() {
    let mut vm = machine(vec![node("Start", vec![], &[])]);
    vm.set_node("Start").unwrap();
    vm.state.stack.push(string("below"));
    vm.state.stack.push(string("Nowhere"));
    assert!(general(vm.run_instruction(op(OpCode::RunNode, vec![]))));
    assert_eq!(vm.state.stack, vec![string("below")]);
    assert_eq!(vm.visit_counter.get("Start"), Some(&1));
    assert_eq!(vm.execution_state, ExecutionState::Stopped);
    assert_eq!(vm.state.current_node_name, "Start");
}

#[test]
fn a_text_states_the_number_of_parameters_as_the_host_reads_it() {
    let run = |sentinel: &str| {
        let mut vm = machine(vec![node(
            "Start",
            vec![
                op(OpCode::PushString, vec![text("a")]),
                op(OpCode::PushString, vec![text("b")]),
                op(OpCode::PushString, vec![text(sentinel)]),
                op(OpCode::CallFunc, vec![text("last_value")]),
                op(OpCode::RunLine, vec![text("L"), count(1.0)]),
            ],
            &[],
        )]);
        vm.set_node("Start").unwrap();
        let result = vm.continue_dialogue().map(|reason| line(reason).1);
        (result, vm.state.stack.len())
    };
    assert_eq!(run("2").0.unwrap(), vec!["b"]);
    assert_eq!(run("2").1, 0);
    assert_eq!(run("1.9").0.unwrap(), vec!["b"]);
    assert_eq!(run("1.9").1, 1);
    assert!(matches!(run("none").0, Err(VmError::General(message)) if message == "no parameters"));
    assert!(matches!(run("3").0, Err(VmError::General(_))));
    let mut vm = machine(vec![node("Start", vec![], &[])]);
    vm.set_node("Start").unwrap();
    vm.state.stack.push(string("a"));
    vm.state.stack.push(string("text"));
    assert_eq!(vm.take_call("last_value", &num(1.0)).unwrap(), vec![string("a")]);
    assert!(vm.state.stack.is_empty());
}
