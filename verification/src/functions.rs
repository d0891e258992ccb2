//! The function library: what `CallFunc` can call.
//!
//! A function of the library is either one that the machine evaluates itself
//! (logic, comparison, visit queries) or one that the host supplies. What a
//! host function returns is its own business: the machine only puts the
//! result on the stack.

use vstd::prelude::*;
use vstd::hash_map::StringHashMap;
use vstd::std_specs::convert::FromSpecImpl;
use crate::number::Number;
use crate::value::{ValueView, YarnValue};

verus! {

/// How many parameters a function takes.
#[derive(Debug, Copy, Clone, PartialEq, Eq, Structural)]
pub enum ParamCount {
    N(u8),
    Variadic,
}

impl ParamCount {
    /// The count that a registration states: a number that is not negative
    /// is that many parameters, a negative one any number of them.
    pub open spec fn of(val: i8) -> ParamCount {
        if val >= 0 {
            ParamCount::N(val as u8)
        } else {
            ParamCount::Variadic
        }
    }

    /// Whether a call with `actual` parameters is in order.
    pub open spec fn admits(self, actual: int) -> bool {
        match self {
            ParamCount::N(n) => n == actual,
            ParamCount::Variadic => true,
        }
    }
}

impl From<i8> for ParamCount {
    fn from(val: i8) -> (count: ParamCount) {
        if val >= 0 {
            ParamCount::N(val as u8)
        } else {
            ParamCount::Variadic
        }
    }
}

impl FromSpecImpl<i8> for ParamCount {
    open spec fn obeys_from_spec() -> bool {
        true
    }

    open spec fn from_spec(val: i8) -> ParamCount {
        ParamCount::of(val)
    }
}

/// What a host function may read of the machine that calls it.
pub struct MachineHandle<'a> {
    pub variable_storage: &'a StringHashMap<YarnValue>,
    pub visit_counter: &'a StringHashMap<u64>,
}

/// A host function that returns nothing.
pub trait Function {
    /// Runs the function on `params`, in the order in which the dialogue
    /// handed them over.
    fn call(&self, machine: &MachineHandle, params: &[YarnValue]);
}

/// A host function that returns a value, or says why it has none for these
/// parameters.
pub trait ReturningFunction {
    /// Runs the function on `params`, in the order in which the dialogue
    /// handed them over. A message in place of a value ends the run of the
    /// dialogue with a general error.
    fn call(&self, machine: &MachineHandle, params: &[YarnValue]) -> Result<YarnValue, String>;
}

/// The host's reading of numbers.
pub trait NumberParser {
    /// The number that `text` stands for, and zero where it stands for
    /// none.
    fn parse(&self, text: &str) -> Number;
}

/// The functions that the machine evaluates itself.
#[derive(Debug, Copy, Clone, PartialEq, Eq, Structural)]
pub enum Builtin {
    EqualTo,
    NotEqualTo,
    GreaterThan,
    GreaterThanOrEqualTo,
    LessThan,
    LessThanOrEqualTo,
    And,
    Or,
    Xor,
    Not,
    Visited,
}

/// How often the node of this name was completed.
pub open spec fn visits_of(visits: Map<Seq<char>, u64>, name: Seq<char>) -> u64 {
    if visits.contains_key(name) {
        visits[name]
    } else {
        0
    }
}

impl Builtin {
    /// The number of parameters of the function.
    pub open spec fn arity(self) -> u8 {
        match self {
            Builtin::Not | Builtin::Visited => 1,
            _ => 2,
        }
    }

    /// What the function returns on `params`, of which there are as many as
    /// its arity, in a machine with these visit counts.
    pub open spec fn result(self, params: Seq<ValueView>, visits: Map<Seq<char>, u64>) -> ValueView {
        let a = params[0];
        let b = params[1];
        ValueView::Bool(
            match self {
                Builtin::EqualTo => a.equals(b),
                Builtin::NotEqualTo => !a.equals(b),
                Builtin::GreaterThan => b.less_than(a),
                Builtin::GreaterThanOrEqualTo => b.less_than(a) || a.equals(b),
                Builtin::LessThan => a.less_than(b),
                Builtin::LessThanOrEqualTo => a.less_than(b) || a.equals(b),
                Builtin::And => a.as_bool() && b.as_bool(),
                Builtin::Or => a.as_bool() || b.as_bool(),
                Builtin::Xor => a.as_bool() != b.as_bool(),
                Builtin::Not => !a.as_bool(),
                Builtin::Visited => visits_of(visits, a.as_string()) > 0,
            },
        )
    }

    /// The number of parameters of the function.
    pub fn param_count(self) -> (count: u8)
        ensures
            count == self.arity(),
    {
        match self {
            Builtin::Not | Builtin::Visited => 1,
            _ => 2,
        }
    }

    /// Evaluates the function.
    pub fn evaluate(self, visits: &StringHashMap<u64>, params: &[YarnValue]) -> (value: YarnValue)
        requires
            params@.len() == self.arity(),
        ensures
            value@ == self.result(crate::value::views_of(params@), visits@),
    {
        let a = &params[0];
        let flag = match self {
            Builtin::Not => !a.as_bool(),
            Builtin::Visited => {
                let name = a.as_string();
                visit_count(visits, name.as_str()) > 0
            },
            Builtin::EqualTo => a.equals(&params[1]),
            Builtin::NotEqualTo => !a.equals(&params[1]),
            Builtin::GreaterThan => params[1].less_than(a),
            Builtin::GreaterThanOrEqualTo => params[1].less_than(a) || a.equals(&params[1]),
            Builtin::LessThan => a.less_than(&params[1]),
            Builtin::LessThanOrEqualTo => a.less_than(&params[1]) || a.equals(&params[1]),
            Builtin::And => a.as_bool() && params[1].as_bool(),
            Builtin::Or => a.as_bool() || params[1].as_bool(),
            Builtin::Xor => a.as_bool() != params[1].as_bool(),
        };
        YarnValue::Bool(flag)
    }
}

/// A function of the library.
pub enum YarnFunction {
    Void(Box<dyn Function>),
    Returning(Box<dyn ReturningFunction>),
    Builtin(Builtin),
}

/// What kind of function a [`YarnFunction`] is.
pub enum FunctionKind {
    Void,
    Returning,
    Builtin(Builtin),
}

impl YarnFunction {
    pub open spec fn kind(&self) -> FunctionKind {
        match self {
            YarnFunction::Void(_) => FunctionKind::Void,
            YarnFunction::Returning(_) => FunctionKind::Returning,
            YarnFunction::Builtin(builtin) => FunctionKind::Builtin(*builtin),
        }
    }

    /// Calls the function. A function that the machine evaluates itself
    /// returns what [`Builtin::result`] says; of a host function only the
    /// kind of result is known: none from one that returns nothing, a value
    /// or a failure from one that returns a value.
    pub fn call(&self, machine: &MachineHandle, params: &[YarnValue]) -> (result: Result<
        Option<YarnValue>,
        String,
    >)
        requires
            self matches YarnFunction::Builtin(builtin) ==> params@.len() == builtin.arity(),
        ensures
            self is Void ==> result matches Ok(None),
            self is Returning ==> !(result matches Ok(None)),
            self matches YarnFunction::Builtin(builtin) ==> result matches Ok(Some(value))
                && value@ == builtin.result(
                crate::value::views_of(params@),
                machine.visit_counter@,
            ),
    {
        match self {
            YarnFunction::Void(func) => {
                func.call(machine, params);
                Ok(None)
            },
            YarnFunction::Returning(func) => {
                match func.call(machine, params) {
                    Ok(value) => Ok(Some(value)),
                    Err(message) => Err(message),
                }
            },
            YarnFunction::Builtin(builtin) => Ok(
                Some(builtin.evaluate(machine.visit_counter, params)),
            ),
        }
    }
}

/// What a [`FunctionInfo`] is in contracts.
pub struct SignatureView {
    pub param_count: ParamCount,
    pub kind: FunctionKind,
}

/// An entry of the library: a function and the number of its parameters.
pub struct FunctionInfo {
    pub param_count: ParamCount,
    pub func: YarnFunction,
}

impl View for FunctionInfo {
    type V = SignatureView;

    open spec fn view(&self) -> SignatureView {
        SignatureView { param_count: self.param_count, kind: self.func.kind() }
    }
}

/// The entry for `func` with `count` parameters.
pub open spec fn host_entry(count: u8, func: YarnFunction) -> FunctionInfo {
    FunctionInfo { param_count: ParamCount::N(count), func }
}

/// The entry for a function that the machine evaluates itself.
pub open spec fn builtin_entry(builtin: Builtin) -> FunctionInfo {
    FunctionInfo {
        param_count: ParamCount::N(builtin.arity()),
        func: YarnFunction::Builtin(builtin),
    }
}

impl FunctionInfo {
    /// The entry for a host function that returns nothing; a negative
    /// `param_count` lets it take any number of parameters.
    pub fn new(param_count: i8, func: Box<dyn Function>) -> (info: FunctionInfo)
        ensures
            info == (FunctionInfo {
                param_count: ParamCount::of(param_count),
                func: YarnFunction::Void(func),
            }),
    {
        FunctionInfo { param_count: ParamCount::from(param_count), func: YarnFunction::Void(func) }
    }

    /// The entry for a host function that returns a value; a negative
    /// `param_count` lets it take any number of parameters.
    pub fn new_returning(param_count: i8, func: Box<dyn ReturningFunction>) -> (info: FunctionInfo)
        ensures
            info == (FunctionInfo {
                param_count: ParamCount::of(param_count),
                func: YarnFunction::Returning(func),
            }),
    {
        FunctionInfo {
            param_count: ParamCount::from(param_count),
            func: YarnFunction::Returning(func),
        }
    }

    /// The entry for `func` with `count` parameters.
    pub fn with_count(count: u8, func: YarnFunction) -> (info: FunctionInfo)
        ensures
            info == host_entry(count, func),
    {
        FunctionInfo { param_count: ParamCount::N(count), func }
    }

    /// The entry for a function that the machine evaluates itself.
    pub fn builtin(builtin: Builtin) -> (info: FunctionInfo)
        ensures
            info == builtin_entry(builtin),
    {
        FunctionInfo {
            param_count: ParamCount::N(builtin.param_count()),
            func: YarnFunction::Builtin(builtin),
        }
    }
}

/// The library by name, entry by entry.
pub open spec fn library_view(library: Map<Seq<char>, FunctionInfo>) -> Map<
    Seq<char>,
    SignatureView,
> {
    Map::new(|name: Seq<char>| library.contains_key(name), |name: Seq<char>| library[name]@)
}

impl Builtin {
    /// The name under which the function stands in the library.
    pub open spec fn name(self) -> Seq<char> {
        match self {
            Builtin::EqualTo => "EqualTo"@,
            Builtin::NotEqualTo => "NotEqualTo"@,
            Builtin::GreaterThan => "GreaterThan"@,
            Builtin::GreaterThanOrEqualTo => "GreaterThanOrEqualTo"@,
            Builtin::LessThan => "LessThan"@,
            Builtin::LessThanOrEqualTo => "LessThanOrEqualTo"@,
            Builtin::And => "And"@,
            Builtin::Or => "Or"@,
            Builtin::Xor => "Xor"@,
            Builtin::Not => "Not"@,
            Builtin::Visited => "visited"@,
        }
    }

    /// The name under which the function stands in the library.
    pub fn library_name(self) -> (name: String)
        ensures
            name@ == self.name(),
    {
        match self {
            Builtin::EqualTo => "EqualTo".to_owned(),
            Builtin::NotEqualTo => "NotEqualTo".to_owned(),
            Builtin::GreaterThan => "GreaterThan".to_owned(),
            Builtin::GreaterThanOrEqualTo => "GreaterThanOrEqualTo".to_owned(),
            Builtin::LessThan => "LessThan".to_owned(),
            Builtin::LessThanOrEqualTo => "LessThanOrEqualTo".to_owned(),
            Builtin::And => "And".to_owned(),
            Builtin::Or => "Or".to_owned(),
            Builtin::Xor => "Xor".to_owned(),
            Builtin::Not => "Not".to_owned(),
            Builtin::Visited => "visited".to_owned(),
        }
    }
}

/// How often the node `name` was completed.
pub fn visit_count(visits: &StringHashMap<u64>, name: &str) -> (count: u64)
    ensures
        count == visits_of(visits@, name@),
{
    match visits.get(name) {
        Some(count) => *count,
        None => 0,
    }
}

/// `func` stands in the library under `name`.
pub open spec fn stands(library: Map<Seq<char>, FunctionInfo>, name: Seq<char>, func: YarnFunction) -> bool {
    library.contains_key(name) && library[name].func == func
}

/// What stands under `name`, or that nothing does, is the same in both
/// libraries.
pub open spec fn kept(
    before: Map<Seq<char>, FunctionInfo>,
    after: Map<Seq<char>, FunctionInfo>,
    name: Seq<char>,
) -> bool {
    (after.contains_key(name) <==> before.contains_key(name)) && after[name] == before[name]
}

/// The signatures of a library with the entry of `builtin` under its name.
pub open spec fn with_builtin(library: Map<Seq<char>, SignatureView>, builtin: Builtin) -> Map<
    Seq<char>,
    SignatureView,
> {
    library.insert(builtin.name(), builtin_entry(builtin)@)
}

/// The signatures of a library with, under `name`, a host function of
/// `count` parameters that returns a value.
pub open spec fn with_host(library: Map<Seq<char>, SignatureView>, name: Seq<char>, count: u8) -> Map<
    Seq<char>,
    SignatureView,
> {
    library.insert(
        name,
        SignatureView { param_count: ParamCount::N(count), kind: FunctionKind::Returning },
    )
}

/// Puts `info` into the library under `name`, in place of what stood there.
pub fn register_entry(library: &mut StringHashMap<FunctionInfo>, name: &str, info: FunctionInfo)
    ensures
        final(library)@ == old(library)@.insert(name@, info),
        library_view(final(library)@) == library_view(old(library)@).insert(name@, info@),
{
    library.insert(name.to_owned(), info);
    assert(library_view(library@) =~= library_view(old(library)@).insert(name@, info@));
}

/// Puts the entry of `builtin` into the library, in place of what stood
/// under its name.
pub fn register(library: &mut StringHashMap<FunctionInfo>, builtin: Builtin)
    ensures
        final(library)@ == old(library)@.insert(builtin.name(), builtin_entry(builtin)),
        library_view(final(library)@) == with_builtin(library_view(old(library)@), builtin),
{
    library.insert(builtin.library_name(), FunctionInfo::builtin(builtin));
    assert(library_view(library@) =~= with_builtin(library_view(old(library)@), builtin));
}

/// The arithmetic of the host. Each function takes the values as the
/// dialogue has them and does the floating-point work.
pub struct Arithmetic {
    pub add: Box<dyn ReturningFunction>,
    pub minus: Box<dyn ReturningFunction>,
    pub unary_minus: Box<dyn ReturningFunction>,
    pub divide: Box<dyn ReturningFunction>,
    pub multiply: Box<dyn ReturningFunction>,
    pub modulo: Box<dyn ReturningFunction>,
}

/// The visit function of the host.
pub struct VisitFunctions {
    pub visited_count: Box<dyn ReturningFunction>,
}

/// The number utilities of the host.
pub struct NumberUtilities {
    pub floor: Box<dyn ReturningFunction>,
    pub ceil: Box<dyn ReturningFunction>,
    pub decimal: Box<dyn ReturningFunction>,
    pub dec: Box<dyn ReturningFunction>,
    pub inc: Box<dyn ReturningFunction>,
    pub round: Box<dyn ReturningFunction>,
    pub round_places: Box<dyn ReturningFunction>,
}

/// The random functions of the host.
pub struct RandomFunctions {
    pub dice: Box<dyn ReturningFunction>,
    pub random: Box<dyn ReturningFunction>,
    pub random_range: Box<dyn ReturningFunction>,
    pub random_test: Box<dyn ReturningFunction>,
}

/// The length and the first two characters of a name.
pub open spec fn name_key(name: Seq<char>) -> (nat, char, char) {
    (name.len(), name[0], name[1])
}

/// The names of the functions of the library by their lengths and their
/// first two characters, by which no two of them are the same.
pub proof fn lemma_names()
    ensures
        name_key("Add"@) == (3nat, 'A', 'd'),
        name_key("Minus"@) == (5nat, 'M', 'i'),
        name_key("UnaryMinus"@) == (10nat, 'U', 'n'),
        name_key("Divide"@) == (6nat, 'D', 'i'),
        name_key("Multiply"@) == (8nat, 'M', 'u'),
        name_key("Modulo"@) == (6nat, 'M', 'o'),
        name_key("EqualTo"@) == (7nat, 'E', 'q'),
        name_key("NotEqualTo"@) == (10nat, 'N', 'o'),
        name_key("GreaterThan"@) == (11nat, 'G', 'r'),
        name_key("GreaterThanOrEqualTo"@) == (20nat, 'G', 'r'),
        name_key("LessThan"@) == (8nat, 'L', 'e'),
        name_key("LessThanOrEqualTo"@) == (17nat, 'L', 'e'),
        name_key("And"@) == (3nat, 'A', 'n'),
        name_key("Or"@) == (2nat, 'O', 'r'),
        name_key("Xor"@) == (3nat, 'X', 'o'),
        name_key("Not"@) == (3nat, 'N', 'o'),
        name_key("visited"@) == (7nat, 'v', 'i'),
        name_key("visited_count"@) == (13nat, 'v', 'i'),
        name_key("floor"@) == (5nat, 'f', 'l'),
        name_key("ceil"@) == (4nat, 'c', 'e'),
        name_key("decimal"@) == (7nat, 'd', 'e'),
        name_key("dec"@) == (3nat, 'd', 'e'),
        name_key("inc"@) == (3nat, 'i', 'n'),
        name_key("round"@) == (5nat, 'r', 'o'),
        name_key("round_places"@) == (12nat, 'r', 'o'),
        name_key("dice"@) == (4nat, 'd', 'i'),
        name_key("random"@) == (6nat, 'r', 'a'),
        name_key("random_range"@) == (12nat, 'r', 'a'),
        name_key("random_test"@) == (11nat, 'r', 'a'),
{
    reveal_strlit("Add");
    reveal_strlit("Minus");
    reveal_strlit("UnaryMinus");
    reveal_strlit("Divide");
    reveal_strlit("Multiply");
    reveal_strlit("Modulo");
    reveal_strlit("EqualTo");
    reveal_strlit("NotEqualTo");
    reveal_strlit("GreaterThan");
    reveal_strlit("GreaterThanOrEqualTo");
    reveal_strlit("LessThan");
    reveal_strlit("LessThanOrEqualTo");
    reveal_strlit("And");
    reveal_strlit("Or");
    reveal_strlit("Xor");
    reveal_strlit("Not");
    reveal_strlit("visited");
    reveal_strlit("visited_count");
    reveal_strlit("floor");
    reveal_strlit("ceil");
    reveal_strlit("decimal");
    reveal_strlit("dec");
    reveal_strlit("inc");
    reveal_strlit("round");
    reveal_strlit("round_places");
    reveal_strlit("dice");
    reveal_strlit("random");
    reveal_strlit("random_range");
    reveal_strlit("random_test");
}

/// The names of the mathematical functions.
pub open spec fn is_mathematical_name(name: Seq<char>) -> bool {
    ||| name == "Add"@
    ||| name == "Minus"@
    ||| name == "UnaryMinus"@
    ||| name == "Divide"@
    ||| name == "Multiply"@
    ||| name == "Modulo"@
    ||| name == "EqualTo"@
    ||| name == "NotEqualTo"@
    ||| name == "GreaterThan"@
    ||| name == "GreaterThanOrEqualTo"@
    ||| name == "LessThan"@
    ||| name == "LessThanOrEqualTo"@
}

/// The names of the logic functions.
pub open spec fn is_logic_name(name: Seq<char>) -> bool {
    name == "And"@ || name == "Or"@ || name == "Xor"@ || name == "Not"@
}

/// The names of the visit functions.
pub open spec fn is_visit_name(name: Seq<char>) -> bool {
    name == "visited"@ || name == "visited_count"@
}

/// The names of the number utilities.
pub open spec fn is_utility_name(name: Seq<char>) -> bool {
    ||| name == "floor"@
    ||| name == "ceil"@
    ||| name == "decimal"@
    ||| name == "dec"@
    ||| name == "inc"@
    ||| name == "round"@
    ||| name == "round_places"@
}

/// The names of the random functions.
pub open spec fn is_random_name(name: Seq<char>) -> bool {
    name == "dice"@ || name == "random"@ || name == "random_range"@ || name == "random_test"@
}

/// The signatures of a library with the mathematical functions: host
/// functions `Add`, `Minus`, `Divide`, `Multiply` and `Modulo` of two
/// parameters and `UnaryMinus` of one, and the comparisons of two
/// parameters.
pub open spec fn with_mathematical_functions(library: Map<Seq<char>, SignatureView>) -> Map<
    Seq<char>,
    SignatureView,
> {
    let arithmetic = with_host(
        with_host(
            with_host(
                with_host(with_host(with_host(library, "Add"@, 2), "Minus"@, 2), "UnaryMinus"@, 1),
                "Divide"@,
                2,
            ),
            "Multiply"@,
            2,
        ),
        "Modulo"@,
        2,
    );
    with_builtin(
        with_builtin(
            with_builtin(
                with_builtin(
                    with_builtin(with_builtin(arithmetic, Builtin::EqualTo), Builtin::NotEqualTo),
                    Builtin::GreaterThan,
                ),
                Builtin::GreaterThanOrEqualTo,
            ),
            Builtin::LessThan,
        ),
        Builtin::LessThanOrEqualTo,
    )
}

/// The signatures of a library with the logic functions: `And`, `Or` and
/// `Xor` of two parameters, `Not` of one.
pub open spec fn with_logic_functions(library: Map<Seq<char>, SignatureView>) -> Map<
    Seq<char>,
    SignatureView,
> {
    with_builtin(
        with_builtin(with_builtin(with_builtin(library, Builtin::And), Builtin::Or), Builtin::Xor),
        Builtin::Not,
    )
}

/// The signatures of a library with the visit functions: `visited` and a
/// host function `visited_count`, of one parameter each.
pub open spec fn with_visited_functions(library: Map<Seq<char>, SignatureView>) -> Map<
    Seq<char>,
    SignatureView,
> {
    with_host(with_builtin(library, Builtin::Visited), "visited_count"@, 1)
}

/// The signatures of a library with the number utilities: host functions
/// `floor`, `ceil`, `decimal`, `dec`, `inc` and `round` of one parameter,
/// `round_places` of two.
pub open spec fn with_number_utility_functions(library: Map<Seq<char>, SignatureView>) -> Map<
    Seq<char>,
    SignatureView,
> {
    with_host(
        with_host(
            with_host(
                with_host(
                    with_host(with_host(with_host(library, "floor"@, 1), "ceil"@, 1), "decimal"@, 1),
                    "dec"@,
                    1,
                ),
                "inc"@,
                1,
            ),
            "round"@,
            1,
        ),
        "round_places"@,
        2,
    )
}

/// The signatures of a library with the random functions: host functions
/// `dice` and `random_test` of one parameter, `random` of none,
/// `random_range` of two.
pub open spec fn with_random_functions(library: Map<Seq<char>, SignatureView>) -> Map<
    Seq<char>,
    SignatureView,
> {
    with_host(
        with_host(with_host(with_host(library, "dice"@, 1), "random"@, 0), "random_range"@, 2),
        "random_test"@,
        1,
    )
}

/// The arithmetic of the host stands in the library, each function under
/// its name.
pub open spec fn holds_arithmetic(
    library: Map<Seq<char>, FunctionInfo>,
    arithmetic: Arithmetic,
) -> bool {
    &&& stands(library, "Add"@, YarnFunction::Returning(arithmetic.add))
    &&& stands(library, "Minus"@, YarnFunction::Returning(arithmetic.minus))
    &&& stands(library, "UnaryMinus"@, YarnFunction::Returning(arithmetic.unary_minus))
    &&& stands(library, "Divide"@, YarnFunction::Returning(arithmetic.divide))
    &&& stands(library, "Multiply"@, YarnFunction::Returning(arithmetic.multiply))
    &&& stands(library, "Modulo"@, YarnFunction::Returning(arithmetic.modulo))
}

/// The number utilities of the host stand in the library, each function
/// under its name.
pub open spec fn holds_utilities(
    library: Map<Seq<char>, FunctionInfo>,
    utilities: NumberUtilities,
) -> bool {
    &&& stands(library, "floor"@, YarnFunction::Returning(utilities.floor))
    &&& stands(library, "ceil"@, YarnFunction::Returning(utilities.ceil))
    &&& stands(library, "decimal"@, YarnFunction::Returning(utilities.decimal))
    &&& stands(library, "dec"@, YarnFunction::Returning(utilities.dec))
    &&& stands(library, "inc"@, YarnFunction::Returning(utilities.inc))
    &&& stands(library, "round"@, YarnFunction::Returning(utilities.round))
    &&& stands(library, "round_places"@, YarnFunction::Returning(utilities.round_places))
}

/// The random functions of the host stand in the library, each function
/// under its name.
pub open spec fn holds_random(library: Map<Seq<char>, FunctionInfo>, random: RandomFunctions) -> bool {
    &&& stands(library, "dice"@, YarnFunction::Returning(random.dice))
    &&& stands(library, "random"@, YarnFunction::Returning(random.random))
    &&& stands(library, "random_range"@, YarnFunction::Returning(random.random_range))
    &&& stands(library, "random_test"@, YarnFunction::Returning(random.random_test))
}

/// Adds mathematical functions such as addition, subtraction and so on to
/// the library: the host's arithmetic, each function under its name, and
/// the comparisons. What stands under other names stays.
pub fn add_mathematical_functions(library: &mut StringHashMap<FunctionInfo>, arithmetic: Arithmetic)
    ensures
        library_view(final(library)@) == with_mathematical_functions(library_view(old(library)@)),
        holds_arithmetic(final(library)@, arithmetic),
        forall|name: Seq<char>|
            !is_mathematical_name(name) ==> #[trigger] kept(old(library)@, final(library)@, name),
{
    proof {
        lemma_names();
    }
    register_entry(library, "Add", FunctionInfo::with_count(2, YarnFunction::Returning(arithmetic.add)));
    register_entry(
        library,
        "Minus",
        FunctionInfo::with_count(2, YarnFunction::Returning(arithmetic.minus)),
    );
    register_entry(
        library,
        "UnaryMinus",
        FunctionInfo::with_count(1, YarnFunction::Returning(arithmetic.unary_minus)),
    );
    register_entry(
        library,
        "Divide",
        FunctionInfo::with_count(2, YarnFunction::Returning(arithmetic.divide)),
    );
    register_entry(
        library,
        "Multiply",
        FunctionInfo::with_count(2, YarnFunction::Returning(arithmetic.multiply)),
    );
    register_entry(
        library,
        "Modulo",
        FunctionInfo::with_count(2, YarnFunction::Returning(arithmetic.modulo)),
    );
    register(library, Builtin::EqualTo);
    register(library, Builtin::NotEqualTo);
    register(library, Builtin::GreaterThan);
    register(library, Builtin::GreaterThanOrEqualTo);
    register(library, Builtin::LessThan);
    register(library, Builtin::LessThanOrEqualTo);
}

/// Adds logic functions to the library, such as "and", "or" and so on. What
/// stands under other names stays.
pub fn add_logic_functions(library: &mut StringHashMap<FunctionInfo>)
    ensures
        library_view(final(library)@) == with_logic_functions(library_view(old(library)@)),
        forall|name: Seq<char>|
            !is_logic_name(name) ==> #[trigger] kept(old(library)@, final(library)@, name),
{
    proof {
        lemma_names();
    }
    register(library, Builtin::And);
    register(library, Builtin::Or);
    register(library, Builtin::Xor);
    register(library, Builtin::Not);
}

/// Adds functions such as "visited" and "visited_count" to the library, the
/// host's function under `visited_count`. What stands under other names
/// stays.
pub fn add_visited_functions(library: &mut StringHashMap<FunctionInfo>, visits: VisitFunctions)
    ensures
        library_view(final(library)@) == with_visited_functions(library_view(old(library)@)),
        stands(final(library)@, "visited_count"@, YarnFunction::Returning(visits.visited_count)),
        forall|name: Seq<char>|
            !is_visit_name(name) ==> #[trigger] kept(old(library)@, final(library)@, name),
{
    proof {
        lemma_names();
    }
    register(library, Builtin::Visited);
    register_entry(
        library,
        "visited_count",
        FunctionInfo::with_count(1, YarnFunction::Returning(visits.visited_count)),
    );
}

/// Adds the number utilities of the host to the library, each function
/// under its name. What stands under other names stays.
pub fn add_number_utility_functions(
    library: &mut StringHashMap<FunctionInfo>,
    utilities: NumberUtilities,
)
    ensures
        library_view(final(library)@) == with_number_utility_functions(
            library_view(old(library)@),
        ),
        holds_utilities(final(library)@, utilities),
        forall|name: Seq<char>|
            !is_utility_name(name) ==> #[trigger] kept(old(library)@, final(library)@, name),
{
    proof {
        lemma_names();
    }
    register_entry(
        library,
        "floor",
        FunctionInfo::with_count(1, YarnFunction::Returning(utilities.floor)),
    );
    register_entry(
        library,
        "ceil",
        FunctionInfo::with_count(1, YarnFunction::Returning(utilities.ceil)),
    );
    register_entry(
        library,
        "decimal",
        FunctionInfo::with_count(1, YarnFunction::Returning(utilities.decimal)),
    );
    register_entry(library, "dec", FunctionInfo::with_count(1, YarnFunction::Returning(utilities.dec)));
    register_entry(library, "inc", FunctionInfo::with_count(1, YarnFunction::Returning(utilities.inc)));
    register_entry(
        library,
        "round",
        FunctionInfo::with_count(1, YarnFunction::Returning(utilities.round)),
    );
    register_entry(
        library,
        "round_places",
        FunctionInfo::with_count(2, YarnFunction::Returning(utilities.round_places)),
    );
}

/// Adds the random number functions of the host to the library, each
/// function under its name. What stands under other names stays.
pub fn add_random_functions(library: &mut StringHashMap<FunctionInfo>, random: RandomFunctions)
    ensures
        library_view(final(library)@) == with_random_functions(library_view(old(library)@)),
        holds_random(final(library)@, random),
        forall|name: Seq<char>|
            !is_random_name(name) ==> #[trigger] kept(old(library)@, final(library)@, name),
{
    proof {
        lemma_names();
    }
    register_entry(library, "dice", FunctionInfo::with_count(1, YarnFunction::Returning(random.dice)));
    register_entry(
        library,
        "random",
        FunctionInfo::with_count(0, YarnFunction::Returning(random.random)),
    );
    register_entry(
        library,
        "random_range",
        FunctionInfo::with_count(2, YarnFunction::Returning(random.random_range)),
    );
    register_entry(
        library,
        "random_test",
        FunctionInfo::with_count(1, YarnFunction::Returning(random.random_test)),
    );
}

/// The signatures of the library that a new machine starts with: the
/// mathematical, the logic and the visit functions and the number
/// utilities.
pub open spec fn builtin_library() -> Map<Seq<char>, SignatureView> {
    with_number_utility_functions(
        with_visited_functions(with_logic_functions(with_mathematical_functions(Map::empty()))),
    )
}

} // verus!
