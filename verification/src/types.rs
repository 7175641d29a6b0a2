//! Values, signatures and source positions.

use vstd::prelude::*;
use vstd::string::*;
use crate::ast::{ExprView, Expression};
use crate::dictionary::Dictionary;
use crate::error::{ErrorView, LoomError};
use crate::floats::{FloatArithmetic, FloatBits};
use crate::views::views;
use crate::text::{
    bool_text, bool_to_text, int_text, int_to_text, join, join_text, nat_text, texts,
    unsigned_to_text,
};

verus! {

/// The kinds of executable definition.
#[derive(Debug, Clone, Copy, PartialEq, Eq, Structural, Hash)]
pub enum DefinitionKind {
    Recipe,
    Job,
    Pipeline,
    Schedule,
}

/// How the children of a composite node are meant to be run.
#[derive(Debug, Clone, Copy, PartialEq, Eq, Structural)]
pub enum ParallelizationKind {
    Parallel { max_thread: u8 },
    Sequential,
}

impl Default for ParallelizationKind {
    fn default() -> (r: Self)
        ensures
            r == ParallelizationKind::Sequential,
    {
        ParallelizationKind::Sequential
    }
}

/// A place in a source file.
#[derive(Debug, PartialEq)]
pub struct Position {
    pub line: usize,
    pub column: usize,
    pub file: Option<String>,
}

/// A position as the contracts see it.
pub struct PositionView {
    pub line: nat,
    pub column: nat,
    pub file: Option<Seq<char>>,
}

/// Line 1, column 1, no file: where an error points when nothing better is known.
pub open spec fn start_position() -> PositionView {
    PositionView { line: 1, column: 1, file: None }
}

/// The view of an optional string.
pub open spec fn optional_text(s: Option<String>) -> Option<Seq<char>> {
    match s {
        Some(t) => Some(t@),
        None => None,
    }
}

/// The view of an optional position.
pub open spec fn optional_position(p: Option<Position>) -> Option<PositionView> {
    match p {
        Some(q) => Some(q@),
        None => None,
    }
}

/// The given position, or the start of the file.
pub open spec fn position_or_start(p: Option<PositionView>) -> PositionView {
    match p {
        Some(q) => q,
        None => start_position(),
    }
}

impl View for Position {
    type V = PositionView;

    open spec fn view(&self) -> PositionView {
        PositionView {
            line: self.line as nat,
            column: self.column as nat,
            file: optional_text(self.file),
        }
    }
}

impl PositionView {
    /// `line:column`, as positions are shown in messages.
    pub open spec fn text(self) -> Seq<char> {
        nat_text(self.line) + ":"@ + nat_text(self.column)
    }
}

impl Clone for Position {
    fn clone(&self) -> (r: Self)
        ensures
            r@ == self@,
    {
        Position { line: self.line, column: self.column, file: clone_optional_text(&self.file) }
    }
}

impl Default for Position {
    fn default() -> (r: Self)
        ensures
            r@ == start_position(),
    {
        Position { line: 1, column: 1, file: None }
    }
}

impl Position {
    pub fn new(line: usize, column: usize) -> (r: Self)
        ensures
            r@ == (PositionView { line: line as nat, column: column as nat, file: None }),
    {
        Position { line, column, file: None }
    }

    /// `line:column`.
    pub fn to_text(&self) -> (r: String)
        ensures
            r@ == self@.text(),
    {
        let mut out = unsigned_to_text(self.line as u64);
        out.append(":");
        let column = unsigned_to_text(self.column as u64);
        out.append(column.as_str());
        out
    }
}

/// A copy of an optional string.
pub fn clone_optional_text(s: &Option<String>) -> (r: Option<String>)
    ensures
        optional_text(r) == optional_text(*s),
{
    match s {
        Some(t) => Some(t.clone()),
        None => None,
    }
}

/// A copy of an optional position.
pub fn clone_optional_position(p: &Option<Position>) -> (r: Option<Position>)
    ensures
        optional_position(r) == optional_position(*p),
{
    match p {
        Some(q) => Some(q.clone()),
        None => None,
    }
}

/// The given position, or line 1, column 1.
pub fn position_or_default(p: Option<Position>) -> (r: Position)
    ensures
        r@ == position_or_start(optional_position(p)),
{
    match p {
        Some(q) => q,
        None => Position { line: 1, column: 1, file: None },
    }
}


/// A value that needs no further evaluation.
#[derive(Debug, PartialEq)]
pub enum LiteralValue {
    String(String),
    Number(i64),
    Float(FloatBits),
    Boolean(bool),
    Array(Vec<LiteralValue>),
    /// A JSON document, held as its text.
    Json(String),
}

/// A literal as the contracts see it.
pub enum LiteralView {
    String(Seq<char>),
    Number(int),
    Float(FloatBits),
    Boolean(bool),
    Array(Seq<LiteralView>),
    Json(Seq<char>),
}

/// The views of a list of literals.
pub open spec fn literal_views(v: Seq<LiteralValue>) -> Seq<LiteralView>
    decreases v,
{
    Seq::new(
        v.len(),
        |i: int|
            if 0 <= i < v.len() {
                literal_view(v[i])
            } else {
                LiteralView::Boolean(false)
            },
    )
}

/// The view of a literal.
pub open spec fn literal_view(l: LiteralValue) -> LiteralView
    decreases l,
{
    match l {
        LiteralValue::String(s) => LiteralView::String(s@),
        LiteralValue::Number(n) => LiteralView::Number(n as int),
        LiteralValue::Float(x) => LiteralView::Float(x),
        LiteralValue::Boolean(b) => LiteralView::Boolean(b),
        LiteralValue::Array(items) => LiteralView::Array(literal_views(items@)),
        LiteralValue::Json(s) => LiteralView::Json(s@),
    }
}

impl View for LiteralValue {
    type V = LiteralView;

    open spec fn view(&self) -> LiteralView {
        literal_view(*self)
    }
}

/// A copy of a list of literals.
pub fn clone_literals(v: &Vec<LiteralValue>) -> (r: Vec<LiteralValue>)
    ensures
        literal_views(r@) == literal_views(v@),
    decreases v,
{
    let mut out: Vec<LiteralValue> = Vec::new();
    let mut i: usize = 0;
    while i < v.len()
        invariant
            i <= v.len(),
            out.len() == i,
            forall|j: int| 0 <= j < i ==> out@[j]@ == v@[j]@,
        decreases v.len() - i,
    {
        out.push(v[i].clone());
        i += 1;
    }
    assert(literal_views(out@) =~= literal_views(v@));
    out
}

impl Clone for LiteralValue {
    fn clone(&self) -> (r: Self)
        ensures
            r@ == self@,
        decreases self,
    {
        match self {
            LiteralValue::String(s) => LiteralValue::String(s.clone()),
            LiteralValue::Number(n) => LiteralValue::Number(*n),
            LiteralValue::Float(x) => LiteralValue::Float(*x),
            LiteralValue::Boolean(b) => LiteralValue::Boolean(*b),
            LiteralValue::Array(items) => LiteralValue::Array(clone_literals(items)),
            LiteralValue::Json(s) => LiteralValue::Json(s.clone()),
        }
    }
}

impl LiteralView {
    /// The name of the variant, as messages give it.
    pub open spec fn kind_name(self) -> Seq<char> {
        match self {
            LiteralView::String(_) => "String"@,
            LiteralView::Number(_) => "Number"@,
            LiteralView::Float(_) => "Float"@,
            LiteralView::Boolean(_) => "Boolean"@,
            LiteralView::Array(_) => "Array"@,
            LiteralView::Json(_) => "Json"@,
        }
    }

    /// Whether a floating-point number occurs in the literal.
    pub open spec fn has_float(self) -> bool
        decreases self,
    {
        match self {
            LiteralView::Float(_) => true,
            LiteralView::Array(items) => any_float(items),
            _ => false,
        }
    }

    /// The text of a literal in which no floating-point number occurs: a
    /// string and a JSON document as they are, a number in decimal, a boolean
    /// as `true` or `false`, an array as its items in square brackets with a
    /// comma and a space between them.
    pub open spec fn text(self) -> Seq<char>
        decreases self,
    {
        match self {
            LiteralView::String(s) => s,
            LiteralView::Number(n) => int_text(n),
            LiteralView::Float(_) => Seq::empty(),
            LiteralView::Boolean(b) => bool_text(b),
            LiteralView::Array(items) => "["@ + join_text(item_texts(items), ", "@) + "]"@,
            LiteralView::Json(s) => s,
        }
    }

    /// Equality of literals: the same variant and equal contents, item by
    /// item for arrays; floating-point numbers compare as IEEE numbers.
    pub open spec fn same(self, other: LiteralView) -> bool
        decreases self,
    {
        match (self, other) {
            (LiteralView::String(a), LiteralView::String(b)) => a == b,
            (LiteralView::Number(a), LiteralView::Number(b)) => a == b,
            (LiteralView::Float(a), LiteralView::Float(b)) => a.same_number(b),
            (LiteralView::Boolean(a), LiteralView::Boolean(b)) => a == b,
            (LiteralView::Array(a), LiteralView::Array(b)) => a.len() == b.len() && forall|i: int|
                0 <= i < a.len() ==> (#[trigger] a[i]).same(b[i]),
            (LiteralView::Json(a), LiteralView::Json(b)) => a == b,
            _ => false,
        }
    }
}

/// Whether a floating-point number occurs in one of the items.
pub open spec fn any_float(items: Seq<LiteralView>) -> bool
    decreases items,
{
    exists|i: int| 0 <= i < items.len() && (#[trigger] items[i]).has_float()
}

/// The texts of the items of an array.
pub open spec fn item_texts(items: Seq<LiteralView>) -> Seq<Seq<char>>
    decreases items,
{
    Seq::new(
        items.len(),
        |i: int|
            if 0 <= i < items.len() {
                items[i].text()
            } else {
                Seq::empty()
            },
    )
}

/// Whether two lists of literals are equal item by item.
fn equal_literals(a: &Vec<LiteralValue>, b: &Vec<LiteralValue>) -> (r: bool)
    ensures
        r == (LiteralView::Array(literal_views(a@)).same(LiteralView::Array(literal_views(b@)))),
    decreases a,
{
    if a.len() != b.len() {
        return false;
    }
    let mut i: usize = 0;
    while i < a.len()
        invariant
            i <= a.len(),
            a.len() == b.len(),
            forall|j: int| 0 <= j < i ==> (#[trigger] literal_views(a@)[j]).same(literal_views(b@)[j]),
        decreases a.len() - i,
    {
        if !a[i].equals(&b[i]) {
            assert(!literal_views(a@)[i as int].same(literal_views(b@)[i as int]));
            return false;
        }
        i += 1;
    }
    true
}

/// The texts of a list of literals.
fn stringify_literals<F: FloatArithmetic>(items: &Vec<LiteralValue>, floats: &F) -> (r: Vec<String>)
    ensures
        r.len() == items.len(),
        !LiteralView::Array(literal_views(items@)).has_float() ==> texts(r@) == item_texts(
            literal_views(items@),
        ),
    decreases items,
{
    let mut parts: Vec<String> = Vec::new();
    let mut i: usize = 0;
    while i < items.len()
        invariant
            i <= items.len(),
            parts.len() == i,
            forall|j: int|
                0 <= j < i && !(#[trigger] literal_views(items@)[j]).has_float() ==> parts@[j]@
                    == literal_views(items@)[j].text(),
        decreases items.len() - i,
    {
        parts.push(items[i].stringify(floats));
        i += 1;
    }
    proof {
        let views = literal_views(items@);
        if !LiteralView::Array(views).has_float() {
            assert forall|j: int| 0 <= j < views.len() implies parts@[j]@ == views[j].text() by {
                if views[j].has_float() {
                    assert(any_float(views));
                }
            }
            assert(texts(parts@) =~= item_texts(views));
        }
    }
    parts
}

impl LiteralValue {
    /// The name of the variant.
    pub fn kind_name(&self) -> (r: String)
        ensures
            r@ == self@.kind_name(),
    {
        match self {
            LiteralValue::String(_) => String::from_str("String"),
            LiteralValue::Number(_) => String::from_str("Number"),
            LiteralValue::Float(_) => String::from_str("Float"),
            LiteralValue::Boolean(_) => String::from_str("Boolean"),
            LiteralValue::Array(_) => String::from_str("Array"),
            LiteralValue::Json(_) => String::from_str("Json"),
        }
    }

    /// Whether two literals are equal.
    pub fn equals(&self, other: &LiteralValue) -> (r: bool)
        ensures
            r == self@.same(other@),
        decreases self,
    {
        match (self, other) {
            (LiteralValue::String(a), LiteralValue::String(b)) => *a == *b,
            (LiteralValue::Number(a), LiteralValue::Number(b)) => *a == *b,
            (LiteralValue::Float(a), LiteralValue::Float(b)) => a.equals(*b),
            (LiteralValue::Boolean(a), LiteralValue::Boolean(b)) => *a == *b,
            (LiteralValue::Array(a), LiteralValue::Array(b)) => equal_literals(a, b),
            (LiteralValue::Json(a), LiteralValue::Json(b)) => *a == *b,
            _ => false,
        }
    }

    /// The text of the literal. A floating-point number is rendered by
    /// `floats`: its text is what `floats` answered for it.
    pub fn stringify<F: FloatArithmetic>(&self, floats: &F) -> (r: String)
        ensures
            !self@.has_float() ==> r@ == self@.text(),
            self@ is Float ==> call_ensures(F::render, (floats, self@->Float_0), r),
        decreases self,
    {
        match self {
            LiteralValue::String(s) => s.clone(),
            LiteralValue::Number(n) => int_to_text(*n),
            LiteralValue::Float(x) => floats.render(*x),
            LiteralValue::Boolean(b) => bool_to_text(*b),
            LiteralValue::Array(items) => {
                let parts = stringify_literals(items, floats);
                let mut out = String::from_str("[");
                let body = join(&parts, ", ");
                out.append(body.as_str());
                out.append("]");
                out
            },
            LiteralValue::Json(s) => s.clone(),
        }
    }
}


/// One parameter of a signature. Its default is kept unevaluated.
#[derive(Debug, PartialEq)]
pub struct ParameterDefinition {
    pub name: String,
    /// `bool`, `number`, `float`, `string`, or the name of an enum.
    pub param_type: Option<String>,
    pub default_value: Option<Expression>,
    pub required: bool,
}

/// A parameter as the contracts see it.
pub struct ParameterView {
    pub name: Seq<char>,
    pub param_type: Option<Seq<char>>,
    pub default_value: Option<ExprView>,
    pub required: bool,
}

/// The view of an optional expression.
pub open spec fn optional_expression(e: Option<Expression>) -> Option<ExprView> {
    match e {
        Some(x) => Some(x@),
        None => None,
    }
}

impl View for ParameterDefinition {
    type V = ParameterView;

    open spec fn view(&self) -> ParameterView {
        ParameterView {
            name: self.name@,
            param_type: optional_text(self.param_type),
            default_value: optional_expression(self.default_value),
            required: self.required,
        }
    }
}

impl Clone for ParameterDefinition {
    fn clone(&self) -> (r: Self)
        ensures
            r@ == self@,
    {
        ParameterDefinition {
            name: self.name.clone(),
            param_type: clone_optional_text(&self.param_type),
            default_value: match &self.default_value {
                Some(e) => Some(e.clone()),
                None => None,
            },
            required: self.required,
        }
    }
}

/// The name of a definition and the parameters it takes, in order.
#[derive(Debug, PartialEq)]
pub struct Signature {
    pub name: String,
    pub parameters: Vec<ParameterDefinition>,
}

/// A signature as the contracts see it.
pub struct SignatureView {
    pub name: Seq<char>,
    pub parameters: Seq<ParameterView>,
}

impl View for Signature {
    type V = SignatureView;

    open spec fn view(&self) -> SignatureView {
        SignatureView { name: self.name@, parameters: views(self.parameters@) }
    }
}

impl Clone for Signature {
    fn clone(&self) -> (r: Self)
        ensures
            r@ == self@,
    {
        let mut out: Vec<ParameterDefinition> = Vec::new();
        let mut i: usize = 0;
        while i < self.parameters.len()
            invariant
                i <= self.parameters.len(),
                out.len() == i,
                forall|j: int| 0 <= j < i ==> out@[j]@ == self.parameters@[j]@,
            decreases self.parameters.len() - i,
        {
            out.push(self.parameters[i].clone());
            i += 1;
        }
        assert(views(out@) =~= views(self.parameters@));
        Signature { name: self.name.clone(), parameters: out }
    }
}

/// A value at run time: a literal, an expression still to be evaluated, or
/// nothing.
#[derive(Debug, PartialEq)]
pub enum LoomValue {
    Literal(LiteralValue),
    Expression(Box<Expression>),
    Empty,
}

/// A value as the contracts see it.
pub enum ValueView {
    Literal(LiteralView),
    Expression(ExprView),
    Empty,
}

impl View for LoomValue {
    type V = ValueView;

    open spec fn view(&self) -> ValueView {
        match self {
            LoomValue::Literal(l) => ValueView::Literal(l@),
            LoomValue::Expression(e) => ValueView::Expression((**e)@),
            LoomValue::Empty => ValueView::Empty,
        }
    }
}

impl Clone for LoomValue {
    fn clone(&self) -> (r: Self)
        ensures
            r@ == self@,
    {
        match self {
            LoomValue::Literal(l) => LoomValue::Literal(l.clone()),
            LoomValue::Expression(e) => LoomValue::Expression(Box::new((**e).clone())),
            LoomValue::Empty => LoomValue::Empty,
        }
    }
}

impl ValueView {
    /// `literal`, `expression` or `empty`.
    pub open spec fn type_label(self) -> Seq<char> {
        match self {
            ValueView::Literal(_) => "literal"@,
            ValueView::Expression(_) => "expression"@,
            ValueView::Empty => "empty"@,
        }
    }
}

impl LoomValue {
    /// `literal`, `expression` or `empty`.
    pub fn type_label(&self) -> (r: &'static str)
        ensures
            r@ == self@.type_label(),
    {
        match self {
            LoomValue::Literal(_) => "literal",
            LoomValue::Expression(_) => "expression",
            LoomValue::Empty => "empty",
        }
    }
}

/// An enum of the workflow language: each variant with the text it stands for.
#[derive(Debug, PartialEq)]
pub struct EnumDef {
    pub name: String,
    pub variants: Dictionary<String>,
}

/// The assignment of an expression to a variable.
#[derive(Debug, PartialEq)]
pub struct VariableAssignment {
    pub name: String,
    pub value: Expression,
}


/// The arguments of a call, each under the name of the parameter at its place.
pub open spec fn positional_args(parameters: Seq<ParameterView>, args: Seq<ExprView>) -> Seq<
    crate::InputArgView,
> {
    Seq::new(
        args.len(),
        |i: int| crate::InputArgView { name: parameters[i].name, value: Some(args[i]) },
    )
}

/// The error for a call with more arguments than the definition has parameters.
pub open spec fn too_many_arguments(signature: SignatureView, provided: nat) -> ErrorView {
    ErrorView::ParameterError {
        definition_name: signature.name,
        expected_count: signature.parameters.len(),
        provided_count: provided,
        parameter_name: None,
        position: None,
    }
}

/// The arguments of a call bound to the parameters by their order, or the
/// error for a call with too many of them.
pub open spec fn bind_positional(signature: SignatureView, args: Seq<ExprView>) -> Result<
    Seq<crate::InputArgView>,
    ErrorView,
> {
    if args.len() > signature.parameters.len() {
        Err(too_many_arguments(signature, args.len()))
    } else {
        Ok(positional_args(signature.parameters, args))
    }
}

impl Signature {
    /// Binds the arguments of a call to the parameters by their order. A call
    /// may leave parameters at the end unbound; it may not have more arguments
    /// than there are parameters.
    pub fn positional_arg_from_expression(&self, args: &Vec<Expression>) -> (r: Result<
        Vec<crate::InputArg>,
        LoomError,
    >)
        ensures
            match bind_positional(self@, views(args@)) {
                Ok(bound) => r is Ok && views(r->Ok_0@) == bound,
                Err(e) => r is Err && r->Err_0@ == e,
            },
    {
        if args.len() > self.parameters.len() {
            return Err(
                LoomError::parameter_mismatch(self.name.as_str(), self.parameters.len(), args.len()),
            );
        }
        let mut out: Vec<crate::InputArg> = Vec::new();
        let mut i: usize = 0;
        while i < args.len()
            invariant
                i <= args.len(),
                args.len() <= self.parameters.len(),
                out.len() == i,
                forall|j: int|
                    0 <= j < i ==> out@[j]@ == (crate::InputArgView {
                        name: self.parameters@[j].name@,
                        value: Some(args@[j]@),
                    }),
            decreases args.len() - i,
        {
            out.push(
                crate::InputArg { name: self.parameters[i].name.clone(), value: Some(args[i].clone()) },
            );
            i += 1;
        }
        assert(views(out@) =~= positional_args(views(self.parameters@), views(args@)));
        Ok(out)
    }
}


/// The compact form of a JSON document, as `serde_json` writes what it has
/// read from the text; none for a text that is no JSON document.
pub uninterp spec fn json_compact_form(text: Seq<char>) -> Option<Seq<char>>;

/// Reads a JSON document with `serde_json::from_str` and writes it back with
/// the `Display` of `serde_json::Value`, which is the compact form. The
/// outcome is a function of the text alone.
#[verifier::external_body]
fn compact_json(text: &str) -> (r: Result<String, serde_json::Error>)
    ensures
        match r {
            Ok(compact) => json_compact_form(text@) == Some(compact@),
            Err(_) => json_compact_form(text@) is None,
        },
{
    match serde_json::from_str::<serde_json::Value>(text) {
        Ok(value) => Ok(value.to_string()),
        Err(error) => Err(error),
    }
}

impl LiteralValue {
    /// The JSON literal of a text: the document in compact form. A text that
    /// is no JSON document is a validation error.
    pub fn json(text: &str) -> (r: Result<LiteralValue, LoomError>)
        ensures
            match json_compact_form(text@) {
                Some(compact) => r is Ok && r->Ok_0@ == LiteralView::Json(compact),
                None => r is Err && r->Err_0@ is ValidationError,
            },
    {
        match compact_json(text) {
            Ok(compact) => Ok(LiteralValue::Json(compact)),
            Err(error) => Err(LoomError::from(error)),
        }
    }
}

} // verus!
