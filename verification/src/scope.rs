//! Scopes: variables, functions and lambda parameters, and the captures of callables.

use vstd::prelude::*;

use crate::host::ValueOrigin;
use crate::ir;
use crate::ir::{
    CallableView, CaptureView, CapturedFunctionView, CapturedVariableView, IrCallable,
    IrCallableCapture, IrCapturedFunction, IrCapturedVariable, IrNode, IrParameter, IrValue,
    NodeView, ParameterView, SourceId, SourceSpan, ValueView,
};
use crate::ir_copy::{copy_capture, copy_nodes, copy_parameters, copy_value, copy_values};
use crate::metadata;
use crate::metadata::{copy_defaults, DefaultsView, DocumentMetadataDefaults};
use crate::sequences;
use crate::text;
use crate::text::{chars_of, decimal, join2, same_text, text_before};

verus! {

broadcast use ir::group_ir_views;

/// A positional parameter name that is a number.
#[derive(Debug, Clone, Copy, PartialEq, Eq, Structural)]
pub enum ImplicitParameterIndex {
    Valid(usize),
    Overflow,
}

/// Why a positional parameter has no value.
#[derive(Debug, Clone, Copy, PartialEq, Eq, Structural)]
pub enum ImplicitParameterError {
    Missing,
    Overflow,
}

/// What a variable holds.
#[derive(Debug, PartialEq)]
#[allow(inconsistent_fields)]
pub enum VariableValue {
    Scalar(IrValue),
    Content(Vec<IrNode>),
}

/// The mathematical value of [`VariableValue`].
#[verifier::ext_equal]
#[allow(inconsistent_fields)]
pub enum VariableValueView {
    Scalar(ValueView),
    Content(Seq<NodeView>),
}

/// A variable of one scope.
#[derive(Debug, PartialEq)]
pub struct VariableBinding {
    pub name: String,
    pub value: VariableValue,
}

/// The mathematical value of [`VariableBinding`].
#[verifier::ext_equal]
pub struct VariableBindingView {
    pub name: Seq<char>,
    pub value: VariableValueView,
}

/// How a function names its arguments.
#[derive(Debug, PartialEq)]
#[allow(inconsistent_fields)]
pub enum LambdaParameters {
    Explicit(Vec<IrParameter>),
    Implicit,
}

/// The mathematical value of [`LambdaParameters`].
#[verifier::ext_equal]
#[allow(inconsistent_fields)]
pub enum LambdaParametersView {
    Explicit(Seq<ParameterView>),
    Implicit,
}

/// What a function name stands for.
#[derive(Debug, PartialEq)]
pub struct FunctionBinding {
    pub parameters: LambdaParameters,
    pub body: Vec<IrNode>,
    pub declaration_span: SourceSpan,
    pub capture: Option<Box<IrCallableCapture>>,
}

/// The mathematical value of [`FunctionBinding`].
#[verifier::ext_equal]
pub struct FunctionBindingView {
    pub parameters: LambdaParametersView,
    pub body: Seq<NodeView>,
    pub declaration_span: SourceSpan,
    pub capture: Option<Box<CaptureView>>,
}

/// A function of one scope.
#[derive(Debug, PartialEq)]
pub struct NamedFunction {
    pub name: String,
    pub binding: FunctionBinding,
}

/// The mathematical value of [`NamedFunction`].
#[verifier::ext_equal]
pub struct NamedFunctionView {
    pub name: Seq<char>,
    pub binding: FunctionBindingView,
}

/// How the body of a lambda reads positional parameters.
#[derive(Debug, PartialEq)]
#[allow(inconsistent_fields)]
pub enum LambdaScope {
    Explicit,
    Implicit(Vec<IrValue>),
}

/// The mathematical value of [`LambdaScope`].
#[verifier::ext_equal]
#[allow(inconsistent_fields)]
pub enum LambdaScopeView {
    Explicit,
    Implicit(Seq<ValueView>),
}

/// The bindings that are visible at one point of a document.
#[derive(Debug, PartialEq)]
pub struct EvaluationContext {
    pub parent: Option<Box<EvaluationContext>>,
    pub variables: Vec<VariableBinding>,
    pub functions: Vec<NamedFunction>,
    pub lambda_scope: Option<LambdaScope>,
    pub has_resources: bool,
    pub metadata_defaults: DocumentMetadataDefaults,
    pub current_source: Option<SourceId>,
    pub active_sources: Vec<SourceId>,
}

/// The mathematical value of [`EvaluationContext`].
#[verifier::ext_equal]
pub struct ContextView {
    pub parent: Option<Box<ContextView>>,
    pub variables: Seq<VariableBindingView>,
    pub functions: Seq<NamedFunctionView>,
    pub lambda_scope: Option<LambdaScopeView>,
    pub has_resources: bool,
    pub metadata_defaults: DefaultsView,
    pub current_source: Option<SourceId>,
    pub active_sources: Seq<SourceId>,
}

/// The value of a [`VariableValue`].
pub open spec fn variable_value_view(x: VariableValue) -> VariableValueView
{
    match x {
        VariableValue::Scalar(v) => VariableValueView::Scalar(ir::value_view(v)),
        VariableValue::Content(v) => VariableValueView::Content(ir::nodes_view(v@)),
    }
}

impl View for VariableValue {
    type V = VariableValueView;

    open spec fn view(&self) -> VariableValueView {
        variable_value_view(*self)
    }
}

/// The value of a [`VariableBinding`].
pub open spec fn variable_binding_view(x: VariableBinding) -> VariableBindingView
{
    VariableBindingView {
        name: x.name@,
        value: variable_value_view(x.value),
    }
}

impl View for VariableBinding {
    type V = VariableBindingView;

    open spec fn view(&self) -> VariableBindingView {
        variable_binding_view(*self)
    }
}

/// The values of a sequence of [`VariableBinding`].
pub open spec fn variable_bindings_view(s: Seq<VariableBinding>) -> Seq<VariableBindingView> {
    Seq::new(s.len(), |i: int| variable_binding_view(s[i]))
}

pub broadcast proof fn variable_bindings_view_empty()
    ensures
        #[trigger] variable_bindings_view(Seq::<VariableBinding>::empty())
            == Seq::<VariableBindingView>::empty(),
{
    assert(variable_bindings_view(Seq::<VariableBinding>::empty())
        =~= Seq::<VariableBindingView>::empty());
}

pub broadcast proof fn variable_bindings_view_push(s: Seq<VariableBinding>, x: VariableBinding)
    ensures
        #[trigger] variable_bindings_view(s.push(x))
            == variable_bindings_view(s).push(variable_binding_view(x)),
{
    assert(variable_bindings_view(s.push(x))
        =~= variable_bindings_view(s).push(variable_binding_view(x)));
}

pub broadcast proof fn variable_bindings_view_add(s: Seq<VariableBinding>, t: Seq<VariableBinding>)
    ensures
        #[trigger] variable_bindings_view(s + t)
            == variable_bindings_view(s) + variable_bindings_view(t),
{
    assert(variable_bindings_view(s + t) =~= variable_bindings_view(s) + variable_bindings_view(t));
}

/// The value of a [`LambdaParameters`].
pub open spec fn lambda_parameters_view(x: LambdaParameters) -> LambdaParametersView
{
    match x {
        LambdaParameters::Explicit(v) => LambdaParametersView::Explicit(ir::parameters_view(v@)),
        LambdaParameters::Implicit => LambdaParametersView::Implicit,
    }
}

impl View for LambdaParameters {
    type V = LambdaParametersView;

    open spec fn view(&self) -> LambdaParametersView {
        lambda_parameters_view(*self)
    }
}

/// The value of a [`FunctionBinding`].
pub open spec fn function_binding_view(x: FunctionBinding) -> FunctionBindingView
{
    FunctionBindingView {
        parameters: lambda_parameters_view(x.parameters),
        body: ir::nodes_view(x.body@),
        declaration_span: x.declaration_span,
        capture: match x.capture {
            Some(inner) => Some(Box::new(ir::capture_view(*inner))),
            None => None,
        },
    }
}

impl View for FunctionBinding {
    type V = FunctionBindingView;

    open spec fn view(&self) -> FunctionBindingView {
        function_binding_view(*self)
    }
}

/// The value of a [`NamedFunction`].
pub open spec fn named_function_view(x: NamedFunction) -> NamedFunctionView
{
    NamedFunctionView {
        name: x.name@,
        binding: function_binding_view(x.binding),
    }
}

impl View for NamedFunction {
    type V = NamedFunctionView;

    open spec fn view(&self) -> NamedFunctionView {
        named_function_view(*self)
    }
}

/// The values of a sequence of [`NamedFunction`].
pub open spec fn named_functions_view(s: Seq<NamedFunction>) -> Seq<NamedFunctionView> {
    Seq::new(s.len(), |i: int| named_function_view(s[i]))
}

pub broadcast proof fn named_functions_view_empty()
    ensures
        #[trigger] named_functions_view(Seq::<NamedFunction>::empty())
            == Seq::<NamedFunctionView>::empty(),
{
    assert(named_functions_view(Seq::<NamedFunction>::empty())
        =~= Seq::<NamedFunctionView>::empty());
}

pub broadcast proof fn named_functions_view_push(s: Seq<NamedFunction>, x: NamedFunction)
    ensures
        #[trigger] named_functions_view(s.push(x))
            == named_functions_view(s).push(named_function_view(x)),
{
    assert(named_functions_view(s.push(x))
        =~= named_functions_view(s).push(named_function_view(x)));
}

pub broadcast proof fn named_functions_view_add(s: Seq<NamedFunction>, t: Seq<NamedFunction>)
    ensures
        #[trigger] named_functions_view(s + t) == named_functions_view(s) + named_functions_view(t),
{
    assert(named_functions_view(s + t) =~= named_functions_view(s) + named_functions_view(t));
}

/// The value of a [`LambdaScope`].
pub open spec fn lambda_scope_view(x: LambdaScope) -> LambdaScopeView
{
    match x {
        LambdaScope::Explicit => LambdaScopeView::Explicit,
        LambdaScope::Implicit(v) => LambdaScopeView::Implicit(ir::values_view(v@)),
    }
}

impl View for LambdaScope {
    type V = LambdaScopeView;

    open spec fn view(&self) -> LambdaScopeView {
        lambda_scope_view(*self)
    }
}

/// The value of a [`EvaluationContext`].
pub open spec fn context_view(x: EvaluationContext) -> ContextView
    decreases x,
{
    ContextView {
        parent: match x.parent {
            Some(inner) => Some(Box::new(context_view(*inner))),
            None => None,
        },
        variables: variable_bindings_view(x.variables@),
        functions: named_functions_view(x.functions@),
        lambda_scope: match x.lambda_scope {
            Some(inner) => Some(lambda_scope_view(inner)),
            None => None,
        },
        has_resources: x.has_resources,
        metadata_defaults: metadata::defaults_view(x.metadata_defaults),
        current_source: x.current_source,
        active_sources: x.active_sources@,
    }
}

impl View for EvaluationContext {
    type V = ContextView;

    open spec fn view(&self) -> ContextView {
        context_view(*self)
    }
}

/// Copies a [`VariableValue`].
pub fn copy_variable_value(x: &VariableValue) -> (r: VariableValue)
    ensures
        variable_value_view(r) == variable_value_view(*x),
{
    match x {
        VariableValue::Scalar(v) => VariableValue::Scalar(copy_value(v)),
        VariableValue::Content(v) => VariableValue::Content(copy_nodes(v)),
    }
}

impl Clone for VariableValue {
    fn clone(&self) -> (r: Self)
        ensures
            r@ == self@,
    {
        copy_variable_value(self)
    }
}

/// Copies a [`VariableBinding`].
pub fn copy_variable_binding(x: &VariableBinding) -> (r: VariableBinding)
    ensures
        variable_binding_view(r) == variable_binding_view(*x),
{
    VariableBinding {
        name: x.name.clone(),
        value: copy_variable_value(&x.value),
    }
}

/// Copies a sequence of [`VariableBinding`].
pub fn copy_variable_bindings(x: &Vec<VariableBinding>) -> (r: Vec<VariableBinding>)
    ensures
        variable_bindings_view(r@) == variable_bindings_view(x@),
{
    broadcast use group_scope_views;

    let mut r: Vec<VariableBinding> = Vec::new();
    let mut i: usize = 0;
    while i < x.len()
        invariant
            0 <= i <= x@.len(),
            variable_bindings_view(r@) == variable_bindings_view(x@).take(i as int),
        decreases x@.len() - i,
    {
        r.push(copy_variable_binding(&x[i]));
        i += 1;
        assert(variable_bindings_view(x@).take(i as int)
            =~= variable_bindings_view(x@).take(i - 1).push(variable_bindings_view(x@)[i - 1]));
    }
    assert(variable_bindings_view(x@).take(i as int) =~= variable_bindings_view(x@));
    r
}

impl Clone for VariableBinding {
    fn clone(&self) -> (r: Self)
        ensures
            r@ == self@,
    {
        copy_variable_binding(self)
    }
}

/// Copies a [`LambdaParameters`].
pub fn copy_lambda_parameters(x: &LambdaParameters) -> (r: LambdaParameters)
    ensures
        lambda_parameters_view(r) == lambda_parameters_view(*x),
{
    match x {
        LambdaParameters::Explicit(v) => LambdaParameters::Explicit(copy_parameters(v)),
        LambdaParameters::Implicit => LambdaParameters::Implicit,
    }
}

impl Clone for LambdaParameters {
    fn clone(&self) -> (r: Self)
        ensures
            r@ == self@,
    {
        copy_lambda_parameters(self)
    }
}

/// Copies a [`FunctionBinding`].
pub fn copy_function_binding(x: &FunctionBinding) -> (r: FunctionBinding)
    ensures
        function_binding_view(r) == function_binding_view(*x),
{
    FunctionBinding {
        parameters: copy_lambda_parameters(&x.parameters),
        body: copy_nodes(&x.body),
        declaration_span: x.declaration_span,
        capture: match &x.capture {
            Some(inner) => Some(Box::new(copy_capture(inner))),
            None => None,
        },
    }
}

impl Clone for FunctionBinding {
    fn clone(&self) -> (r: Self)
        ensures
            r@ == self@,
    {
        copy_function_binding(self)
    }
}

/// Copies a [`NamedFunction`].
pub fn copy_named_function(x: &NamedFunction) -> (r: NamedFunction)
    ensures
        named_function_view(r) == named_function_view(*x),
{
    NamedFunction {
        name: x.name.clone(),
        binding: copy_function_binding(&x.binding),
    }
}

/// Copies a sequence of [`NamedFunction`].
pub fn copy_named_functions(x: &Vec<NamedFunction>) -> (r: Vec<NamedFunction>)
    ensures
        named_functions_view(r@) == named_functions_view(x@),
{
    broadcast use group_scope_views;

    let mut r: Vec<NamedFunction> = Vec::new();
    let mut i: usize = 0;
    while i < x.len()
        invariant
            0 <= i <= x@.len(),
            named_functions_view(r@) == named_functions_view(x@).take(i as int),
        decreases x@.len() - i,
    {
        r.push(copy_named_function(&x[i]));
        i += 1;
        assert(named_functions_view(x@).take(i as int)
            =~= named_functions_view(x@).take(i - 1).push(named_functions_view(x@)[i - 1]));
    }
    assert(named_functions_view(x@).take(i as int) =~= named_functions_view(x@));
    r
}

impl Clone for NamedFunction {
    fn clone(&self) -> (r: Self)
        ensures
            r@ == self@,
    {
        copy_named_function(self)
    }
}

/// Copies a [`LambdaScope`].
pub fn copy_lambda_scope(x: &LambdaScope) -> (r: LambdaScope)
    ensures
        lambda_scope_view(r) == lambda_scope_view(*x),
{
    match x {
        LambdaScope::Explicit => LambdaScope::Explicit,
        LambdaScope::Implicit(v) => LambdaScope::Implicit(copy_values(v)),
    }
}

impl Clone for LambdaScope {
    fn clone(&self) -> (r: Self)
        ensures
            r@ == self@,
    {
        copy_lambda_scope(self)
    }
}

/// Copies a [`EvaluationContext`].
pub fn copy_context(x: &EvaluationContext) -> (r: EvaluationContext)
    ensures
        context_view(r) == context_view(*x),
    decreases x,
{
    EvaluationContext {
        parent: match &x.parent {
            Some(inner) => Some(Box::new(copy_context(inner))),
            None => None,
        },
        variables: copy_variable_bindings(&x.variables),
        functions: copy_named_functions(&x.functions),
        lambda_scope: match &x.lambda_scope {
            Some(inner) => Some(copy_lambda_scope(inner)),
            None => None,
        },
        has_resources: x.has_resources,
        metadata_defaults: copy_defaults(&x.metadata_defaults),
        current_source: x.current_source,
        active_sources: copy_source_ids(&x.active_sources),
    }
}

impl Clone for EvaluationContext {
    fn clone(&self) -> (r: Self)
        ensures
            r@ == self@,
    {
        copy_context(self)
    }
}

/// How views of sequences follow the sequences.
pub broadcast group group_scope_views {
    variable_bindings_view_empty,
    variable_bindings_view_push,
    variable_bindings_view_add,
    named_functions_view_empty,
    named_functions_view_push,
    named_functions_view_add,
}

/// Copies a sequence of source identities.
pub fn copy_source_ids(x: &Vec<SourceId>) -> (r: Vec<SourceId>)
    ensures
        r@ == x@,
{
    let mut r: Vec<SourceId> = Vec::new();
    let mut i: usize = 0;
    while i < x.len()
        invariant
            0 <= i <= x@.len(),
            r@ == x@.take(i as int),
        decreases x@.len() - i,
    {
        r.push(x[i]);
        i += 1;
        assert(x@.take(i as int) =~= x@.take(i - 1).push(x@[i - 1]));
    }
    assert(x@.take(i as int) =~= x@);
    r
}

/// What a variable holds once a value has been assigned to it.
pub open spec fn variable_of(value: ValueView) -> VariableValueView {
    match value {
        ValueView::Content(nodes) => VariableValueView::Content(nodes),
        _ => VariableValueView::Scalar(value),
    }
}

/// The value that a variable stands for.
pub open spec fn value_of(variable: VariableValueView) -> ValueView {
    match variable {
        VariableValueView::Scalar(value) => value,
        VariableValueView::Content(nodes) => ValueView::Content(nodes),
    }
}

impl VariableValue {
    /// What a variable holds once a value has been assigned to it.
    pub fn from_evaluated_value(value: IrValue) -> (r: VariableValue)
        ensures
            r@ == variable_of(value@),
    {
        match value {
            IrValue::Content(nodes) => VariableValue::Content(nodes),
            scalar => VariableValue::Scalar(scalar),
        }
    }

    /// The value that the variable stands for.
    pub fn to_value(&self) -> (r: IrValue)
        ensures
            r@ == value_of(self@),
    {
        match self {
            VariableValue::Scalar(value) => copy_value(value),
            VariableValue::Content(nodes) => IrValue::Content(copy_nodes(nodes)),
        }
    }
}

/// The parameters as a callable lists them.
pub open spec fn parameters_of(parameters: LambdaParametersView) -> Option<Seq<ParameterView>> {
    match parameters {
        LambdaParametersView::Explicit(list) => Some(list),
        LambdaParametersView::Implicit => None,
    }
}

/// The parameters that a callable lists.
pub open spec fn parameters_from(list: Option<Seq<ParameterView>>) -> LambdaParametersView {
    match list {
        Some(list) => LambdaParametersView::Explicit(list),
        None => LambdaParametersView::Implicit,
    }
}

/// The parameters in words.
pub open spec fn parameters_description(parameters: LambdaParametersView) -> Seq<char> {
    match parameters {
        LambdaParametersView::Explicit(list) => text::decimal_text(list.len())
            + " explicit parameter(s)"@,
        LambdaParametersView::Implicit => "implicit positional parameters"@,
    }
}

impl LambdaParameters {
    /// The parameters in words.
    pub fn description(&self) -> (r: String)
        ensures
            r@ == parameters_description(self@),
    {
        match self {
            LambdaParameters::Explicit(list) => join2(
                decimal(list.len() as u64).as_str(),
                " explicit parameter(s)",
            ),
            LambdaParameters::Implicit => "implicit positional parameters".to_owned(),
        }
    }

    /// The parameters as a callable lists them.
    pub fn to_ir(&self) -> (r: Option<Vec<IrParameter>>)
        ensures
            (match r {
                Some(list) => Some(ir::parameters_view(list@)),
                None => None,
            }) == parameters_of(self@),
    {
        match self {
            LambdaParameters::Explicit(list) => Some(copy_parameters(list)),
            LambdaParameters::Implicit => None,
        }
    }

    /// The parameters that a callable lists.
    pub fn from_ir(list: &Option<Vec<IrParameter>>) -> (r: LambdaParameters)
        ensures
            r@ == parameters_from(match *list {
                Some(list) => Some(ir::parameters_view(list@)),
                None => None,
            }),
    {
        match list {
            Some(list) => LambdaParameters::Explicit(copy_parameters(list)),
            None => LambdaParameters::Implicit,
        }
    }
}

/// A function as a callable.
pub open spec fn callable_of(binding: FunctionBindingView) -> CallableView {
    CallableView {
        parameters: parameters_of(binding.parameters),
        body: binding.body,
        span: binding.declaration_span,
        capture: binding.capture,
    }
}

/// A callable as a function.
pub open spec fn binding_of(callable: CallableView) -> FunctionBindingView {
    FunctionBindingView {
        parameters: parameters_from(callable.parameters),
        body: callable.body,
        declaration_span: callable.span,
        capture: callable.capture,
    }
}

impl FunctionBinding {
    /// The function as a callable.
    pub fn as_callable(&self) -> (r: IrCallable)
        ensures
            r@ == callable_of(self@),
    {
        IrCallable {
            parameters: self.parameters.to_ir(),
            body: copy_nodes(&self.body),
            span: self.declaration_span,
            capture: match &self.capture {
                Some(capture) => Some(Box::new(copy_capture(capture))),
                None => None,
            },
        }
    }

    /// A callable as a function.
    pub fn from_callable(callable: &IrCallable) -> (r: FunctionBinding)
        ensures
            r@ == binding_of(callable@),
    {
        FunctionBinding {
            parameters: LambdaParameters::from_ir(&callable.parameters),
            body: copy_nodes(&callable.body),
            declaration_span: callable.span,
            capture: match &callable.capture {
                Some(capture) => Some(Box::new(copy_capture(capture))),
                None => None,
            },
        }
    }
}

/// The variable of a name among the bindings of one scope.
pub open spec fn find_variable(
    s: Seq<VariableBindingView>,
    name: Seq<char>,
) -> Option<VariableValueView>
    decreases s.len(),
{
    if s.len() == 0 {
        None
    } else if s.last().name == name {
        Some(s.last().value)
    } else {
        find_variable(s.drop_last(), name)
    }
}

/// The bindings of one scope, ordered by name, once a name has been bound.
pub open spec fn put_variable(
    s: Seq<VariableBindingView>,
    name: Seq<char>,
    value: VariableValueView,
) -> Seq<VariableBindingView>
    decreases s.len(),
{
    if s.len() == 0 || text::text_less(s.last().name, name) {
        s.push(VariableBindingView { name, value })
    } else if s.last().name == name {
        s.drop_last().push(VariableBindingView { name, value })
    } else {
        put_variable(s.drop_last(), name, value).push(s.last())
    }
}

/// The bindings of one scope once others have been bound over them.
pub open spec fn put_all_variables(
    s: Seq<VariableBindingView>,
    more: Seq<VariableBindingView>,
) -> Seq<VariableBindingView>
    decreases more.len(),
{
    if more.len() == 0 {
        s
    } else {
        put_variable(
            put_all_variables(s, more.drop_last()),
            more.last().name,
            more.last().value,
        )
    }
}

/// The variable of a name among the bindings of one scope.
fn search_variable<'a>(s: &'a Vec<VariableBinding>, name: &str) -> (r: Option<&'a VariableValue>)
    ensures
        (match r {
            Some(v) => Some(v@),
            None => None,
        }) == find_variable(variable_bindings_view(s@), name@),
{
    let ghost all = variable_bindings_view(s@);
    let mut i: usize = s.len();
    proof {
        sequences::lemma_take_all(all);
    }
    while i > 0
        invariant
            0 <= i <= s@.len(),
            all == variable_bindings_view(s@),
            find_variable(all, name@) == find_variable(all.take(i as int), name@),
        decreases i,
    {
        proof {
            sequences::lemma_take_step(all, i - 1);
        }
        if same_text(s[i - 1].name.as_str(), name) {
            return Some(&s[i - 1].value);
        }
        i -= 1;
    }
    None
}

/// Binds a name in one scope, keeping the bindings ordered by name.
fn insert_variable(s: &mut Vec<VariableBinding>, name: String, value: VariableValue)
    ensures
        variable_bindings_view(final(s)@) == put_variable(
            variable_bindings_view(old(s)@),
            name@,
            value@,
        ),
{
    let ghost all = variable_bindings_view(s@);
    let ghost new = VariableBindingView { name: name@, value: value@ };
    let mut i: usize = s.len();
    proof {
        sequences::lemma_take_all(all);
        assert(all.skip(all.len() as int) =~= Seq::empty());
        assert(all.take(i as int) + all.skip(i as int) =~= all);
        assert(put_variable(all, name@, value@) =~= put_variable(
            all.take(i as int),
            name@,
            value@,
        ) + all.skip(i as int));
    }
    while i > 0 && !text_before(s[i - 1].name.as_str(), name.as_str())
        invariant
            0 <= i <= s@.len(),
            all == variable_bindings_view(s@),
            new == (VariableBindingView { name: name@, value: value@ }),
            s@ == old(s)@,
            put_variable(all, name@, value@) == put_variable(
                all.take(i as int),
                name@,
                value@,
            ) + all.skip(i as int),
        decreases i,
    {
        proof {
            sequences::lemma_take_step(all, i - 1);
            assert(all.skip(i - 1) =~= seq![all[i - 1]] + all.skip(i as int));
        }
        if same_text(s[i - 1].name.as_str(), name.as_str()) {
            let entry = VariableBinding { name, value };
            s.set(i - 1, entry);
            assert(variable_bindings_view(s@) =~= all.take(i - 1).push(new) + all.skip(i as int));
            return;
        }
        assert(put_variable(all, name@, value@) =~= put_variable(
            all.take(i - 1),
            name@,
            value@,
        ) + all.skip(i - 1));
        i -= 1;
    }
    proof {
        if i > 0 {
            sequences::lemma_take_step(all, i - 1);
        }
    }
    s.insert(i, VariableBinding { name, value });
    assert(variable_bindings_view(s@) =~= all.take(i as int).push(new) + all.skip(i as int));
}

/// Binds names over the bindings of one scope.
fn insert_all_variables(s: &mut Vec<VariableBinding>, more: &Vec<VariableBinding>)
    ensures
        variable_bindings_view(final(s)@) == put_all_variables(
            variable_bindings_view(old(s)@),
            variable_bindings_view(more@),
        ),
{
    let ghost all = variable_bindings_view(more@);
    let mut i: usize = 0;
    assert(all.take(0) =~= Seq::empty());
    while i < more.len()
        invariant
            0 <= i <= more@.len(),
            all == variable_bindings_view(more@),
            variable_bindings_view(s@) == put_all_variables(
                variable_bindings_view(old(s)@),
                all.take(i as int),
            ),
        decreases more@.len() - i,
    {
        proof {
            sequences::lemma_take_step(all, i as int);
        }
        insert_variable(s, more[i].name.clone(), more[i].value.clone());
        i += 1;
    }
    proof {
        sequences::lemma_take_all(all);
    }
}

/// The function of a name among the bindings of one scope.
pub open spec fn find_function(
    s: Seq<NamedFunctionView>,
    name: Seq<char>,
) -> Option<FunctionBindingView>
    decreases s.len(),
{
    if s.len() == 0 {
        None
    } else if s.last().name == name {
        Some(s.last().binding)
    } else {
        find_function(s.drop_last(), name)
    }
}

/// The bindings of one scope, ordered by name, once a name has been bound.
pub open spec fn put_function(
    s: Seq<NamedFunctionView>,
    name: Seq<char>,
    binding: FunctionBindingView,
) -> Seq<NamedFunctionView>
    decreases s.len(),
{
    if s.len() == 0 || text::text_less(s.last().name, name) {
        s.push(NamedFunctionView { name, binding })
    } else if s.last().name == name {
        s.drop_last().push(NamedFunctionView { name, binding })
    } else {
        put_function(s.drop_last(), name, binding).push(s.last())
    }
}

/// The bindings of one scope once others have been bound over them.
pub open spec fn put_all_functions(
    s: Seq<NamedFunctionView>,
    more: Seq<NamedFunctionView>,
) -> Seq<NamedFunctionView>
    decreases more.len(),
{
    if more.len() == 0 {
        s
    } else {
        put_function(
            put_all_functions(s, more.drop_last()),
            more.last().name,
            more.last().binding,
        )
    }
}

/// The function of a name among the bindings of one scope.
fn search_function<'a>(s: &'a Vec<NamedFunction>, name: &str) -> (r: Option<&'a FunctionBinding>)
    ensures
        (match r {
            Some(v) => Some(v@),
            None => None,
        }) == find_function(named_functions_view(s@), name@),
{
    let ghost all = named_functions_view(s@);
    let mut i: usize = s.len();
    proof {
        sequences::lemma_take_all(all);
    }
    while i > 0
        invariant
            0 <= i <= s@.len(),
            all == named_functions_view(s@),
            find_function(all, name@) == find_function(all.take(i as int), name@),
        decreases i,
    {
        proof {
            sequences::lemma_take_step(all, i - 1);
        }
        if same_text(s[i - 1].name.as_str(), name) {
            return Some(&s[i - 1].binding);
        }
        i -= 1;
    }
    None
}

/// Binds a name in one scope, keeping the bindings ordered by name.
fn insert_function(s: &mut Vec<NamedFunction>, name: String, binding: FunctionBinding)
    ensures
        named_functions_view(final(s)@) == put_function(
            named_functions_view(old(s)@),
            name@,
            binding@,
        ),
{
    let ghost all = named_functions_view(s@);
    let ghost new = NamedFunctionView { name: name@, binding: binding@ };
    let mut i: usize = s.len();
    proof {
        sequences::lemma_take_all(all);
        assert(all.skip(all.len() as int) =~= Seq::empty());
        assert(all.take(i as int) + all.skip(i as int) =~= all);
        assert(put_function(all, name@, binding@) =~= put_function(
            all.take(i as int),
            name@,
            binding@,
        ) + all.skip(i as int));
    }
    while i > 0 && !text_before(s[i - 1].name.as_str(), name.as_str())
        invariant
            0 <= i <= s@.len(),
            all == named_functions_view(s@),
            new == (NamedFunctionView { name: name@, binding: binding@ }),
            s@ == old(s)@,
            put_function(all, name@, binding@) == put_function(
                all.take(i as int),
                name@,
                binding@,
            ) + all.skip(i as int),
        decreases i,
    {
        proof {
            sequences::lemma_take_step(all, i - 1);
            assert(all.skip(i - 1) =~= seq![all[i - 1]] + all.skip(i as int));
        }
        if same_text(s[i - 1].name.as_str(), name.as_str()) {
            let entry = NamedFunction { name, binding };
            s.set(i - 1, entry);
            assert(named_functions_view(s@) =~= all.take(i - 1).push(new) + all.skip(i as int));
            return;
        }
        assert(put_function(all, name@, binding@) =~= put_function(
            all.take(i - 1),
            name@,
            binding@,
        ) + all.skip(i - 1));
        i -= 1;
    }
    proof {
        if i > 0 {
            sequences::lemma_take_step(all, i - 1);
        }
    }
    s.insert(i, NamedFunction { name, binding });
    assert(named_functions_view(s@) =~= all.take(i as int).push(new) + all.skip(i as int));
}

/// Binds names over the bindings of one scope.
fn insert_all_functions(s: &mut Vec<NamedFunction>, more: &Vec<NamedFunction>)
    ensures
        named_functions_view(final(s)@) == put_all_functions(
            named_functions_view(old(s)@),
            named_functions_view(more@),
        ),
{
    let ghost all = named_functions_view(more@);
    let mut i: usize = 0;
    assert(all.take(0) =~= Seq::empty());
    while i < more.len()
        invariant
            0 <= i <= more@.len(),
            all == named_functions_view(more@),
            named_functions_view(s@) == put_all_functions(
                named_functions_view(old(s)@),
                all.take(i as int),
            ),
        decreases more@.len() - i,
    {
        proof {
            sequences::lemma_take_step(all, i as int);
        }
        insert_function(s, more[i].name.clone(), more[i].binding.clone());
        i += 1;
    }
    proof {
        sequences::lemma_take_all(all);
    }
}

/// The number that a text of decimal digits writes.
pub open spec fn digits_value(s: Seq<char>) -> nat
    decreases s.len(),
{
    if s.len() == 0 {
        0
    } else {
        digits_value(s.drop_last()) * 10 + (s.last() as nat - '0' as nat) as nat
    }
}

/// Whether a name is a positional parameter: a number without leading zero.
pub open spec fn is_positional(name: Seq<char>) -> bool {
    &&& name.len() > 0
    &&& name[0] != '0'
    &&& forall|i: int| 0 <= i < name.len() ==> '0' <= #[trigger] name[i] <= '9'
}

/// The position that a name stands for, if it is a positional parameter.
pub open spec fn parameter_index(name: Seq<char>) -> Option<ImplicitParameterIndex> {
    if !is_positional(name) {
        None
    } else if digits_value(name) <= usize::MAX {
        Some(ImplicitParameterIndex::Valid(digits_value(name) as usize))
    } else {
        Some(ImplicitParameterIndex::Overflow)
    }
}

proof fn lemma_digits_grow(s: Seq<char>, i: int)
    requires
        0 <= i <= s.len(),
    ensures
        digits_value(s.take(i)) <= digits_value(s),
    decreases s.len() - i,
{
    if i < s.len() {
        sequences::lemma_take_step(s, i);
        lemma_digits_grow(s, i + 1);
    } else {
        sequences::lemma_take_all(s);
    }
}

proof fn lemma_digits_positive(s: Seq<char>)
    requires
        is_positional(s),
    ensures
        digits_value(s) >= 1,
{
    sequences::lemma_take_step(s, 0);
    assert(s.take(0) =~= Seq::empty());
    assert(digits_value(s.take(0)) == 0);
    assert(digits_value(s.take(1)) == digits_value(s.take(1).drop_last()) * 10 + (s[0] as nat
        - '0' as nat) as nat);
    lemma_digits_grow(s, 1);
}

/// The position that a name stands for, if it is a positional parameter.
pub fn implicit_parameter_index(name: &str) -> (r: Option<ImplicitParameterIndex>)
    ensures
        r == parameter_index(name@),
{
    let chars = chars_of(name);
    if chars.len() == 0 || chars[0] == '0' {
        return None;
    }
    let mut i: usize = 0;
    while i < chars.len()
        invariant
            0 <= i <= chars@.len(),
            chars@ == name@,
            forall|j: int| 0 <= j < i ==> '0' <= #[trigger] chars@[j] <= '9',
        decreases chars@.len() - i,
    {
        let c = chars[i];
        if !('0' <= c && c <= '9') {
            return None;
        }
        i += 1;
    }
    let mut index: usize = 0;
    i = 0;
    assert(chars@.take(0) =~= Seq::empty());
    while i < chars.len()
        invariant
            0 <= i <= chars@.len(),
            chars@ == name@,
            is_positional(name@),
            index == digits_value(chars@.take(i as int)),
        decreases chars@.len() - i,
    {
        let digit: usize = chars[i] as usize - '0' as usize;
        proof {
            sequences::lemma_take_step(chars@, i as int);
            lemma_digits_grow(chars@, i + 1);
        }
        index = match index.checked_mul(10) {
            Some(tens) => match tens.checked_add(digit) {
                Some(next) => next,
                None => {
                    return Some(ImplicitParameterIndex::Overflow);
                },
            },
            None => {
                return Some(ImplicitParameterIndex::Overflow);
            },
        };
        i += 1;
    }
    proof {
        sequences::lemma_take_all(chars@);
    }
    Some(ImplicitParameterIndex::Valid(index))
}

/// A scope without bindings and without a parent.
pub open spec fn root_context() -> ContextView {
    ContextView {
        parent: None,
        variables: Seq::empty(),
        functions: Seq::empty(),
        lambda_scope: None,
        has_resources: false,
        metadata_defaults: metadata::no_defaults(),
        current_source: None,
        active_sources: Seq::empty(),
    }
}

/// The scope of a project's document.
pub open spec fn project_context(source: SourceId, defaults: DefaultsView) -> ContextView {
    ContextView {
        has_resources: true,
        metadata_defaults: defaults,
        current_source: Some(source),
        active_sources: seq![source],
        ..root_context()
    }
}

/// A scope inside another.
pub open spec fn child_context(c: ContextView) -> ContextView {
    ContextView {
        parent: Some(Box::new(c)),
        variables: Seq::empty(),
        functions: Seq::empty(),
        lambda_scope: None,
        ..c
    }
}

/// The variable that a name stands for: the innermost one.
pub open spec fn visible_variable(c: ContextView, name: Seq<char>) -> Option<VariableValueView>
    decreases c,
{
    match find_variable(c.variables, name) {
        Some(v) => Some(v),
        None => match c.parent {
            Some(parent) => visible_variable(*parent, name),
            None => None,
        },
    }
}

/// The function that a name stands for: the innermost one.
pub open spec fn visible_function(c: ContextView, name: Seq<char>) -> Option<FunctionBindingView>
    decreases c,
{
    match find_function(c.functions, name) {
        Some(v) => Some(v),
        None => match c.parent {
            Some(parent) => visible_function(*parent, name),
            None => None,
        },
    }
}

/// The lambda scope that a scope sees: the innermost one.
pub open spec fn visible_lambda_scope(c: ContextView) -> Option<LambdaScopeView>
    decreases c,
{
    match c.lambda_scope {
        Some(scope) => Some(scope),
        None => match c.parent {
            Some(parent) => visible_lambda_scope(*parent),
            None => None,
        },
    }
}

/// The value of a positional parameter, which is that of the nearest lambda and of no other;
/// none where the name is no such parameter or no lambda is around.
pub open spec fn positional_value(c: ContextView, name: Seq<char>) -> Option<
    Result<ValueView, ImplicitParameterError>,
>
    decreases c,
{
    match parameter_index(name) {
        None => None,
        Some(index) => match c.lambda_scope {
            Some(LambdaScopeView::Explicit) => Some(Err(ImplicitParameterError::Missing)),
            Some(LambdaScopeView::Implicit(arguments)) => match index {
                ImplicitParameterIndex::Valid(position) => if position - 1 < arguments.len() {
                    Some(Ok(arguments[position - 1]))
                } else {
                    Some(Err(ImplicitParameterError::Missing))
                },
                ImplicitParameterIndex::Overflow => Some(Err(ImplicitParameterError::Overflow)),
            },
            None => match c.parent {
                Some(parent) => positional_value(*parent, name),
                None => None,
            },
        },
    }
}

/// All variables that a scope sees, ordered by name.
pub open spec fn all_variables(c: ContextView) -> Seq<VariableBindingView>
    decreases c,
{
    put_all_variables(
        match c.parent {
            Some(parent) => all_variables(*parent),
            None => Seq::empty(),
        },
        c.variables,
    )
}

/// All functions that a scope sees, ordered by name.
pub open spec fn all_functions(c: ContextView) -> Seq<NamedFunctionView>
    decreases c,
{
    put_all_functions(
        match c.parent {
            Some(parent) => all_functions(*parent),
            None => Seq::empty(),
        },
        c.functions,
    )
}

/// What a callable made in a scope captures.
pub open spec fn capture_of(c: ContextView) -> CaptureView {
    CaptureView {
        variables: all_variables(c).map_values(
            |b: VariableBindingView|
                CapturedVariableView { name: b.name, value: value_of(b.value) },
        ),
        functions: all_functions(c).map_values(
            |b: NamedFunctionView|
                CapturedFunctionView { name: b.name, callable: callable_of(b.binding) },
        ),
    }
}

/// The variables of a capture.
pub open spec fn captured_bindings(s: Seq<CapturedVariableView>) -> Seq<VariableBindingView> {
    s.map_values(
        |v: CapturedVariableView| VariableBindingView { name: v.name, value: variable_of(v.value) },
    )
}

/// The functions of a capture.
pub open spec fn captured_named_functions(s: Seq<CapturedFunctionView>) -> Seq<NamedFunctionView> {
    s.map_values(
        |v: CapturedFunctionView|
            NamedFunctionView { name: v.name, binding: binding_of(v.callable) },
    )
}

/// The scope that a capture describes.
pub open spec fn context_of(capture: CaptureView) -> ContextView {
    ContextView {
        variables: put_all_variables(Seq::empty(), captured_bindings(capture.variables)),
        functions: put_all_functions(Seq::empty(), captured_named_functions(capture.functions)),
        ..root_context()
    }
}

/// The scope of a callable's definition, with what its caller sees laid over it.
pub open spec fn overlaid_context(definition: ContextView, caller: ContextView) -> ContextView {
    ContextView {
        parent: Some(Box::new(definition)),
        variables: all_variables(caller).map_values(
            |b: VariableBindingView|
                VariableBindingView { name: b.name, value: variable_of(value_of(b.value)) },
        ),
        functions: all_functions(caller),
        lambda_scope: visible_lambda_scope(caller),
        ..root_context()
    }
}

impl ContextView {
    /// The scope once a value has been assigned to a name.
    pub open spec fn assign(self, name: Seq<char>, value: ValueView) -> ContextView {
        ContextView { variables: put_variable(self.variables, name, variable_of(value)), ..self }
    }

    /// The scope once a function has been declared.
    pub open spec fn declare(self, name: Seq<char>, binding: FunctionBindingView) -> ContextView {
        ContextView { functions: put_function(self.functions, name, binding), ..self }
    }
}

/// Whether a scope is another one with other variables and functions.
#[verifier::opaque]
pub open spec fn stays(before: ContextView, after: ContextView) -> bool {
    after == (ContextView { variables: after.variables, functions: after.functions, ..before })
}

/// A scope stays itself.
pub broadcast proof fn stays_itself(c: ContextView)
    ensures
        #[trigger] stays(c, c),
{
    reveal(stays);
}

/// A scope that stays another one twice stays it.
pub broadcast proof fn stays_on(a: ContextView, b: ContextView, c: ContextView)
    requires
        #[trigger] stays(a, b),
        #[trigger] stays(b, c),
    ensures
        stays(a, c),
{
    reveal(stays);
}

pub broadcast group group_stays {
    stays_itself,
    stays_on,
}

/// Where the result of a call by that name comes from.
pub open spec fn result_origin(c: ContextView, name: Seq<char>) -> ValueOrigin {
    if visible_variable(c, name) is Some || visible_function(c, name) is Some {
        ValueOrigin::Dynamic
    } else {
        ValueOrigin::Static
    }
}

/// Where the value of an argument comes from.
pub open spec fn argument_origin(c: ContextView, value: ValueView) -> ValueOrigin {
    match value {
        ValueView::String(_) => ValueOrigin::Dynamic,
        ValueView::Identifier(_) => ValueOrigin::Dynamic,
        ValueView::Content(nodes) => if nodes.len() == 1 {
            match nodes[0] {
                NodeView::FunctionCall { name, .. } => result_origin(c, name),
                NodeView::ChainedFunctionCall { head, .. } => result_origin(c, head.name),
                _ => ValueOrigin::Static,
            }
        } else {
            ValueOrigin::Static
        },
        _ => ValueOrigin::Static,
    }
}

impl EvaluationContext {
    /// A scope without bindings and without a parent.
    pub fn new() -> (r: EvaluationContext)
        ensures
            r@ == root_context(),
    {
        broadcast use group_scope_views;

        EvaluationContext {
            parent: None,
            variables: Vec::new(),
            functions: Vec::new(),
            lambda_scope: None,
            has_resources: false,
            metadata_defaults: DocumentMetadataDefaults::default(),
            current_source: None,
            active_sources: Vec::new(),
        }
    }

    /// The scope of a project's document.
    pub fn with_resources(source: SourceId, defaults: &DocumentMetadataDefaults) -> (r:
        EvaluationContext)
        ensures
            r@ == project_context(source, defaults@),
    {
        let mut r = EvaluationContext::new();
        r.has_resources = true;
        r.metadata_defaults = copy_defaults(defaults);
        r.current_source = Some(source);
        r.active_sources.push(source);
        assert(r.active_sources@ =~= seq![source]);
        r
    }

    /// A scope inside this one.
    pub fn child(&self) -> (r: EvaluationContext)
        ensures
            r@ == child_context(self@),
    {
        broadcast use group_scope_views;

        EvaluationContext {
            parent: Some(Box::new(copy_context(self))),
            variables: Vec::new(),
            functions: Vec::new(),
            lambda_scope: None,
            has_resources: self.has_resources,
            metadata_defaults: copy_defaults(&self.metadata_defaults),
            current_source: self.current_source,
            active_sources: copy_source_ids(&self.active_sources),
        }
    }

    /// Assigns a value to a name.
    pub fn set_value(&mut self, name: String, value: IrValue)
        ensures
            final(self)@ == old(self)@.assign(name@, value@),
            stays(old(self)@, final(self)@),
    {
        proof {
            reveal(stays);
        }
        insert_variable(&mut self.variables, name, VariableValue::from_evaluated_value(value));
    }

    /// Declares a function.
    pub fn set_function_binding(&mut self, name: String, binding: FunctionBinding)
        ensures
            final(self)@ == old(self)@.declare(name@, binding@),
            stays(old(self)@, final(self)@),
    {
        proof {
            reveal(stays);
        }
        insert_function(&mut self.functions, name, binding);
    }

    /// Says how the body of the lambda that is entered reads positional parameters.
    pub fn set_lambda_scope(&mut self, scope: LambdaScope)
        ensures
            final(self)@ == (ContextView { lambda_scope: Some(scope@), ..old(self)@ }),
    {
        self.lambda_scope = Some(scope);
    }

    /// The variable that a name stands for.
    pub fn get(&self, name: &str) -> (r: Option<&VariableValue>)
        ensures
            (match r {
                Some(v) => Some(v@),
                None => None,
            }) == visible_variable(self@, name@),
        decreases self,
    {
        match search_variable(&self.variables, name) {
            Some(v) => Some(v),
            None => match &self.parent {
                Some(parent) => parent.get(name),
                None => None,
            },
        }
    }

    /// Whether a name stands for a variable.
    pub fn contains(&self, name: &str) -> (r: bool)
        ensures
            r == (visible_variable(self@, name@) is Some),
    {
        self.get(name).is_some()
    }

    /// The function that a name stands for.
    pub fn get_function(&self, name: &str) -> (r: Option<&FunctionBinding>)
        ensures
            (match r {
                Some(v) => Some(v@),
                None => None,
            }) == visible_function(self@, name@),
        decreases self,
    {
        match search_function(&self.functions, name) {
            Some(v) => Some(v),
            None => match &self.parent {
                Some(parent) => parent.get_function(name),
                None => None,
            },
        }
    }

    /// The lambda scope that this scope sees.
    pub fn visible_lambda_scope(&self) -> (r: Option<LambdaScope>)
        ensures
            (match r {
                Some(v) => Some(v@),
                None => None,
            }) == visible_lambda_scope(self@),
        decreases self,
    {
        match &self.lambda_scope {
            Some(scope) => Some(copy_lambda_scope(scope)),
            None => match &self.parent {
                Some(parent) => parent.visible_lambda_scope(),
                None => None,
            },
        }
    }

    /// The value of a positional parameter in the nearest lambda.
    pub fn get_implicit_parameter(&self, name: &str) -> (r: Option<
        Result<IrValue, ImplicitParameterError>,
    >)
        ensures
            (match r {
                Some(Ok(v)) => Some(Ok(v@)),
                Some(Err(e)) => Some(Err(e)),
                None => None,
            }) == positional_value(self@, name@),
        decreases self,
    {
        let index = match implicit_parameter_index(name) {
            Some(index) => index,
            None => {
                return None;
            },
        };
        match &self.lambda_scope {
            Some(LambdaScope::Explicit) => Some(Err(ImplicitParameterError::Missing)),
            Some(LambdaScope::Implicit(arguments)) => match index {
                ImplicitParameterIndex::Valid(position) => {
                    proof {
                        lemma_digits_positive(name@);
                    }
                    if position - 1 < arguments.len() {
                        Some(Ok(copy_value(&arguments[position - 1])))
                    } else {
                        Some(Err(ImplicitParameterError::Missing))
                    }
                },
                ImplicitParameterIndex::Overflow => Some(Err(ImplicitParameterError::Overflow)),
            },
            None => match &self.parent {
                Some(parent) => parent.get_implicit_parameter(name),
                None => None,
            },
        }
    }

    /// All variables that this scope sees, ordered by name.
    fn collect_variables(&self) -> (r: Vec<VariableBinding>)
        ensures
            variable_bindings_view(r@) == all_variables(self@),
        decreases self,
    {
        broadcast use group_scope_views;

        let mut r: Vec<VariableBinding> = match &self.parent {
            Some(parent) => parent.collect_variables(),
            None => Vec::new(),
        };
        insert_all_variables(&mut r, &self.variables);
        r
    }

    /// All functions that this scope sees, ordered by name.
    fn collect_functions(&self) -> (r: Vec<NamedFunction>)
        ensures
            named_functions_view(r@) == all_functions(self@),
        decreases self,
    {
        broadcast use group_scope_views;

        let mut r: Vec<NamedFunction> = match &self.parent {
            Some(parent) => parent.collect_functions(),
            None => Vec::new(),
        };
        insert_all_functions(&mut r, &self.functions);
        r
    }

    /// What a callable made in this scope captures.
    pub fn capture_snapshot(&self) -> (r: IrCallableCapture)
        ensures
            r@ == capture_of(self@),
    {
        let bindings = self.collect_variables();
        let mut variables: Vec<IrCapturedVariable> = Vec::new();
        let mut i: usize = 0;
        let ghost want = capture_of(self@).variables;
        assert(want.take(0) =~= Seq::empty());
        while i < bindings.len()
            invariant
                0 <= i <= bindings@.len(),
                want == variable_bindings_view(bindings@).map_values(
                    |b: VariableBindingView|
                        CapturedVariableView { name: b.name, value: value_of(b.value) },
                ),
                ir::captured_variables_view(variables@) == want.take(i as int),
            decreases bindings@.len() - i,
        {
            variables.push(
                IrCapturedVariable {
                    name: bindings[i].name.clone(),
                    value: bindings[i].value.to_value(),
                },
            );
            i += 1;
            assert(want.take(i as int) =~= want.take(i - 1).push(want[i - 1]));
        }
        assert(want.take(i as int) =~= want);
        let declared = self.collect_functions();
        let mut functions: Vec<IrCapturedFunction> = Vec::new();
        let mut j: usize = 0;
        let ghost wanted = capture_of(self@).functions;
        assert(wanted.take(0) =~= Seq::empty());
        while j < declared.len()
            invariant
                0 <= j <= declared@.len(),
                wanted == named_functions_view(declared@).map_values(
                    |b: NamedFunctionView|
                        CapturedFunctionView { name: b.name, callable: callable_of(b.binding) },
                ),
                ir::captured_functions_view(functions@) == wanted.take(j as int),
            decreases declared@.len() - j,
        {
            functions.push(
                IrCapturedFunction {
                    name: declared[j].name.clone(),
                    callable: declared[j].binding.as_callable(),
                },
            );
            j += 1;
            assert(wanted.take(j as int) =~= wanted.take(j - 1).push(wanted[j - 1]));
        }
        assert(wanted.take(j as int) =~= wanted);
        IrCallableCapture { variables, functions }
    }

    /// The scope that a capture describes.
    pub fn from_capture(capture: &IrCallableCapture) -> (r: EvaluationContext)
        ensures
            r@ == context_of(capture@),
    {
        broadcast use group_scope_views;

        let mut variables: Vec<VariableBinding> = Vec::new();
        let ghost want = captured_bindings(capture@.variables);
        let mut i: usize = 0;
        assert(want.take(0) =~= Seq::empty());
        while i < capture.variables.len()
            invariant
                0 <= i <= capture.variables@.len(),
                want == captured_bindings(capture@.variables),
                variable_bindings_view(variables@) == put_all_variables(
                    Seq::empty(),
                    want.take(i as int),
                ),
            decreases capture.variables@.len() - i,
        {
            proof {
                sequences::lemma_take_step(want, i as int);
            }
            let v = &capture.variables[i];
            insert_variable(
                &mut variables,
                v.name.clone(),
                VariableValue::from_evaluated_value(copy_value(&v.value)),
            );
            i += 1;
        }
        let mut functions: Vec<NamedFunction> = Vec::new();
        let ghost wanted = captured_named_functions(capture@.functions);
        let mut j: usize = 0;
        assert(wanted.take(0) =~= Seq::empty());
        while j < capture.functions.len()
            invariant
                0 <= j <= capture.functions@.len(),
                wanted == captured_named_functions(capture@.functions),
                named_functions_view(functions@) == put_all_functions(
                    Seq::empty(),
                    wanted.take(j as int),
                ),
            decreases capture.functions@.len() - j,
        {
            proof {
                sequences::lemma_take_step(wanted, j as int);
            }
            let f = &capture.functions[j];
            insert_function(
                &mut functions,
                f.name.clone(),
                FunctionBinding::from_callable(&f.callable),
            );
            j += 1;
        }
        proof {
            sequences::lemma_take_all(want);
            sequences::lemma_take_all(wanted);
        }
        let mut r = EvaluationContext::new();
        r.variables = variables;
        r.functions = functions;
        r
    }

    /// The scope of a callable's definition, with what its caller sees laid over it.
    pub fn with_caller_overlay(definition: EvaluationContext, caller: &EvaluationContext) -> (r:
        EvaluationContext)
        ensures
            r@ == overlaid_context(definition@, caller@),
    {
        broadcast use group_scope_views;

        let collected = caller.collect_variables();
        let mut variables: Vec<VariableBinding> = Vec::new();
        let ghost want = overlaid_context(definition@, caller@).variables;
        let mut i: usize = 0;
        assert(want.take(0) =~= Seq::empty());
        while i < collected.len()
            invariant
                0 <= i <= collected@.len(),
                want == variable_bindings_view(collected@).map_values(
                    |b: VariableBindingView|
                        VariableBindingView { name: b.name, value: variable_of(value_of(b.value)) },
                ),
                variable_bindings_view(variables@) == want.take(i as int),
            decreases collected@.len() - i,
        {
            variables.push(
                VariableBinding {
                    name: collected[i].name.clone(),
                    value: VariableValue::from_evaluated_value(collected[i].value.to_value()),
                },
            );
            i += 1;
            assert(want.take(i as int) =~= want.take(i - 1).push(want[i - 1]));
        }
        assert(want.take(i as int) =~= want);
        let mut r = EvaluationContext::new();
        r.functions = caller.collect_functions();
        r.lambda_scope = caller.visible_lambda_scope();
        r.variables = variables;
        r.parent = Some(Box::new(definition));
        r
    }

    /// Where the result of a call by that name comes from.
    pub fn call_result_origin(&self, name: &str) -> (r: ValueOrigin)
        ensures
            r == result_origin(self@, name@),
    {
        if self.contains(name) || self.get_function(name).is_some() {
            ValueOrigin::Dynamic
        } else {
            ValueOrigin::Static
        }
    }

    /// Where the value of an argument comes from.
    pub fn invocation_origin(&self, value: &IrValue) -> (r: ValueOrigin)
        ensures
            r == argument_origin(self@, value@),
    {
        reveal_with_fuel(ir::value_view, 4);
        match value {
            IrValue::String(_) => ValueOrigin::Dynamic,
            IrValue::Identifier(_) => ValueOrigin::Dynamic,
            IrValue::Content(nodes) => {
                if nodes.len() == 1 {
                    match &nodes[0] {
                        IrNode::FunctionCall { name, .. } => self.call_result_origin(name.as_str()),
                        IrNode::ChainedFunctionCall { head, .. } => self.call_result_origin(
                            head.name.as_str(),
                        ),
                        _ => ValueOrigin::Static,
                    }
                } else {
                    ValueOrigin::Static
                }
            },
            _ => ValueOrigin::Static,
        }
    }
}

impl Default for EvaluationContext {
    fn default() -> (r: Self)
        ensures
            r@ == root_context(),
    {
        EvaluationContext::new()
    }
}

} // verus!
