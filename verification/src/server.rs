//! The tools that are offered, and what becomes of a call.
//!
//! Each call is checked against its contract before anything is sent to herdr. The escape
//! hatch is held to the configured surface on its target method, so it cannot bypass it.

use vstd::hash_set::StringHashSet;
use vstd::prelude::*;

use crate::config::{
    any_hits, configured, deny_matches, deny_patterns, enabled_methods, optional_items, summary,
    SurfaceEnv, SurfaceView,
};
use crate::contract::optional_text;
use crate::herdr::{bytes_of, outcome, HerdrError, HerdrErrorView};
use crate::json::{json_bytes, json_contents, Json, JsonView, Object};
use crate::manifest::{methods_view, MethodSpec, MethodView, HERDR_CALL};
use crate::schema::{input_schema, schema_view, validate, violation};
use crate::text::{decimal, same, texts};

verus! {

/// One tool, as it is offered.
#[derive(Debug)]
pub struct Tool {
    pub name: String,
    pub description: String,
    pub schema: Json,
    pub read_only: bool,
    pub destructive: bool,
    pub enabled: bool,
}

/// What a tool is.
pub struct ToolView {
    pub name: Seq<char>,
    pub description: Seq<char>,
    pub schema: JsonView,
    pub read_only: bool,
    pub destructive: bool,
    pub enabled: bool,
}

impl Tool {
    pub open spec fn view(self) -> ToolView {
        ToolView {
            name: self.name@,
            description: self.description@,
            schema: self.schema@,
            read_only: self.read_only,
            destructive: self.destructive,
            enabled: self.enabled,
        }
    }
}

/// Whether a method is the escape hatch.
pub open spec fn is_escape(method: MethodView) -> bool {
    method.tool_name == HERDR_CALL@
}

/// Whether a tool only reads: it is in the group `observe`, and not the escape hatch.
pub open spec fn is_read_only(method: MethodView) -> bool {
    !is_escape(method) && method.group == "observe"@
}

/// Whether a tool may change something: it does more than read, or is marked as dangerous.
pub open spec fn is_destructive(method: MethodView) -> bool {
    !is_read_only(method) || method.danger
}

/// The tool of a method.
pub open spec fn tool_view(method: MethodView, enabled: Set<Seq<char>>) -> ToolView {
    ToolView {
        name: method.tool_name,
        description: method.description,
        schema: schema_view(method),
        read_only: is_read_only(method),
        destructive: is_destructive(method),
        enabled: enabled.contains(method.method),
    }
}

/// The tool of a method.
pub fn build_tool(spec: &MethodSpec, enabled: &StringHashSet) -> (tool: Tool)
    ensures
        tool@ == tool_view(spec@, enabled@),
{
    let read_only: bool = !same(spec.tool_name.as_str(), HERDR_CALL) && same(
        spec.group.as_str(),
        "observe",
    );
    Tool {
        name: spec.tool_name.clone(),
        description: spec.description.clone(),
        schema: input_schema(spec),
        read_only,
        destructive: !read_only || spec.danger,
        enabled: enabled.contains(spec.method.as_str()),
    }
}

/// The methods that the contract knows, the escape hatch aside.
pub open spec fn known_methods(methods: Seq<MethodView>) -> Set<Seq<char>> {
    Set::new(
        |name: Seq<char>|
            exists|i: int|
                0 <= i < methods.len() && (#[trigger] methods[i]).method == name && !is_escape(
                    methods[i],
                ),
    )
}

/// The methods that the contract knows, the escape hatch aside.
pub fn collect_known(methods: &[MethodSpec]) -> (known: StringHashSet)
    ensures
        known@ == known_methods(methods_view(methods@)),
{
    let ghost views = methods_view(methods@);
    let mut known: StringHashSet = StringHashSet::new();
    let mut i: usize = 0;
    while i < methods.len()
        invariant
            i <= methods.len() == views.len(),
            views == methods_view(methods@),
            forall|name: Seq<char>| #[trigger]
                known@.contains(name) <==> exists|j: int|
                    0 <= j < i && (#[trigger] views[j]).method == name && !is_escape(views[j]),
        decreases methods.len() - i,
    {
        let ghost before = known@;
        assert(views[i as int] == methods[i as int]@);
        if !same(methods[i].tool_name.as_str(), HERDR_CALL) {
            known.insert(methods[i].method.clone());
        }
        proof {
            assert forall|name: Seq<char>| #[trigger] known@.contains(name) <==> exists|j: int|
                0 <= j < i + 1 && (#[trigger] views[j]).method == name && !is_escape(views[j]) by {
                if before.contains(name) {
                    let j = choose|j: int|
                        0 <= j < i && (#[trigger] views[j]).method == name && !is_escape(views[j]);
                    assert(views[j].method == name);
                }
            }
        }
        i = i + 1;
    }
    assert(known@ =~= known_methods(views));
    known
}

/// The tools, and what the escape hatch is held to.
pub struct Surface {
    pub tools: Vec<Tool>,
    pub enabled: StringHashSet,
    pub known: StringHashSet,
    pub deny: Vec<String>,
    /// How many tools are enabled, in one line.
    pub summary: String,
}

/// What a surface is.
pub struct OfferView {
    pub tools: Seq<ToolView>,
    pub enabled: Set<Seq<char>>,
    pub known: Set<Seq<char>>,
    pub deny: Seq<Seq<char>>,
    pub summary: Seq<char>,
}

impl Surface {
    pub open spec fn view(self) -> OfferView {
        OfferView {
            tools: self.tools@.map_values(|t: Tool| t@),
            enabled: self.enabled@,
            known: self.known@,
            deny: texts(self.deny@),
            summary: self.summary@,
        }
    }
}

/// What the settings offer of the methods.
pub open spec fn offer(methods: Seq<MethodView>, env: SurfaceView) -> OfferView {
    let enabled = configured(methods, env);
    OfferView {
        tools: methods.map_values(|m: MethodView| tool_view(m, enabled)),
        enabled,
        known: known_methods(methods),
        deny: optional_items(env.deny),
        summary: decimal(enabled.len()) + "/"@ + decimal(methods.len()) + " tools enabled"@,
    }
}

/// Builds the surface: one tool per method, enabled as the settings say.
pub fn build_surface(methods: &[MethodSpec], env: &SurfaceEnv) -> (surface: Surface)
    ensures
        surface@ == offer(methods_view(methods@), env@),
{
    let ghost views = methods_view(methods@);
    let enabled: StringHashSet = enabled_methods(methods, env);
    let mut tools: Vec<Tool> = Vec::new();
    let mut i: usize = 0;
    while i < methods.len()
        invariant
            i <= methods.len() == views.len(),
            views == methods_view(methods@),
            enabled@ == configured(views, env@),
            tools.len() == i,
            forall|j: int| 0 <= j < i ==> (#[trigger] tools[j])@ == tool_view(views[j], enabled@),
        decreases methods.len() - i,
    {
        assert(views[i as int] == methods[i as int]@);
        tools.push(build_tool(&methods[i], &enabled));
        i = i + 1;
    }
    let surface: Surface = Surface {
        tools,
        enabled,
        known: collect_known(methods),
        deny: deny_patterns(env),
        summary: summary(methods, env),
    };
    assert(surface@.tools =~= offer(views, env@).tools);
    surface
}

/// Why the escape hatch refuses a target, if it does. It refuses what is denied, and the
/// methods of the contract that are not enabled.
pub open spec fn refusal(
    method: Seq<char>,
    enabled: Set<Seq<char>>,
    known: Set<Seq<char>>,
    deny: Seq<Seq<char>>,
) -> Option<Seq<char>> {
    if any_hits(deny, method) {
        Some("`"@ + method + "` is blocked by HERDR_MCP_DENY"@)
    } else if known.contains(method) && !enabled.contains(method) {
        Some(
            "`"@ + method
                + "` is disabled by the current profile; herdr_call cannot bypass it"@,
        )
    } else {
        None
    }
}

/// Why the escape hatch refuses a target, if it does.
pub fn guard_reason(
    method: &str,
    enabled: &StringHashSet,
    known: &StringHashSet,
    deny: &[String],
) -> (reason: Option<String>)
    ensures
        optional_text(reason) == refusal(method@, enabled@, known@, texts(deny@)),
{
    if deny_matches(deny, method) {
        let mut reason: String = "`".to_string();
        reason.append(method);
        reason.append("` is blocked by HERDR_MCP_DENY");
        return Some(reason);
    }
    if known.contains(method) && !enabled.contains(method) {
        let mut reason: String = "`".to_string();
        reason.append(method);
        reason.append("` is disabled by the current profile; herdr_call cannot bypass it");
        return Some(reason);
    }
    None
}

/// The body of a failed call.
pub open spec fn error_view(
    kind: Seq<char>,
    code: Seq<char>,
    message: Seq<char>,
    method: Seq<char>,
) -> JsonView {
    JsonView::Object(
        Map::<Seq<char>, JsonView>::empty().insert(
            "error"@,
            JsonView::Object(
                Map::<Seq<char>, JsonView>::empty().insert("kind"@, JsonView::Str(kind)).insert(
                    "code"@,
                    JsonView::Str(code),
                ).insert("message"@, JsonView::Str(message)).insert(
                    "method"@,
                    JsonView::Str(method),
                ),
            ),
        ),
    )
}

/// The body of a failed call.
pub fn error_body(kind: &str, code: &str, message: &str, method: &str) -> (body: Json)
    ensures
        body@ == error_view(kind@, code@, message@, method@),
{
    let mut error: Object = Object::new();
    error.insert("kind", Json::Str(kind.to_string()));
    error.insert("code", Json::Str(code.to_string()));
    error.insert("message", Json::Str(message.to_string()));
    error.insert("method", Json::Str(method.to_string()));
    let mut body: Object = Object::new();
    body.insert("error", Json::Object(error));
    Json::Object(body)
}

/// A failed call in one line.
pub open spec fn error_line_view(
    kind: Seq<char>,
    code: Seq<char>,
    message: Seq<char>,
    method: Seq<char>,
) -> Seq<char> {
    kind + "/"@ + code + ": "@ + message + " ("@ + method + ")"@
}

/// A failed call in one line.
pub fn error_line(kind: &str, code: &str, message: &str, method: &str) -> (line: String)
    ensures
        line@ == error_line_view(kind@, code@, message@, method@),
{
    let mut line: String = kind.to_string();
    line.append("/");
    line.append(code);
    line.append(": ");
    line.append(message);
    line.append(" (");
    line.append(method);
    line.append(")");
    line
}

/// What a call gives back: whether it failed, and its text.
#[derive(Debug)]
pub struct CallResult {
    pub is_error: bool,
    pub text: String,
}

/// What the result of a call is.
pub struct CallView {
    pub is_error: bool,
    pub text: Seq<char>,
}

impl CallResult {
    pub open spec fn view(self) -> CallView {
        CallView { is_error: self.is_error, text: self.text@ }
    }
}

/// What `rmcp::model::Content::json` makes of a value: the text of a content, or a message.
pub uninterp spec fn content_of(value: JsonView) -> Result<Seq<char>, Seq<char>>;

/// `rmcp::model::Content::json`, of a `serde_json::Value`. It gives a text content; what it
/// gives, the message of an error included, is a function of what the value holds. The text is
/// that of `serde_json::to_string`, whose bytes are those of `serde_json::to_vec`.
#[verifier::external_body]
fn content_json(value: serde_json::Value) -> (rendered: Result<String, String>)
    ensures
        match rendered {
            Ok(text) => {
                &&& content_of(json_contents(value)) == Ok::<Seq<char>, Seq<char>>(text@)
                &&& json_bytes(json_contents(value)) == Ok::<Seq<u8>, Seq<char>>(bytes_of(text@))
            },
            Err(message) => content_of(json_contents(value)) == Err::<Seq<char>, Seq<char>>(
                message@,
            ),
        },
{
    match rmcp::model::Content::json(value) {
        Ok(content) => Ok(content.as_text().map(|t| t.text.clone()).unwrap_or_default()),
        Err(error) => Err(error.to_string()),
    }
}

/// The result of a failed call: its body as it was rendered, or its line where that failed.
pub open spec fn failure_view(
    rendered: Result<Seq<char>, Seq<char>>,
    kind: Seq<char>,
    code: Seq<char>,
    message: Seq<char>,
    method: Seq<char>,
) -> CallView {
    CallView {
        is_error: true,
        text: match rendered {
            Ok(text) => text,
            Err(_) => error_line_view(kind, code, message, method),
        },
    }
}

/// What an attempt to render a value is.
pub open spec fn rendered_view(rendered: Result<String, String>) -> Result<Seq<char>, Seq<char>> {
    match rendered {
        Ok(text) => Ok(text@),
        Err(message) => Err(message@),
    }
}

/// The result of a failed call whose body was rendered, or could not be.
pub fn failure_result(
    rendered: Result<String, String>,
    kind: &str,
    code: &str,
    message: &str,
    method: &str,
) -> (result: CallResult)
    ensures
        result@ == failure_view(rendered_view(rendered), kind@, code@, message@, method@),
{
    match rendered {
        Ok(text) => CallResult { is_error: true, text },
        Err(_) => CallResult { is_error: true, text: error_line(kind, code, message, method) },
    }
}

/// The result of a failed call.
pub open spec fn error_result_view(
    kind: Seq<char>,
    code: Seq<char>,
    message: Seq<char>,
    method: Seq<char>,
) -> CallView {
    failure_view(content_of(error_view(kind, code, message, method)), kind, code, message, method)
}

/// The result of a failed call: its structured body.
pub fn error_result(kind: &str, code: &str, message: &str, method: &str) -> (result: CallResult)
    ensures
        result@ == error_result_view(kind@, code@, message@, method@),
        content_of(error_view(kind@, code@, message@, method@)) is Ok ==> json_bytes(
            error_view(kind@, code@, message@, method@),
        ) == Ok::<Seq<u8>, Seq<char>>(bytes_of(result.text@)),
{
    let body: Json = error_body(kind, code, message, method);
    failure_result(content_json(body.into_value()), kind, code, message, method)
}

/// What becomes of a call before herdr has a part in it.
#[derive(Debug)]
pub enum Plan {
    /// The call fails.
    Refuse { kind: String, code: String, message: String, method: String },
    /// A request goes to herdr.
    Forward { method: String, params: Json },
}

/// What a plan is.
pub enum PlanView {
    Refuse { kind: Seq<char>, code: Seq<char>, message: Seq<char>, method: Seq<char> },
    Forward { method: Seq<char>, params: JsonView },
}

impl Plan {
    pub open spec fn view(self) -> PlanView {
        match self {
            Plan::Refuse { kind, code, message, method } => PlanView::Refuse {
                kind: kind@,
                code: code@,
                message: message@,
                method: method@,
            },
            Plan::Forward { method, params } => PlanView::Forward {
                method: method@,
                params: params@,
            },
        }
    }
}

/// The plan for a call of a herdr method: arguments that violate the contract are refused,
/// others go to herdr as they are.
pub open spec fn call_plan(method: MethodView, args: Map<Seq<char>, JsonView>) -> PlanView {
    match violation(method, args) {
        Some(message) => PlanView::Refuse {
            kind: "request"@,
            code: "invalid_params"@,
            message,
            method: method.method,
        },
        None => PlanView::Forward { method: method.method, params: JsonView::Object(args) },
    }
}

/// The plan for a call of a herdr method.
pub fn plan_call(spec: &MethodSpec, args: Object) -> (plan: Plan)
    ensures
        plan@ == call_plan(spec@, args@),
{
    match validate(spec, &args) {
        Err(message) => Plan::Refuse {
            kind: "request".to_string(),
            code: "invalid_params".to_string(),
            message,
            method: spec.method.clone(),
        },
        Ok(_) => Plan::Forward { method: spec.method.clone(), params: Json::Object(args) },
    }
}

/// The target of a call of the escape hatch.
pub open spec fn escape_target(args: Map<Seq<char>, JsonView>) -> Seq<char> {
    match JsonView::Object(args).member_text("method"@) {
        Some(method) => method,
        None => Seq::empty(),
    }
}

/// The parameters for the target of a call of the escape hatch: an empty object where none
/// are given.
pub open spec fn escape_params(args: Map<Seq<char>, JsonView>) -> JsonView {
    match JsonView::Object(args).member("params"@) {
        Some(params) => params,
        None => JsonView::Object(Map::empty()),
    }
}

/// The plan for a call of the escape hatch: arguments that violate its contract are refused,
/// and targets that the surface does not let through.
pub open spec fn escape_plan(
    method: MethodView,
    args: Map<Seq<char>, JsonView>,
    enabled: Set<Seq<char>>,
    known: Set<Seq<char>>,
    deny: Seq<Seq<char>>,
) -> PlanView {
    match violation(method, args) {
        Some(message) => PlanView::Refuse {
            kind: "request"@,
            code: "invalid_params"@,
            message,
            method: HERDR_CALL@,
        },
        None => match refusal(escape_target(args), enabled, known, deny) {
            Some(reason) => PlanView::Refuse {
                kind: "request"@,
                code: "forbidden"@,
                message: reason,
                method: escape_target(args),
            },
            None => PlanView::Forward { method: escape_target(args), params: escape_params(args) },
        },
    }
}

/// The plan for a call of the escape hatch.
pub fn plan_escape(
    spec: &MethodSpec,
    args: Object,
    enabled: &StringHashSet,
    known: &StringHashSet,
    deny: &[String],
) -> (plan: Plan)
    ensures
        plan@ == escape_plan(spec@, args@, enabled@, known@, texts(deny@)),
{
    if let Err(message) = validate(spec, &args) {
        return Plan::Refuse {
            kind: "request".to_string(),
            code: "invalid_params".to_string(),
            message,
            method: HERDR_CALL.to_string(),
        };
    }
    let inner: String = match args.get("method") {
        Some(value) => match value.as_str() {
            Some(method) => method.to_string(),
            None => String::new(),
        },
        None => String::new(),
    };
    assert(inner@ =~= escape_target(args@));
    if let Some(reason) = guard_reason(inner.as_str(), enabled, known, deny) {
        return Plan::Refuse {
            kind: "request".to_string(),
            code: "forbidden".to_string(),
            message: reason,
            method: inner,
        };
    }
    let params: Json = match args.take("params") {
        Some(params) => params,
        None => Json::Object(Object::new()),
    };
    Plan::Forward { method: inner, params }
}

/// The plan for a call of a tool.
pub open spec fn tool_plan(
    method: MethodView,
    args: Map<Seq<char>, JsonView>,
    offer: OfferView,
) -> PlanView {
    if is_escape(method) {
        escape_plan(method, args, offer.enabled, offer.known, offer.deny)
    } else {
        call_plan(method, args)
    }
}

/// The plan for a call of a tool.
pub fn plan_tool(spec: &MethodSpec, args: Object, surface: &Surface) -> (plan: Plan)
    ensures
        plan@ == tool_plan(spec@, args@, surface@),
{
    if same(spec.tool_name.as_str(), HERDR_CALL) {
        plan_escape(spec, args, &surface.enabled, &surface.known, &surface.deny)
    } else {
        plan_call(spec, args)
    }
}

/// The answer to a call: herdr's result, or a failure.
#[derive(Debug)]
pub enum Answer {
    Success { result: Json },
    Failure { kind: String, code: String, message: String, method: String },
}

/// What an answer is.
pub enum AnswerView {
    Success { result: JsonView },
    Failure { kind: Seq<char>, code: Seq<char>, message: Seq<char>, method: Seq<char> },
}

impl Answer {
    pub open spec fn view(self) -> AnswerView {
        match self {
            Answer::Success { result } => AnswerView::Success { result: result@ },
            Answer::Failure { kind, code, message, method } => AnswerView::Failure {
                kind: kind@,
                code: code@,
                message: message@,
                method: method@,
            },
        }
    }
}

/// The answer that a request to herdr gives a call.
pub open spec fn answer_view(
    method: Seq<char>,
    r: Result<JsonView, HerdrErrorView>,
) -> AnswerView {
    match r {
        Ok(result) => AnswerView::Success { result },
        Err(HerdrErrorView::Api { code, message }) => AnswerView::Failure {
            kind: "api"@,
            code,
            message,
            method,
        },
        Err(HerdrErrorView::Transport(message)) => AnswerView::Failure {
            kind: "transport"@,
            code: "transport"@,
            message,
            method,
        },
    }
}

/// The answer that a request to herdr gives a call.
pub fn answer(method: &str, r: Result<Json, HerdrError>) -> (answer: Answer)
    ensures
        answer@ == answer_view(method@, outcome(r)),
{
    match r {
        Ok(result) => Answer::Success { result },
        Err(HerdrError::Api { code, message }) => Answer::Failure {
            kind: "api".to_string(),
            code,
            message,
            method: method.to_string(),
        },
        Err(HerdrError::Transport(message)) => Answer::Failure {
            kind: "transport".to_string(),
            code: "transport".to_string(),
            message,
            method: method.to_string(),
        },
    }
}

/// The result of a call: herdr's result as it was rendered, or a failure.
pub open spec fn success_view(
    rendered: Result<Seq<char>, Seq<char>>,
    method: Seq<char>,
) -> CallView {
    match rendered {
        Ok(text) => CallView { is_error: false, text },
        Err(message) => error_result_view("transport"@, "serialize"@, message, method),
    }
}

/// The result of a call to which herdr gave a result that was rendered, or could not be.
pub fn success_result(rendered: Result<String, String>, method: &str) -> (result: CallResult)
    ensures
        result@ == success_view(rendered_view(rendered), method@),
{
    match rendered {
        Ok(text) => CallResult { is_error: false, text },
        Err(message) => error_result("transport", "serialize", message.as_str(), method),
    }
}

/// The result of a call, by what the request to herdr came to.
pub open spec fn call_view(
    method: Seq<char>,
    r: Result<JsonView, HerdrErrorView>,
) -> CallView {
    match answer_view(method, r) {
        AnswerView::Success { result } => success_view(content_of(result), method),
        AnswerView::Failure { kind, code, message, method } => error_result_view(
            kind,
            code,
            message,
            method,
        ),
    }
}

/// The result of a call, by what the request to herdr came to.
pub fn end_call(method: &str, r: Result<Json, HerdrError>) -> (result: CallResult)
    ensures
        result@ == call_view(method@, outcome(r)),
        !result.is_error ==> outcome(r) is Ok && json_bytes(outcome(r)->Ok_0) == Ok::<
            Seq<u8>,
            Seq<char>,
        >(bytes_of(result.text@)),
{
    match answer(method, r) {
        Answer::Success { result } => success_result(content_json(result.into_value()), method),
        Answer::Failure { kind, code, message, method } => error_result(
            kind.as_str(),
            code.as_str(),
            message.as_str(),
            method.as_str(),
        ),
    }
}

/// The first step of a call.
#[derive(Debug)]
pub enum Step {
    /// The call is over.
    Done { result: CallResult },
    /// A request goes to herdr.
    Request { method: String, params: Json },
}

/// What the first step of a call is.
pub enum StepView {
    Done { result: CallView },
    Request { method: Seq<char>, params: JsonView },
}

impl Step {
    pub open spec fn view(self) -> StepView {
        match self {
            Step::Done { result } => StepView::Done { result: result@ },
            Step::Request { method, params } => StepView::Request {
                method: method@,
                params: params@,
            },
        }
    }
}

/// The first step of a call with a plan: what is refused is answered at once.
pub open spec fn step_view(plan: PlanView) -> StepView {
    match plan {
        PlanView::Refuse { kind, code, message, method } => StepView::Done {
            result: error_result_view(kind, code, message, method),
        },
        PlanView::Forward { method, params } => StepView::Request { method, params },
    }
}

/// Begins a call of a tool.
pub fn begin_call(spec: &MethodSpec, args: Object, surface: &Surface) -> (step: Step)
    ensures
        step@ == step_view(tool_plan(spec@, args@, surface@)),
{
    match plan_tool(spec, args, surface) {
        Plan::Refuse { kind, code, message, method } => Step::Done {
            result: error_result(
                kind.as_str(),
                code.as_str(),
                message.as_str(),
                method.as_str(),
            ),
        },
        Plan::Forward { method, params } => Step::Request { method, params },
    }
}

} // verus!
