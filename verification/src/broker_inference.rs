//! The sidecar's `BrokerInference` request: which messages and tools go to
//! the OpenAI-compatible backend, and how its completion is answered.
use vstd::prelude::*;

use crate::adapters::RuntimeKind;
use crate::http_openai_compat::{
    BrokerCompletionResult, HttpChatMessage, HttpToolCall, HttpToolSpec, InferenceProtocol,
};
use crate::settings::{NativeToolsMode, Settings};
use crate::text::{chars_of, trim, trim_vec};

verus! {

/// One chat message of a broker request.
#[derive(Debug, Clone)]
pub struct ChatMessage {
    pub role: String,
    pub content: String,
}

/// One tool the sidecar offers.
#[derive(Debug, Clone)]
pub struct ToolSpec {
    pub name: String,
    pub description: String,
    pub parameters_json: String,
}

/// One tool call of a broker answer.
#[derive(Debug, Clone)]
pub struct ToolCall {
    pub id: String,
    pub name: String,
    pub arguments_json: String,
}

/// A `BrokerInference` request.
#[derive(Debug, Clone)]
pub struct BrokerInferenceRequest {
    pub prompt: String,
    pub mode: String,
    pub model: String,
    pub messages: Vec<ChatMessage>,
    pub tools: Vec<ToolSpec>,
}

/// A `BrokerInference` answer.
#[derive(Debug, Clone)]
pub struct BrokerInferenceResponse {
    pub ok: bool,
    pub text: String,
    pub content: String,
    pub error: String,
    pub tool_calls: Vec<ToolCall>,
    pub protocol: InferenceProtocol,
}

/// The messages sent: the request's messages, else its prompt as one user
/// message when the prompt is not blank, else none.
pub open spec fn normalized_messages(request: BrokerInferenceRequest) -> Seq<(Seq<char>, Seq<char>)> {
    if request.messages@.len() > 0 {
        request.messages@.map_values(|m: ChatMessage| (m.role@, m.content@))
    } else if trim(request.prompt@).len() == 0 {
        Seq::empty()
    } else {
        seq![("user"@, request.prompt@)]
    }
}

/// The views of chat messages for the backend.
pub open spec fn http_messages_view(v: Seq<HttpChatMessage>) -> Seq<(Seq<char>, Seq<char>)> {
    v.map_values(|m: HttpChatMessage| (m.role@, m.content@))
}

/// The messages a broker request sends to the backend.
pub fn normalize_messages(request: &BrokerInferenceRequest) -> (r: Vec<HttpChatMessage>)
    ensures
        http_messages_view(r@) == normalized_messages(*request),
{
    let mut r: Vec<HttpChatMessage> = Vec::new();
    if request.messages.len() > 0 {
        let ghost all = request.messages@.map_values(|m: ChatMessage| (m.role@, m.content@));
        let mut i: usize = 0;
        while i < request.messages.len()
            invariant
                i <= request.messages.len(),
                all == request.messages@.map_values(|m: ChatMessage| (m.role@, m.content@)),
                http_messages_view(r@) == all.take(i as int),
            decreases request.messages.len() - i,
        {
            let ghost before = r@;
            let m = &request.messages[i];
            r.push(HttpChatMessage { role: m.role.clone(), content: m.content.clone() });
            assert(http_messages_view(r@) =~= http_messages_view(before).push(all[i as int]));
            assert(all.take(i + 1) =~= all.take(i as int).push(all[i as int]));
            i = i + 1;
        }
        assert(all.take(request.messages.len() as int) =~= all);
        return r;
    }
    if trim_vec(&chars_of(request.prompt.as_str())).len() == 0 {
        assert(http_messages_view(r@) =~= Seq::<(Seq<char>, Seq<char>)>::empty());
        return r;
    }
    r.push(HttpChatMessage { role: String::from_str("user"), content: request.prompt.clone() });
    assert(http_messages_view(r@) =~= seq![("user"@, request.prompt@)]);
    r
}

/// Whether the request offers tools.
pub fn request_has_tools(request: &BrokerInferenceRequest) -> (b: bool)
    ensures
        b == (request.tools@.len() > 0),
{
    request.tools.len() > 0
}

/// Tools are forwarded: the request offers some, the runtime is the HTTP
/// one, and native tools are not switched off.
pub open spec fn forwards_tools(
    request: BrokerInferenceRequest,
    native_tools: NativeToolsMode,
    runtime: RuntimeKind,
) -> bool {
    request.tools@.len() > 0 && runtime == RuntimeKind::HttpOpenAiCompat && native_tools
        != NativeToolsMode::False
}

/// Whether the request's tools are forwarded to the backend.
pub fn should_forward_native_tools(
    request: &BrokerInferenceRequest,
    native_tools: NativeToolsMode,
    runtime: RuntimeKind,
    _base_url: &str,
) -> (b: bool)
    ensures
        b == forwards_tools(*request, native_tools, runtime),
{
    if !request_has_tools(request) {
        return false;
    }
    match runtime {
        RuntimeKind::Mock | RuntimeKind::CursorCli => {
            return false;
        },
        RuntimeKind::HttpOpenAiCompat => {},
    }
    native_tools != NativeToolsMode::False
}

/// The request's tools for the backend, field for field.
pub fn http_tools_from_proto(tools: &Vec<ToolSpec>) -> (r: Vec<HttpToolSpec>)
    ensures
        r@.map_values(|t: HttpToolSpec| (t.name@, t.description@, t.parameters_json@))
            == tools@.map_values(|t: ToolSpec| (t.name@, t.description@, t.parameters_json@)),
{
    let ghost all = tools@.map_values(|t: ToolSpec| (t.name@, t.description@, t.parameters_json@));
    let mut r: Vec<HttpToolSpec> = Vec::new();
    let mut i: usize = 0;
    while i < tools.len()
        invariant
            i <= tools.len(),
            all == tools@.map_values(|t: ToolSpec| (t.name@, t.description@, t.parameters_json@)),
            r@.map_values(|t: HttpToolSpec| (t.name@, t.description@, t.parameters_json@))
                == all.take(i as int),
        decreases tools.len() - i,
    {
        let ghost before = r@;
        let t = &tools[i];
        r.push(
            HttpToolSpec {
                name: t.name.clone(),
                description: t.description.clone(),
                parameters_json: t.parameters_json.clone(),
            },
        );
        assert(r@.map_values(|t: HttpToolSpec| (t.name@, t.description@, t.parameters_json@))
            =~= before.map_values(|t: HttpToolSpec| (t.name@, t.description@, t.parameters_json@)).push(
            all[i as int],
        ));
        assert(all.take(i + 1) =~= all.take(i as int).push(all[i as int]));
        i = i + 1;
    }
    assert(all.take(tools.len() as int) =~= all);
    r
}

/// The views of tool calls.
pub open spec fn calls_view(v: Seq<ToolCall>) -> Seq<(Seq<char>, Seq<char>, Seq<char>)> {
    v.map_values(|c: ToolCall| (c.id@, c.name@, c.arguments_json@))
}

/// The backend's tool calls as answer tool calls, field for field.
pub fn proto_tool_calls(calls: &Vec<HttpToolCall>) -> (r: Vec<ToolCall>)
    ensures
        calls_view(r@) == calls@.map_values(|c: HttpToolCall| (c.id@, c.name@, c.arguments_json@)),
{
    let ghost all = calls@.map_values(|c: HttpToolCall| (c.id@, c.name@, c.arguments_json@));
    let mut r: Vec<ToolCall> = Vec::new();
    let mut i: usize = 0;
    while i < calls.len()
        invariant
            i <= calls.len(),
            all == calls@.map_values(|c: HttpToolCall| (c.id@, c.name@, c.arguments_json@)),
            calls_view(r@) == all.take(i as int),
        decreases calls.len() - i,
    {
        let ghost before = r@;
        let c = &calls[i];
        r.push(
            ToolCall {
                id: c.id.clone(),
                name: c.name.clone(),
                arguments_json: c.arguments_json.clone(),
            },
        );
        assert(calls_view(r@) =~= calls_view(before).push(all[i as int]));
        assert(all.take(i + 1) =~= all.take(i as int).push(all[i as int]));
        i = i + 1;
    }
    assert(all.take(calls.len() as int) =~= all);
    r
}

/// The answer to a completion: a soft error makes a failed answer that
/// still carries the calls; otherwise the answer is ok and its `text` is the
/// content unless there are tool calls.
pub fn map_completion_to_response(result: BrokerCompletionResult) -> (r: BrokerInferenceResponse)
    ensures
        calls_view(r.tool_calls@) == result.tool_calls@.map_values(
            |c: HttpToolCall| (c.id@, c.name@, c.arguments_json@),
        ),
        r.protocol == result.protocol,
        match result.error {
            Some(e) => !r.ok && r.text@ == Seq::<char>::empty() && r.content@ == Seq::<char>::empty()
                && r.error == e,
            None => r.ok && r.content == result.content && r.error@ == Seq::<char>::empty() && r.text@
                == if result.tool_calls@.len() > 0 {
                Seq::<char>::empty()
            } else {
                result.content@
            },
        },
{
    let tool_calls = proto_tool_calls(&result.tool_calls);
    match result.error {
        Some(err) => BrokerInferenceResponse {
            ok: false,
            text: String::new(),
            content: String::new(),
            error: err,
            tool_calls,
            protocol: result.protocol,
        },
        None => {
            let has_tool_calls = result.tool_calls.len() > 0;
            let content = result.content.clone();
            let text = if has_tool_calls {
                String::new()
            } else {
                content.clone()
            };
            BrokerInferenceResponse {
                ok: true,
                text,
                content,
                error: String::new(),
                tool_calls,
                protocol: result.protocol,
            }
        },
    }
}

/// A failed answer with a message and no calls.
pub fn error_response(message: &str, protocol: InferenceProtocol) -> (r: BrokerInferenceResponse)
    ensures
        !r.ok,
        r.text@ == Seq::<char>::empty(),
        r.content@ == Seq::<char>::empty(),
        r.error@ == message@,
        r.tool_calls@.len() == 0,
        r.protocol == protocol,
{
    BrokerInferenceResponse {
        ok: false,
        text: String::new(),
        content: String::new(),
        error: String::from_str(message),
        tool_calls: Vec::new(),
        protocol,
    }
}

/// What a broker request sends to the backend.
#[derive(Debug, Clone)]
pub struct BrokerPlan {
    pub messages: Vec<HttpChatMessage>,
    pub tools: Vec<HttpToolSpec>,
    pub model: String,
    pub forward_tools: bool,
    pub native_tools: NativeToolsMode,
    pub runtime: RuntimeKind,
    pub base_url: String,
}

/// The decisions of a broker request before the backend is called: a
/// request without prompt or messages is answered at once; otherwise the
/// messages, the forwarded tools (none unless forwarded) and the settings
/// the exchange runs with.
pub fn plan_broker_inference(request: &BrokerInferenceRequest, settings: &Settings) -> (r: Result<
    BrokerPlan,
    BrokerInferenceResponse,
>)
    ensures
        normalized_messages(*request).len() == 0 <==> r is Err,
        r matches Err(resp) ==> !resp.ok && resp.error@
            == "broker inference requires prompt or messages"@ && resp.protocol
            == InferenceProtocol::Interim && resp.tool_calls@.len() == 0,
        r matches Ok(plan) ==> ({
            let runtime = crate::adapters::runtime_kind_of(settings.inference_runtime@);
            let forward = forwards_tools(*request, settings.openai_compat.native_tools, runtime);
            &&& http_messages_view(plan.messages@) == normalized_messages(*request)
            &&& plan.runtime == runtime
            &&& plan.native_tools == settings.openai_compat.native_tools
            &&& plan.forward_tools == forward
            &&& plan.model == request.model
            &&& plan.base_url == settings.openai_compat.base_url
            &&& plan.tools@.map_values(|t: HttpToolSpec| (t.name@, t.description@, t.parameters_json@))
                == if forward {
                request.tools@.map_values(|t: ToolSpec| (t.name@, t.description@, t.parameters_json@))
            } else {
                Seq::empty()
            }
        }),
{
    let runtime = RuntimeKind::from_config(settings);
    let native_tools = settings.openai_compat.native_tools;
    let messages = normalize_messages(request);
    if messages.len() == 0 {
        return Err(
            error_response("broker inference requires prompt or messages", InferenceProtocol::Interim),
        );
    }
    let forward_tools = should_forward_native_tools(
        request,
        native_tools,
        runtime,
        settings.openai_compat.base_url.as_str(),
    );
    let tools = if forward_tools {
        http_tools_from_proto(&request.tools)
    } else {
        let t: Vec<HttpToolSpec> = Vec::new();
        assert(t@.map_values(|t: HttpToolSpec| (t.name@, t.description@, t.parameters_json@))
            =~= Seq::<(Seq<char>, Seq<char>, Seq<char>)>::empty());
        t
    };
    Ok(
        BrokerPlan {
            messages,
            tools,
            model: request.model.clone(),
            forward_tools,
            native_tools,
            runtime,
            base_url: settings.openai_compat.base_url.clone(),
        },
    )
}

} // verus!
