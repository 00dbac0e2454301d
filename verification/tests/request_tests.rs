use agnt::conversation::{
    AssistantPart, GenerateRequest, Message, TextPart, ToolChoice, ToolDefinition, ToolResultPart, UserPart,
};
use agnt::openai::{OpenAIConfig, OpenAIRequestExt, ReasoningEffort, ReasoningSummary, Role};
use agnt::openai_events::{ReasoningPart, ReasoningSummaryPart, ToolCallPart};
use agnt::openai_request::{to_openai_request, InputContent, InputItem, WireToolChoice};

fn s(x: &str) -> String {
    x.to_string()
}

fn meta(v: &[(&str, &str)]) -> Vec<(String, String)> {
    v.iter().map(|(a, b)| (s(a), s(b))).collect()
}

fn config(store: Option<bool>, encrypted: bool) -> OpenAIConfig {
    OpenAIConfig {
        auth_token: s("t"),
        base_url: s("https://api.openai.com/v1"),
        response_store: store,
        include_reasoning_encrypted_content: encrypted,
        extra_headers: vec![],
        include_chatgpt_account_id_header: false,
    }
}

fn describe(item: &InputItem) -> String {
    match item {
        InputItem::Message { id, role, content } => {
            let parts: Vec<String> = content
                .iter()
                .map(|c| match c {
                    InputContent::InputText { text } => format!("in:{text}"),
                    InputContent::InputImage { url } => format!("img:{url}"),
                    InputContent::OutputText { text } => format!("out:{text}"),
                })
                .collect();
            format!("msg({:?},{},{})", id, role.wire_name(), parts.join("|"))
        }
        InputItem::Reasoning { id, summary, encrypted_content } => {
            let texts: Vec<String> =
                summary.iter().map(|ReasoningSummaryPart::SummaryText { text }| text.clone()).collect();
            format!("reasoning({id},{},{:?})", texts.join("|"), encrypted_content)
        }
        InputItem::FunctionCall { id, call_id, name, arguments } => format!("call({id},{call_id},{name},{arguments})"),
        InputItem::FunctionCallOutput { call_id, output } => format!("output({call_id},{output})"),
    }
}

#[test]
fn conversation_becomes_input_items() {
    let mut req = GenerateRequest {
        messages: vec![
            Message::System(vec![s("first")]),
            Message::User(vec![UserPart::Text(s("hi")), UserPart::Image(s("http://img"))]),
            Message::Assistant(vec![
                AssistantPart::Text(TextPart { text: s("a"), metadata: meta(&[("openai:item_id", "msg_1")]) }),
                AssistantPart::Text(TextPart { text: s("b"), metadata: meta(&[("openai:item_id", "msg_2")]) }),
                AssistantPart::Reasoning(ReasoningPart {
                    text: Some(s("why")),
                    metadata: meta(&[("openai:item_id", "rs_1"), ("openai:encrypted_content", "enc")]),
                }),
                AssistantPart::ToolCall(ToolCallPart {
                    id: s("call_1"),
                    name: s("read"),
                    arguments: s("{}"),
                    metadata: meta(&[("openai:item_id", "fc_1")]),
                    display: None,
                }),
                AssistantPart::ToolCall(ToolCallPart {
                    id: s("call_2"),
                    name: s("bash"),
                    arguments: s("{}"),
                    metadata: vec![],
                    display: None,
                }),
                AssistantPart::Text(TextPart { text: s("c"), metadata: vec![] }),
            ]),
            Message::Tool(vec![
                ToolResultPart { tool_call_id: s("call_1"), content: s("x") },
                ToolResultPart { tool_call_id: s("call_2"), content: s("y") },
            ]),
            Message::System(vec![s("line 1"), s("line 2")]),
        ],
        tools: vec![ToolDefinition { name: s("read"), description: s("Read a file"), parameters: s("{}") }],
        tool_choice: ToolChoice::Tool(s("read")),
        max_tokens: Some(100),
        metadata: vec![],
    };
    req.reasoning_effort(ReasoningEffort::High);
    req.reasoning_effort(ReasoningEffort::Low);
    let r = to_openai_request("gpt-5", &req, &config(Some(false), true));
    assert_eq!(r.model, "gpt-5");
    assert!(r.stream);
    assert_eq!(r.store, Some(false));
    assert_eq!(r.response_includes, vec![s("reasoning.encrypted_content")]);
    assert_eq!(r.instructions.as_deref(), Some("line 1\nline 2"));
    assert_eq!(r.max_output_tokens, Some(100));
    let items: Vec<String> = r.input.iter().map(describe).collect();
    assert_eq!(
        items,
        vec![
            s("msg(None,user,in:hi|img:http://img)"),
            s("msg(Some(\"msg_1\"),assistant,out:a|out:b)"),
            s("reasoning(rs_1,why,Some(\"enc\"))"),
            s("call(fc_1,call_1,read,{})"),
            s("call(call_2,call_2,bash,{})"),
            s("msg(None,assistant,out:c)"),
            s("output(call_1,x)"),
            s("output(call_2,y)"),
        ]
    );
    assert_eq!(r.tools.len(), 1);
    assert!(!r.tools[0].strict);
    assert_eq!(r.tool_choice, Some(WireToolChoice::Function(s("read"))));
    let reasoning = r.reasoning.unwrap();
    assert_eq!((reasoning.effort.as_deref(), reasoning.summary.as_deref()), (Some("low"), None));
    assert_eq!(req.metadata, meta(&[("reasoning_effort", "low")]));
    let _ = Role::User;
}

#[test]
fn request_options_without_reasoning() {
    let mut req = GenerateRequest {
        messages: vec![],
        tools: vec![],
        tool_choice: ToolChoice::Auto,
        max_tokens: None,
        metadata: vec![],
    };
    let r = to_openai_request("m", &req, &config(None, false));
    assert!(r.input.is_empty());
    assert!(r.instructions.is_none() && r.reasoning.is_none() && r.tool_choice.is_none());
    assert!(r.response_includes.is_empty());
    req.tool_choice = ToolChoice::Disabled;
    assert_eq!(to_openai_request("m", &req, &config(None, false)).tool_choice, Some(WireToolChoice::NoTool));
    req.tool_choice = ToolChoice::Required;
    req.reasoning_summary(ReasoningSummary::Detailed);
    let r = to_openai_request("m", &req, &config(None, false));
    assert_eq!(r.tool_choice, Some(WireToolChoice::Required));
    let c = r.reasoning.unwrap();
    assert_eq!((c.effort, c.summary.as_deref()), (None, Some("detailed")));
}
