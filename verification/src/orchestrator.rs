//! Query routing of the work assistant: which path answers a question, and the fixed
//! answers of the paths that need no model.
use vstd::prelude::*;
use crate::tools::MemorySearchItem;
use crate::executor::AgentResult;
use crate::text::{
    chars_of, contains, lower_case, str_contains, string_of, to_lower, trim, trim_chars, utf8_len,
    utf8_len_below,
};

verus! {

/// The path that answers a question.
#[derive(Debug, Clone, Copy, PartialEq, Eq, Structural)]
pub enum QueryPath {
    /// Direct answer (greeting / help).
    Direct,
    /// Rule-based statistics template.
    Fast,
    /// Agent loop with the model.
    Agent,
    /// Template answer without a model.
    Fallback,
}

/// A routing decision and its reason.
#[derive(Debug)]
pub struct RouteDecision {
    pub path: QueryPath,
    pub reason: String,
}

/// Words that mark a short greeting or a request for help.
pub open spec fn greeting_words() -> Seq<Seq<char>> {
    seq!["你好"@, "嗨"@, "hello"@, "hi"@, "你能做什么"@, "帮助"@, "help"@]
}

/// Words that mark a question outside work (weather, stocks, ...).
pub open spec fn non_work_words() -> Seq<Seq<char>> {
    seq!["天气"@, "股票"@, "新闻"@, "笑话"@, "写诗"@, "算命"@, "星座"@, "汇率"@, "翻译成"@]
}

/// Words that mark a work query (time words and work/statistics words).
pub open spec fn work_words() -> Seq<Seq<char>> {
    seq![
        "今天"@, "昨天"@, "前天"@, "本周"@, "这周"@, "上周"@, "本月"@, "这个月"@, "上月"@,
        "上个月"@, "最近"@, "这几天"@, "近期"@, "做了什么"@, "主要做了"@, "忙什么"@, "忙啥"@,
        "工作"@, "记录"@, "总结"@, "待办"@, "时长"@, "时间"@, "统计"@, "会话"@, "session"@,
        "效率"@, "占比"@, "比例"@, "分类"@, "应用"@, "进度"@, "进展"@, "回顾"@, "复盘"@,
        "整理"@,
    ]
}

fn greeting_list() -> (v: Vec<&'static str>)
    ensures
        v@.map_values(|s: &'static str| s@) == greeting_words(),
{
    let v = vec!["你好", "嗨", "hello", "hi", "你能做什么", "帮助", "help"];
    assert(v@.map_values(|s: &'static str| s@) =~= greeting_words());
    v
}

fn non_work_list() -> (v: Vec<&'static str>)
    ensures
        v@.map_values(|s: &'static str| s@) == non_work_words(),
{
    let v = vec!["天气", "股票", "新闻", "笑话", "写诗", "算命", "星座", "汇率", "翻译成"];
    assert(v@.map_values(|s: &'static str| s@) =~= non_work_words());
    v
}

fn work_list() -> (v: Vec<&'static str>)
    ensures
        v@.map_values(|s: &'static str| s@) == work_words(),
{
    let v = vec![
        "今天", "昨天", "前天", "本周", "这周", "上周", "本月", "这个月", "上月", "上个月",
        "最近", "这几天", "近期", "做了什么", "主要做了", "忙什么", "忙啥", "工作", "记录",
        "总结", "待办", "时长", "时间", "统计", "会话", "session", "效率", "占比", "比例",
        "分类", "应用", "进度", "进展", "回顾", "复盘", "整理",
    ];
    assert(v@.map_values(|s: &'static str| s@) =~= work_words());
    v
}

/// `q` contains one of `words`.
pub open spec fn contains_any(q: Seq<char>, words: Seq<Seq<char>>) -> bool {
    exists|i: int| 0 <= i < words.len() && contains(q, #[trigger] words[i])
}

/// Whether `q` contains one of `words`.
fn contains_any_exec(q: &str, words: &Vec<&'static str>) -> (r: bool)
    ensures
        r == contains_any(q@, words@.map_values(|s: &'static str| s@)),
{
    let ghost ws = words@.map_values(|s: &'static str| s@);
    let mut i: usize = 0;
    while i < words.len()
        invariant
            i <= words.len(),
            ws == words@.map_values(|s: &'static str| s@),
            forall|j: int| 0 <= j < i ==> !contains(q@, #[trigger] ws[j]),
        decreases words.len() - i,
    {
        if str_contains(q, words[i]) {
            assert(contains(q@, ws[i as int]));
            return true;
        }
        i = i + 1;
    }
    false
}

/// The text the router looks at: the question trimmed and lowercased.
pub open spec fn routing_text(question: Seq<char>) -> Seq<char> {
    lower_case(trim(question))
}

/// The path `route_query` chooses.
pub open spec fn route_path(question: Seq<char>, has_model: bool) -> QueryPath {
    let q = routing_text(question);
    if contains_any(q, greeting_words()) && utf8_len(q) < 20 {
        QueryPath::Direct
    } else if has_model {
        QueryPath::Agent
    } else if contains_any(q, non_work_words()) {
        QueryPath::Fallback
    } else if contains_any(q, work_words()) {
        QueryPath::Fast
    } else {
        QueryPath::Fallback
    }
}

/// The reason `route_query` gives.
pub open spec fn route_reason(question: Seq<char>, has_model: bool) -> Seq<char> {
    let q = routing_text(question);
    if contains_any(q, greeting_words()) && utf8_len(q) < 20 {
        "简短问候/求助"@
    } else if has_model {
        "交给模型判断意图"@
    } else if contains_any(q, non_work_words()) {
        "无模型且明显非工作领域，模板兜底"@
    } else if contains_any(q, work_words()) {
        "无模型，工作查询走统计模板"@
    } else {
        "无模型，模板兜底"@
    }
}

/// Routes a question: a short greeting or help request is answered directly; with a
/// model everything else goes to the agent; without a model, clear non-work questions get
/// the template answer, work queries the statistics template, and the rest the template.
/// Matching is on the trimmed, lowercased question; "short" is under 20 bytes of UTF-8.
pub fn route_query(question: &str, has_model: bool) -> (r: RouteDecision)
    ensures
        r.path == route_path(question@, has_model),
        r.reason@ == route_reason(question@, has_model),
{
    let cv = chars_of(question);
    let trimmed = trim_chars(cv.as_slice());
    let trimmed_str = string_of(trimmed.as_slice());
    let q = to_lower(trimmed_str.as_str());
    let qs = q.as_str();
    let greetings = greeting_list();
    let qv = chars_of(qs);
    if contains_any_exec(qs, &greetings) && utf8_len_below(qv.as_slice(), 20) {
        return RouteDecision { path: QueryPath::Direct, reason: "简短问候/求助".to_owned() };
    }
    if has_model {
        return RouteDecision { path: QueryPath::Agent, reason: "交给模型判断意图".to_owned() };
    }
    let non_work = non_work_list();
    if contains_any_exec(qs, &non_work) {
        return RouteDecision {
            path: QueryPath::Fallback,
            reason: "无模型且明显非工作领域，模板兜底".to_owned(),
        };
    }
    let work = work_list();
    if contains_any_exec(qs, &work) {
        return RouteDecision {
            path: QueryPath::Fast,
            reason: "无模型，工作查询走统计模板".to_owned(),
        };
    }
    RouteDecision { path: QueryPath::Fallback, reason: "无模型，模板兜底".to_owned() }
}


/// The question holds a CJK unified ideograph (U+4E00 to U+9FFF).
pub open spec fn has_cjk(question: Seq<char>) -> bool {
    exists|i: int| 0 <= i < question.len() && '\u{4e00}' <= #[trigger] question[i] && question[i] <= '\u{9fff}'
}

/// Whether answers should be in Chinese: the question holds a CJK ideograph.
pub fn prefers_chinese_answer(question: &str) -> (r: bool)
    ensures
        r == has_cjk(question@),
{
    let cv = chars_of(question);
    let mut i: usize = 0;
    while i < cv.len()
        invariant
            i <= cv.len(),
            cv@ == question@,
            forall|j: int| 0 <= j < i ==> !('\u{4e00}' <= #[trigger] cv@[j] && cv@[j] <= '\u{9fff}'),
        decreases cv.len() - i,
    {
        let c = cv[i];
        if '\u{4e00}' <= c && c <= '\u{9fff}' {
            return true;
        }
        i = i + 1;
    }
    false
}

/// What `direct_answer` gives: a greeting, the help text, or an invitation to ask, in
/// Chinese when the question holds a CJK ideograph and in English otherwise.
pub open spec fn direct_answer_spec(question: Seq<char>) -> Seq<char> {
    let q = lower_case(question);
    let zh = has_cjk(question);
    if contains(q, "你好"@) || contains(q, "hi"@) || contains(q, "hello"@) {
        if zh {
            "你好！我是你的工作助手，可以帮你分析工作时间、查看记录、对比效率等。请问你想了解什么？"@
        } else {
            "Hello! I'm your work assistant — I can help you analyze work time, review records, compare efficiency, and more. What would you like to know?"@
        }
    } else if contains(q, "你能做什么"@) || contains(q, "帮助"@) || contains(q, "help"@) {
        if zh {
            "我可以帮你：\n1. 查看某天/某周的工作记录\n2. 分析时间分布（编码/会议/文档占比）\n3. 对比不同时间段的效率变化\n4. 搜索特定的工作内容\n请告诉我你想了解什么？"@
        } else {
            "I can help you:\n1. Review work records for a day/week\n2. Analyze time distribution (coding/meetings/docs)\n3. Compare efficiency across periods\n4. Search for specific work items\nWhat would you like to know?"@
        }
    } else if zh {
        "请告诉我你想了解的工作信息。"@
    } else {
        "Tell me what work info you'd like to know."@
    }
}

/// The direct answer to a greeting or a request for help.
pub fn direct_answer(question: &str) -> (r: String)
    ensures
        r@ == direct_answer_spec(question@),
{
    let lowered = to_lower(question);
    let q = lowered.as_str();
    let is_chinese = prefers_chinese_answer(question);
    if str_contains(q, "你好") || str_contains(q, "hi") || str_contains(q, "hello") {
        return if is_chinese {
            "你好！我是你的工作助手，可以帮你分析工作时间、查看记录、对比效率等。请问你想了解什么？".to_owned()
        } else {
            "Hello! I'm your work assistant — I can help you analyze work time, review records, compare efficiency, and more. What would you like to know?".to_owned()
        };
    }
    if str_contains(q, "你能做什么") || str_contains(q, "帮助") || str_contains(q, "help") {
        return if is_chinese {
            "我可以帮你：\n1. 查看某天/某周的工作记录\n2. 分析时间分布（编码/会议/文档占比）\n3. 对比不同时间段的效率变化\n4. 搜索特定的工作内容\n请告诉我你想了解什么？".to_owned()
        } else {
            "I can help you:\n1. Review work records for a day/week\n2. Analyze time distribution (coding/meetings/docs)\n3. Compare efficiency across periods\n4. Search for specific work items\nWhat would you like to know?".to_owned()
        };
    }
    if is_chinese {
        "请告诉我你想了解的工作信息。".to_owned()
    } else {
        "Tell me what work info you'd like to know.".to_owned()
    }
}

/// What `fallback_answer` gives: the no-model hint, in the question's language.
pub open spec fn fallback_answer_spec(question: Seq<char>) -> Seq<char> {
    if has_cjk(question) {
        "我目前无法使用 AI 模型进行分析，但你可以尝试：\n- 询问具体某天的工作记录\n- 使用时间关键词（今天、昨天、本周等）\n- 配置 AI 模型后可以获得更智能的分析"@
    } else {
        "I can't use an AI model for analysis right now, but you can try:\n- Asking for work records from a specific day\n- Using time keywords such as today, yesterday, or this week\n- Configuring an AI model for smarter analysis"@
    }
}

/// The template answer when no model is available.
pub fn fallback_answer(question: &str) -> (r: String)
    ensures
        r@ == fallback_answer_spec(question@),
{
    if prefers_chinese_answer(question) {
        "我目前无法使用 AI 模型进行分析，但你可以尝试：\n- 询问具体某天的工作记录\n- 使用时间关键词（今天、昨天、本周等）\n- 配置 AI 模型后可以获得更智能的分析".to_owned()
    } else {
        "I can't use an AI model for analysis right now, but you can try:\n- Asking for work records from a specific day\n- Using time keywords such as today, yesterday, or this week\n- Configuring an AI model for smarter analysis".to_owned()
    }
}

/// A model configuration can be used: neither its endpoint nor its model name is blank.
pub fn model_is_configured(endpoint: &str, model: &str) -> (r: bool)
    ensures
        r == (trim(endpoint@).len() > 0 && trim(model@).len() > 0),
{
    let e = chars_of(endpoint);
    let m = chars_of(model);
    trim_chars(e.as_slice()).len() > 0 && trim_chars(m.as_slice()).len() > 0
}

/// The tool label a path without the agent reports: `direct`, `rule-based` or `fallback`.
pub open spec fn path_label_spec(path: QueryPath) -> Seq<char> {
    match path {
        QueryPath::Direct => "direct"@,
        QueryPath::Fast => "rule-based"@,
        QueryPath::Agent => "降级查询"@,
        QueryPath::Fallback => "fallback"@,
    }
}

/// The tool label reported with an answer that did not come from the agent; on the agent
/// path this is the label of the statistics answer used when the agent fails.
pub fn path_tool_label(path: QueryPath) -> (r: &'static str)
    ensures
        r@ == path_label_spec(path),
{
    match path {
        QueryPath::Direct => "direct",
        QueryPath::Fast => "rule-based",
        QueryPath::Agent => "降级查询",
        QueryPath::Fallback => "fallback",
    }
}

/// The work assistant's orchestrator: routes a question to one of the answer paths.
pub struct Orchestrator;

/// What the orchestrator answers with.
#[derive(Debug)]
pub struct OrchestratorResult {
    pub answer: String,
    /// Whether a model wrote the answer.
    pub used_ai: bool,
    pub tool_labels: Vec<String>,
    pub references: Vec<MemorySearchItem>,
}

/// The orchestrator's result on a path: with the agent's tool labels and cited records when
/// the agent answered (a model wrote it), else with the path's label and no records.
pub fn orchestrator_result(
    path: QueryPath,
    answer: String,
    agent: Option<(Vec<String>, Vec<MemorySearchItem>)>,
) -> (r: OrchestratorResult)
    ensures
        r.answer@ == answer@,
        r.used_ai == agent is Some,
        agent is None ==> (r.tool_labels@.len() == 1 && r.tool_labels@[0]@ == path_label_spec(path)
            && r.references@.len() == 0),
        agent matches Some(x) ==> (r.tool_labels@ == x.0@ && r.references@ == x.1@),
{
    match agent {
        Some((tool_labels, references)) => OrchestratorResult { answer, used_ai: true, tool_labels, references },
        None => {
            let mut tool_labels: Vec<String> = Vec::new();
            tool_labels.push(path_tool_label(path).to_owned());
            OrchestratorResult { answer, used_ai: false, tool_labels, references: Vec::new() }
        },
    }
}

/// What the orchestrator has learnt when it decides its next step.
#[derive(Debug)]
pub enum HandleEvent {
    /// A question has arrived.
    Start,
    /// The agent loop answered.
    AgentAnswered(AgentResult),
    /// The agent loop failed.
    AgentFailed,
    /// The rule-based statistics answer is ready.
    FastAnswered(String),
}

/// What the orchestrator does next.
#[derive(Debug)]
pub enum HandleAction {
    /// Answer with this result and stop.
    Reply(OrchestratorResult),
    /// Run the agent loop on the question.
    RunAgent,
    /// Compute the rule-based statistics answer for the question.
    RunFastAnswer,
}

/// A result written without the agent: the answer, no model, the path's label alone and no
/// cited record.
pub open spec fn plain_result(r: OrchestratorResult, answer: Seq<char>, path: QueryPath) -> bool {
    &&& r.answer@ == answer
    &&& !r.used_ai
    &&& r.tool_labels@.len() == 1
    &&& r.tool_labels@[0]@ == path_label_spec(path)
    &&& r.references@.len() == 0
}

/// One decision of the orchestrator on a question, by the path the router picks: a greeting
/// or help request is answered directly and a question without a model by the fallback
/// text; a statistics question asks for the rule-based answer; any other question runs the
/// agent, whose answer is used with its tools and cited records, and when the agent fails
/// the rule-based answer is used instead, labelled as a degraded query. Only an answer of
/// the agent counts as written by a model.
pub fn handle_step(question: &str, has_model: bool, event: HandleEvent) -> (r: HandleAction)
    ensures
        event is Start && route_path(question@, has_model) == QueryPath::Direct ==> (r matches HandleAction::Reply(res)
            && plain_result(res, direct_answer_spec(question@), QueryPath::Direct)),
        event is Start && route_path(question@, has_model) == QueryPath::Fallback ==> (r matches HandleAction::Reply(
            res,
        ) && plain_result(res, fallback_answer_spec(question@), QueryPath::Fallback)),
        event is Start && route_path(question@, has_model) == QueryPath::Fast ==> r is RunFastAnswer,
        event is Start && route_path(question@, has_model) == QueryPath::Agent ==> r is RunAgent,
        event matches HandleEvent::AgentAnswered(a) ==> (r matches HandleAction::Reply(res) && res.used_ai
            && res.answer@ == a.answer@ && res.tool_labels@ == a.tool_labels@ && res.references@
            == a.references@),
        event is AgentFailed ==> r is RunFastAnswer,
        event matches HandleEvent::FastAnswered(ans) ==> (r matches HandleAction::Reply(res) && plain_result(
            res,
            ans@,
            route_path(question@, has_model),
        )),
        r matches HandleAction::Reply(res) ==> (res.used_ai <==> event is AgentAnswered),
{
    let path = route_query(question, has_model).path;
    match event {
        HandleEvent::Start => match path {
            QueryPath::Direct => HandleAction::Reply(orchestrator_result(path, direct_answer(question), None)),
            QueryPath::Fallback => HandleAction::Reply(orchestrator_result(path, fallback_answer(question), None)),
            QueryPath::Fast => HandleAction::RunFastAnswer,
            QueryPath::Agent => HandleAction::RunAgent,
        },
        HandleEvent::AgentAnswered(a) => HandleAction::Reply(
            orchestrator_result(QueryPath::Agent, a.answer, Some((a.tool_labels, a.references))),
        ),
        HandleEvent::AgentFailed => HandleAction::RunFastAnswer,
        HandleEvent::FastAnswered(answer) => HandleAction::Reply(orchestrator_result(path, answer, None)),
    }
}

/// The error when the agent path is taken without a model configuration.
pub fn agent_needs_model_error() -> (r: String)
    ensures
        r@ == "Agent 路径需要模型配置"@,
{
    "Agent 路径需要模型配置".to_owned()
}


/// With a model configured, every question is answered by the agent, except a short
/// greeting or help request, which is answered directly either way.
pub proof fn lemma_route_with_model(question: Seq<char>)
    ensures
        route_path(question, true) == QueryPath::Direct || route_path(question, true)
            == QueryPath::Agent,
        (route_path(question, true) == QueryPath::Direct) == (route_path(question, false)
            == QueryPath::Direct),
{
}

/// A question is answered directly exactly when its trimmed, lowercased text holds a
/// greeting or help word and is shorter than 20 bytes of UTF-8, with or without a model; a
/// longer question that starts with a greeting (six CJK characters already take 18 bytes)
/// goes to the agent or the statistics paths.
pub proof fn lemma_direct_route_is_a_short_greeting(question: Seq<char>, has_model: bool)
    ensures
        route_path(question, has_model) == QueryPath::Direct <==> (contains_any(
            routing_text(question),
            greeting_words(),
        ) && utf8_len(routing_text(question)) < 20),
        route_path(question, has_model) == QueryPath::Direct ==> routing_text(question).len() < 20,
{
    crate::text::lemma_utf8_len_counts_bytes(routing_text(question));
}

/// Without a model, a question that names a clearly non-work topic never gets the
/// statistics template, and no question goes to the agent.
pub proof fn lemma_route_without_model(question: Seq<char>)
    ensures
        route_path(question, false) != QueryPath::Agent,
        contains_any(routing_text(question), non_work_words()) ==> route_path(question, false)
            != QueryPath::Fast,
{
}

} // verus!
