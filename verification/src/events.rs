//! Labels of the work assistant's tool steps.
use vstd::prelude::*;
use crate::text::str_eq;
use crate::tools::MemorySearchItem;

verus! {

/// A progress event of the work assistant, pushed to the front end while it answers.
#[derive(Debug)]
pub enum StreamEvent {
    /// A tool step starts (sent before each tool call runs).
    StepStart { tool: String, label: String },
    /// A tool step finished, with the records it newly cited.
    StepResult { tool: String, hits: usize, references: Vec<MemorySearchItem> },
    /// A piece of the model's text as it streams.
    Token(String),
    /// The end: the full answer, all cited records, and the tools used.
    Done { answer: String, references: Vec<MemorySearchItem>, tool_labels: Vec<String> },
    /// The end, with an error.
    Error(String),
}

/// The event that announces a tool step: the tool and its default label.
pub fn step_start(tool: &str) -> (r: StreamEvent)
    ensures
        r matches StreamEvent::StepStart { tool: t, label: l } && t@ == tool@ && l@ == tool_label_spec(tool@),
{
    StreamEvent::StepStart { tool: tool.to_owned(), label: default_tool_label(tool).to_owned() }
}

/// The default (Chinese) label shown for a tool step.
pub open spec fn tool_label_spec(tool: Seq<char>) -> Seq<char> {
    if tool == "search_memory"@ {
        "记忆检索"@
    } else if tool == "analyze_intents"@ {
        "意图分析"@
    } else if tool == "aggregate_stats"@ {
        "统计聚合"@
    } else if tool == "category_search"@ {
        "分类检索"@
    } else if tool == "trend_comparison"@ {
        "趋势对比"@
    } else {
        "处理中"@
    }
}

/// Tool name to default label; unknown tools read "处理中".
pub fn default_tool_label(tool: &str) -> (r: &'static str)
    ensures
        r@ == tool_label_spec(tool@),
{
    if str_eq(tool, "search_memory") {
        "记忆检索"
    } else if str_eq(tool, "analyze_intents") {
        "意图分析"
    } else if str_eq(tool, "aggregate_stats") {
        "统计聚合"
    } else if str_eq(tool, "category_search") {
        "分类检索"
    } else if str_eq(tool, "trend_comparison") {
        "趋势对比"
    } else {
        "处理中"
    }
}

} // verus!
