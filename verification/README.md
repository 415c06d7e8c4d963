# work_review

The verified core of a work-time assistant and reporting tool.

- `src/` is the library, verified with Verus: report blocks and their rendering, query
  routing, the agent loop's decisions, the tool registry and tool arguments, duration
  totals and orderings, the texts the tools answer with, the provider-neutral chat model
  and each provider's request and reply format, the Feishu webhook's decisions, and the
  desktop pet's follow-ups. JSON values are modelled by `json::Json` and its view.
- `app/` is the host around it: HTTP calls to the model providers and Feishu, the agent
  loop's outside work, file and process work, and serializable copies of the library's
  types.
- `tests/` exercise the library on concrete values.
