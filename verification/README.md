# llm_call

A tool by which one language model calls another in the middle of a conversation.
The other model is named by an alias that the configuration declares; where the call
goes is decided by that declaration alone.

The library under `src/` is verified with Verus:

- `llm_call`: the tool. A call is accepted, begun and finished; sessions have limits
  per alias, and conversations go on over several calls.
- `chat`: the input of the tool, the request body, the response, and the result.
- `conversation`, `config`, `tool`, `schema`: threads of messages, declared aliases,
  errors, and the JSON schema of the input.
- `provider`: addresses and prices of the providers. Costs are counted in
  hundred-millionths of a US dollar.
- `llm_call_costs`: the costs of each alias since they were last drained.
- `watcher`: when a change in the skills directory calls for a reload.
- `json`, `headers`: JSON values of `serde_json` and HTTP headers of `reqwest`.
- `text`, `string_map`: text functions, and a map that keeps its text keys in order.

What is taken on trust is marked where it stands, with a comment that says what is
claimed of which outside function: JSON values in `json`, headers in `headers`, the
text of an HTTP status in `chat`, random IDs in `llm_call`, and one function of the
standard library each in `text` and `watcher`.

`app/` holds what talks to the outside: HTTP, the environment, shared state between
threads, floating point numbers, and the file watcher.
