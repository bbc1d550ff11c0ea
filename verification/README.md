# ikigai_llm

LLM inference as resources, verified with Verus.

One front grammar, `urn:llm:ask`, over pluggable backends that are addressable
themselves, `urn:llm:<provider>:ask`. Around them stand `urn:llm:config`,
`urn:llm:models` and `urn:llm:select`, and for every provider `:model`,
`:installed` and `:up`.

The library (`src/`) decides and never sends. Whatever takes a conversation with
a server is a machine: it hands out the next request, is handed what came back,
and ends in an answer. `app/` binds the machines to an ikigai kernel and an HTTP
transport, and reads the configuration file.

| module | what it holds |
| --- | --- |
| `config` | providers, their capability profiles, the registry; declared values win over discovered ones |
| `annotate` | facts from an annotation graph, which override, and report every override |
| `needs` | the `needs=` grammar |
| `select` | who meets the requirements, and the policy: cheapest, then smallest context, then registry order |
| `models` | listings, sizes, what a model can do |
| `listing` | the conversation that lists what a provider can serve |
| `discover` | the model a server serves, and the registry with its gaps filled |
| `backend` | the conversation behind `urn:llm:<provider>:ask` |
| `routing` | `urn:llm:ask` and `urn:llm:select` |
| `inventory` | `urn:llm:config` and `urn:llm:models` |
| `turtle` | the trait graph and its form in Turtle |
| `live` | `:model`, `:installed` and `:up` |
| `space`, `describe` | where the resources are bound, and what they say of themselves |
| `net`, `json`, `text`, `answer`, `error` | what the others stand on |

For each conversation there are three statements: a first step and a next step,
which the code meets exactly; a run, which carries the steps through with any
server; and an outcome in one piece, which every run is proved to come to.

What is believed and not proved are the contracts of the calls into `serde_json`
(JSON values, parsing and writing), `url`, `ikigai_core` (IRIs and capabilities)
and `ikigai_http` (which hosts a capability allows), and of one function of the
standard library, `String::from_utf8_lossy`. Each stands beside a comment that
says what is claimed.
