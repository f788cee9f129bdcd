# asi

The decision logic of a multi-agent coding assistant, verified with Verus.

`src/` is the verified library. Each module states what its functions do in
`requires` / `ensures` contracts over mathematical models (`Seq`, `Map`,
`int`), and the laws that relate several functions stand as public proof
functions.

| Module | What it holds |
|--------|---------------|
| `planner` | goal decomposition into a dependency chain of sub-tasks, readiness, progress |
| `coordinator` | the plan run as a state machine fed by the agents' events |
| `agent` | tool-call results and truncation, the tool loop's turn decisions, chain-of-thought prompts and answers, reflection parsing |
| `deep_agent` | the Plan → Execute → Reflect → Revise cycle as a state machine |
| `memory` | bounded memory with eviction, tokenization, Jaccard similarity and ranked recall |
| `chat` | chat messages and their parts, the server-sent-event reader that fills them |
| `stream` | framing of agent events as server-sent events |
| `provider` | provider errors, the fallback decision, the model registry, provider configuration |
| `auth` | token extraction, JWT header checks, key lookup, RS256 signature and claims checks through jsonwebtoken, the user the claims name, the development bypass, the middleware verdict |
| `automation`, `self_heal`, `recovery`, `watchdog`, `backup`, `token` | configuration, fault escalation, recovery steps, hang detection, backup retention, token accounting |
| `compliance`, `analytics`, `cortex`, `business`, `cli` | controls and audits, usage totals, health scoring and decisions, tiers, the toolbox commands |
| `text`, `json`, `types` | text utilities with specifications, a plain JSON model, chat types |

`tests/` exercises the library on concrete values. `app/` is the unverified
runtime around it: HTTP providers, the async drivers of the state machines,
the Axum middleware and SSE response, the automation threads, the
floating-point analytics and cortex scoring, and the command-line toolbox.
