# apcore-a2a

Exposes apcore modules as an A2A (agent to agent) agent, and calls remote agents.

`src/` is the library, verified with Verus. It holds the rules of the protocol:

- `types`, `wire`, `json`, `codec`, `text`: messages, tasks and events, their
  JSON, and the reading of it;
- `adapters`: what a module looks like as a skill, the Agent Card, message parts
  as module input and output, and what of an error a caller may read;
- `auth`: bearer tokens as identities, and which requests need one;
- `storage`: tasks and webhook configurations, each for its owner;
- `server`: what is answered to a request, which skills a caller is shown, and
  which events a stream carries;
- `client`: requests to a remote agent and the reading of its answers.

Functions state in their `ensures` what they return. Statements that span
functions are public proof functions beside them: that one owner never sees the
tasks of another, that a stream ends and nothing follows its end, that the public
card shows nothing which an access rule denies, that what was written reads back.

What an outside crate computes is named or described where the library calls it;
such functions carry `#[verifier::external_body]` and say in their comment what is
taken on trust.

`app/` is the program around the library: sockets, HTTP, the running of modules
under a time limit, and the command line. `tests/` runs the library with the real
crates.
