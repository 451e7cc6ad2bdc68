# agent_core

The rules of an editor's agent services, written and proved in Verus: a browser under the
agent's control and the capture of its traffic, the threads of conversations and how copies
of one are merged, the workspaces that threads belong to, and the memory that the agent
writes.

* `src/` is the library. Every function states what it returns or changes; `src/lib.rs`
  says which module holds what. Functions that begin with `law_` relate several of the
  others. Calls into other crates stand behind small functions marked
  `#[verifier::external_body]`, each with a comment that says what is taken on trust.
* `app/` is ordinary Rust around it: files, sockets, databases, and the serialised forms.
* `tests/` run the library with the real crates.
