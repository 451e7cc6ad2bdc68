//! The rules of an editor's agent services, verified.
//!
//! * A browser under the agent's control: the DevTools connection (`cdp`), sessions and
//!   their targets (`browser`), the Chromium to launch (`chromium`), the capture of
//!   network traffic (`network`, `request_filter`, `har`), the conditions that traffic is
//!   put under (`control`), and the tools and the panel that use them (`browser_tool`,
//!   `network_tool`, `network_panel`).
//! * Threads: messages (`message`), what is stored of a thread (`threads`,
//!   `thread_blob`), the table of threads (`thread_table`, `thread_delete`,
//!   `thread_schema`), merging copies of one conversation (`thread_merge`,
//!   `thread_reconcile`), and carrying operations between instances (`thread_sync`).
//! * Workspaces: the managed ones (`workspace_manager`) and those that threads belong to
//!   (`thread_workspace`).
//! * Memory that the agent writes (`memory`, `memory_tool`), and embedding files into a
//!   program (`fs_embed`).
//!
//! Nothing here reads or sends anything: what comes from outside is handed in as plain
//! values, and what is to be done outside is handed back.

pub mod assoc;
pub mod browser;
pub mod browser_tool;
pub mod cdp;
pub mod chromium;
pub mod control;
pub mod digits;
pub mod driven_by;
pub mod fs_embed;
pub mod har;
pub mod ids;
pub mod json;
pub mod lists;
pub mod memory;
pub mod memory_tool;
pub mod message;
pub mod models;
pub mod network;
pub mod network_panel;
pub mod network_tool;
pub mod number;
pub mod order;
pub mod page_script;
pub mod request_filter;
pub mod text;
pub mod thread_blob;
pub mod thread_delete;
pub mod thread_merge;
pub mod thread_reconcile;
pub mod thread_schema;
pub mod thread_sync;
pub mod thread_table;
pub mod thread_workspace;
pub mod threads;
pub mod time;
pub mod tool_plan;
pub mod workspace_manager;
pub mod workspace_names;
