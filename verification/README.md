# wikidesk

Wikidesk shares LLM wikis between agents. A server keeps the wikis, lets agents research questions
in them, and answers over HTTP and MCP; a command line client mirrors wikis into repositories.

`src/` is the library: everything that decides something. It is written in Verus, and every function
has a contract that is proved. `app/` is the program around it: processes, sockets, files and clocks.
`tests/` runs the library.

Paths are Unix paths: `/` alone separates components, and a path is absolute where it begins with it.
A backslash or a drive letter means nothing special in a path that a server sends. The program
therefore builds for Unix systems only, WSL2 among them.

| Module | What it holds |
| --- | --- |
| `names` | wiki names, their directories and URLs, the paths a mirror may have |
| `config` | the configuration of the server and what it accepts |
| `client` | which wikis a client mirrors, and the prompt that sets up a repository |
| `sync` | listing a wiki, comparing it with a mirror, bringing a mirror up to date |
| `rewrite`, `delivery` | wiki links in answers |
| `queue`, `wiki_instance` | research tasks |
| `surface`, `api`, `server` | what the HTTP and MCP interfaces answer |
| `runner`, `agent` | what agents are called with, and what becomes of their output |
| `research_task` | research in a repository, with Jujutsu or without |
| `remote_sync` | when a wiki is synchronised with its remote |
| `flow` | flows of steps whose outcome decides what comes next |
| `text`, `paths`, `duration`, `views` | the ground that the rest stands on |

## Flows

Research, publication and synchronisation alternate decisions with outside work: calls of `jj`, runs
of the agent, directories, locks. In the library such a flow is a function that reads the replies
received so far and gives the next action or the outcome; the program performs the action and calls
again. What a flow does is stated as a tree of actions and replies, `flow::Program`, and the laws
about flows are proved over that tree, for every reply that may come.

- `research_task::jj::safety`: which directories a flow touches, under which locks `main` moves, and
  that no lock and no workspace is left behind.
- `research_task::jj::publication`: an answer is given only once the published workspace is clean and
  stands on `main`; only then is `main` pushed.
- `research_task::jj::outcome`: whose answer it is, and what happens when publication fails.
- `sync::convergence`: a synchronised mirror is a copy of the wiki, and an update never leaves it.

## What is taken on trust

Functions marked `external_body` call the standard library or a crate, and their contracts are not
proved: digests (`sha2`), regular expressions (`regex`), ids (`uuid`), the user's directories
(`directories`), UTF-8, lower case and the `Debug` form of strings. The contract of `String::push` is
taken on trust too. Each says above it what it claims.
