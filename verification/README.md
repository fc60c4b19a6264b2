# PlaneAI GitHub plugin

A local PlaneAI plugin for GitHub pull requests and their checks. It uses `git` and the
authenticated `gh` CLI, and speaks newline-delimited JSON-RPC on stdin and stdout: one frame, one
line. It never stores GitHub credentials: a remote is recorded without the password that its URL
may hold, and one that starts with `http://` or `https://` without the user as well, since a token
can stand there.

`src/` is the verified library: everything that the plugin decides, with contracts that Verus
proves. `app/` is the program around it, which reads and writes frames, runs programs, and tells
the time.

A request never does anything itself. It asks for one action at a time, and goes on from the
record of the replies: `dispatch::advance` maps the method, the parameters and that record to the
next action or to the answer. So what a request does is a function, and the laws about it are
proved about that function:

* `replay`: a request can be run again from its start at any time, asks for nothing but the listed
  commands and host calls, and never goes astray while each reply answers the action that was
  asked for. It ends where it learns that it was cancelled, with three exceptions:
  `github.defaults` and `github.link` go on without the output of one `git` command, and
  `github.reconcile`, once it is written down as running, first writes down that it failed.
* `laws`: a pull request is recorded for a session only once `gh` has succeeded, without
  credentials, and an answer is given only once the host has confirmed the record. What a request
  writes leaves the durable state usable.
* `ledger_laws`: a reconciliation is written down as running before it turns to sessions, and as
  idle or failed when it ends.
* `state_laws`: a patch leaves the durable state usable; attempts are fenced. Two things are left
  out. `github.create` records whatever `gh` printed as the URL, and a blank one spoils the mapping.
  And an error of which only white space is kept spoils the ledger; no command gives one.

What is taken on trust is `serde_json` (`codec`, `json`), `String::from_utf8_lossy` (`command`) and
`String::push` (`text`).
