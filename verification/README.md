# cordial_shell

The rules of the Cordial launcher, proved with Verus: which build is run, which
profile an instance may hold, where a session is kept, what a browser's launch
link is allowed to ask for, what the updater says, and what a web view may open.

* `src/` decides. Every function states what it returns for every input, and
  the functions named `law_*` state what holds across them. Nothing in it
  touches the disk, the network or the screen: where work is done in several
  steps, a function says which step comes next.
* `app/` performs the steps: files, processes, the secret service, HTTP, GTK and
  WebKit.
* `tests/` runs the library on concrete values.

What is taken on trust is short, and each item says so where it stands:
`String::push`, the `Debug` form of a text and reading UTF-8 in `text.rs`,
percent decoding in `browser_account/ticket.rs`, and writing a JSON object in
`browser_account/transport.rs`.
