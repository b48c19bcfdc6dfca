# ag_unlocker

A DNS relay that keeps Antigravity answering, and the window that says whether it
does. What the two decide is in `src/`, written in Verus and proved against its
contracts; what they read, send and draw is in `app/`.

- `status`, `window`, `controls`: the verdict at the top of the window, the facts
  it is made of, and what the switches, lists and dialogs do.
- `gate_host`, `dns_client`: the questions the relay answers itself, and the wire
  format it does so in.
- `warm_pass`, `warm`, `interface`, `network`: the warm loop task by task, its
  clocks, and which link and network the relay is on.
- `client_log`: what is done about the refusals and answers in the client's logs.
- `relay_log`, `startup`, `version`, `paths`: what is written down, and where.
- `text`, `time`: the text and time the rest is stated over.

The few functions of the standard library that are taken on trust are declared at
the top of `src/text.rs`.
