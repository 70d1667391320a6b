# rs-mailserver

A mail server that receives mails over SMTP, and a client that sends one. The library holds the
rules of both ends of a conversation, written in Verus and proved; the sockets, the channel and the
timers are the program's.

- `src/protocol.rs`, `src/email.rs`, `src/address.rs`, `src/text.rs`, `src/verb.rs`: the words of
  the protocol and how they are read.
- `src/reading.rs`: how bytes are gathered from a socket.
- `src/session.rs`: one conversation, step by step; `src/rules.rs`: what each step has to do.
- `src/sender.rs`: the client's end.
- `src/server.rs`, `src/cli.rs`: taking in clients, passing mails on, the command line.
- `src/laws.rs`, `src/delivery.rs`: what holds of whole conversations, up to the fact that a mail
  that is sent arrives as it was sent.
- `app/`: the program, on tokio.

What is believed without proof: what `email_address` accepts as an address and how it displays one,
what `std::str::from_utf8` accepts and gives, and which characters `char::is_whitespace` names.
