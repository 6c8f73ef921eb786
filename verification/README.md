# Desk

The logic of a web front end that renders what a kernel holds, written in Verus.
The Desk shows and writes nothing but what goes through the kernel's doors under
the acting user's session; every decision that it takes on the way is a function
of plain values with a contract, proved here.

- `src/` is the library. `admission` bounds the requests in flight, `kernel` and
  `refusal` turn a kernel's answers into the Desk's, `money` subtracts and pads
  decimal text, `brand` and `brand_laws` are about what a page wears, `css` reads
  the text of a stylesheet (the stylesheet itself is not part of this project),
  `workspace` about the links that it offers, `realtime` about the stream that it
  listens to, `flash` about the message that it carries over, `tenant` about the
  host name that it came under, `calendar` about the day. `text`, `decimal` and
  `json` are what these are made of.
- `tests/` runs the library.
- `app/` is the server: the sockets, cookies, files and environment of every
  request, with the library between them. It reads the stylesheet's two files,
  `frust-ui/design.css` and `frust_ui.css`, from where it is started.

What is trusted is `serde_json`'s value type, `tokio`'s semaphore, three functions
of the standard library (`String::push`, `String::from_utf8_lossy`,
`SystemTime::elapsed`) and Verus itself. Each trusted item says in its comment
what is believed of it.
