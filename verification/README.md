# jdwp_mcp

A server that debugs Java programs over JDWP, the Java Debug Wire Protocol, for clients of the Model Context
Protocol. What it decides and computes is a verified library; what it reads and writes is a thin adapter
around it.

## Layout

`src/` is the library. Each file is one part of the server:

| File | What it holds |
| --- | --- |
| `lib.rs` | which answer an incoming line gets |
| `protocol.rs` | the messages, and the alerts that are pushed without being asked for |
| `tools.rs`, `tool_texts.rs`, `args.rs` | the tools that are listed, what they say of themselves, and their arguments |
| `session.rs` | what is kept of a session, and the sessions there are |
| `stop_point.rs` | the kinds of stop points and how their states read |
| `stop_point_set.rs`, `set_format.rs`, `set_laws.rs`, `outcome_laws.rs` | stop points written down, read back and reported on, and what holds of that |
| `class_format.rs`, `classfile.rs`, `class_build.rs`, `class_laws.rs` | the class-file format, its parser, a builder of files, and what holds of them |
| `generics_grammar.rs`, `generics_parse.rs`, `generics.rs` | generic signatures, rendered as Java source |
| `reads.rs`, `value_reads.rs` | reading a debuggee, and many values of it at once |
| `reply.rs`, `json.rs`, `jdwp.rs`, `time.rs`, `text.rs`, `text_map.rs`, `key_map.rs`, `uuid.rs` | what these are made of |

`app/` is the program: stdin and stdout, the clock, the environment, and the forms of the messages that
`serde` reads and writes. `tests/` holds the tests of the library.

## What is not proved

JSON text is read and written by `serde_json`, names in class files that are no UTF-8 are decoded by the
standard library, and alerts leave through a channel of `tokio`. What the library relies on of each is stated
where it is called.
