# zap

Zap generates the networking code of a Roblox game from a configuration
written in Luau: for each event, the Luau functions that write its values
into a buffer, send it, receive it and read the values back.

The configuration goes through three stages:

- **api** (`src/api.rs`): what the configuration script builds — tables of
  events, their options and the types of their values — and the checks made
  on what the script hands over.
- **hir** (`src/hir.rs`, `src/size.rs`): the same configuration with options
  resolved, types in a form easier to work with, events grouped by remote,
  and the sizes of values.
- **mir** (`src/mir*.rs`): instructions that map closely to Luau, with a
  registry that hands out local variables; `mir_serdes` writes and reads
  values, `mir_server` and `mir_client` produce the code of each side.
  `mir_serdes_pieces` describes the writing and reading code of `mir_serdes`
  as pieces and proves that what is written for a type is what is read back
  for it: the same accesses, widths and order, each moving the position.

`src/ir.rs`, `src/builder.rs`, `src/serdes.rs`, `src/types.rs`, `src/nums.rs`,
`src/range.rs`, `src/client.rs`, `src/server.rs` and `src/luau_api.rs` are the
first code generator, a simpler instruction set with its own buffer
conventions. `src/serdes_pieces.rs` describes its writing and reading code
as pieces (plain code, checks, buffer accesses, loops) and proves that the
levels of API checks differ only in the checks they keep, and that the code
that reads a value takes out of the buffer exactly what the code that writes
it puts in.

Numbers of the configuration are held exactly (`src/num.rs`) as the decimal
that the shortest round-trip formatting of an `f64` gives, so that bounds are
compared and printed as the `f64`s they stand for.

The functions of `src/` are verified with Verus: the generated text is
specified exactly, as are the messages of every refusal. Three small
functions are trusted rather than proved, each with a contract taken from the
documentation of the function it calls: appending a character to a `String`
(`text::push_char`), and making and printing a UUID with the `uuid` crate
(`shared::uuid_new_v4`, `shared::uuid_hyphenated`). `src/luau_codes.rs` holds
the status and type codes of the Luau C interface. `app/` runs the
configuration script in a Luau VM and prints the server code.
