# jvm_common

Verified building blocks of a Java Virtual Machine, written in Verus:

- `grammar` — field descriptors and type signatures as a grammar over characters, with its laws
  (a read type ignores what follows it; descriptors read back as the types they write).
- `jtype`, `descriptor`, `signature` — the types, method descriptors and generic signatures, and
  their parsers, each proved to follow the grammar; `text` — their form in Java source.
- `instruction` — decoding of bytecode; `utils::cursor` — reading numbers from bytes;
  `access` — access flags; `utils::indent_write` — indentation of printed text.

`app/` holds what Verus does not check: logging set-up, a writer over `std::fmt::Write`,
floating-point numbers, and the printing macros.
