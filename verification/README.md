# vortex

Kernels of a columnar array library, written in Verus. Each function states what it computes over
the rows of an array, and the statement is proved.

- `src/array`: arrays, their parts, and the view that a child has of its parent.
- `src/arrays`: the encodings and their kernels; `filter` holds the gather of filtered rows by rank.
- `src/optimizer`: the rules that rewrite an array, the plugins of a session, and the laws on both.
- `src/encodings/fsst_array`: compression of strings with the `fsst` crate.
- `src/io`: the decisions of a reader of object stores.
- `app`: the asynchronous reader and the calls into native kernels, which run what the library
  decides.

A doc comment that begins with `Trusted:` names a call into another crate or the standard library
and says what is taken of it without proof.
