# preview_cache

The preview and thumbnail caches of a Telegram file browser, verified with Verus.

* `src/` is the library. Its commands are sequences of steps: each step asks for one outside
  operation, and what the operation gave back leads to the next step. The contracts say which
  step follows which, and the laws say what a whole command answers, which files pruning
  removes, and that entries of different messages are never mixed up.
* `app/` performs the steps: it talks to Telegram, to the file system and to the application
  around it.
* `tests/` runs the library on concrete values.

Three calls are trusted rather than proved: the encoder of the `base64` crate, and
`Path::extension` and `str::to_lowercase` of the standard library. Their wrappers say what is
believed of them.
