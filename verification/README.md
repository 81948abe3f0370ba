# secure_encryptor

Encrypts a file under a password and writes it as a self-extracting program: a copy of the
running program, a marker, and the encrypted payload as JSON. Started, such a program asks for
the password once, decrypts its payload and removes itself.

- `src/` is the library, verified with Verus. `container` is the layout of the output,
  `crypto` the encryption, `attempts` the log that locks a file after too many tries, `names`
  and `text` the file names and texts, `cleanup` the removal script; `startup`, `encrypt_flow`
  and `decrypt_flow` decide, step by step, what the program does. `primitives` holds the calls
  into other crates and states what the proofs take from them.
- `app/` is the program: terminal, files and JSON.
- `tests/` run the library on concrete values.
