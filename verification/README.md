# sel

The logic of the SEL desktop shell, verified with Verus, and the GTK/actix program around it.

- `src/` — the verified library:
  - `armor`: reading the base64 payload out of a PEM text (`read_pubkey`), the `str::lines`
    model it rests on, and the proofs that a PEM block reads back as its payload;
  - `keys`: RSA key pair generation and PKCS#8 PEM encoding through the `rsa` crate;
  - `assets`: which embedded file a request path names and the HTTP answer for it
    (content type from `mime_guess`);
  - `window`: the web view's settings, the panel strut computation, the window size;
  - `messages`: the page bridge (script actions, scripts handed to the page, request
    answers, the server address);
  - `greeter`: the counting greeting service;
  - `text`: decimal notation.
- `tests/` — tests of the library on concrete values.
- `app/` — the program: GTK windows, the web view, the actix file server, file I/O.
