# background_jobs

The verified core of a small job runner that queues mail and relays it over SMTP.

- `src/` is the library, checked by Verus: the work queue and the count of work taken
  in (`queue`, `app_state`), the SMTP authentication mechanisms and credentials with
  their wire encodings (`auth_mechanism`, `smtp_credential`), the session decisions of
  an SMTP client, such as which mechanisms an EHLO reply offers, what to send to log in
  and how to read the verdict (`smtp_server`), choosing a mechanism and building a
  credential from typed answers (`cli`), and the text handling they rest on (`text`).
- `app/` is the program around it: terminal prompts, the socket side of a session,
  STARTTLS through rustls, and thread pools.
- `tests/` runs the library on concrete inputs.
