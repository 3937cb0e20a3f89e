# tachikoma_acl

Access control for a terminal multiplexer's web server and remote client, with
user tokens issued by a Tachikoma server. The library is written in Verus.

- `src/` holds every decision and data structure, each with a proved contract:
  the verification client and its cache (`client`, `cache`, `types`), the
  sessions opened with a user token and the rules that revoke them
  (`acl_session_store`, `acl_revalidator`), the login and the other handlers of
  the web server (`login`, `http_handlers`), and attaching to a remote session
  (`remote_attach`). `text` has the string operations they share. `foreign`
  declares the functions of other crates that the library calls; their contracts
  are taken on trust.
- `tests/` runs the library on concrete values.
- `app/` is the asynchronous and interactive side: HTTP, locks, timers, request
  handlers and terminal prompts.

The public proof functions named `law_*` state what holds across calls: that a
cached answer is given again only within its time to live, that a revoked session
stays revoked, that an outage ends a session only past the grace period, that an
enforced login succeeds only with a valid token, and more.

Times are nanoseconds on a monotonic clock, handed in by the caller.
