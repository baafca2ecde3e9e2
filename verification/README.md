# class_chat_bot

A Discord bot for a university class: members bind their Discord account to a
student id from the class roster, LINE group messages are forwarded to Discord,
school announcement pages are crawled and new posts are announced, and Google
Calendar events can be announced once each.

## Layout

- `src/` is the library, verified with Verus. Every public function states its
  result in its contract; laws that relate several calls are public proof
  functions whose names start with `law_`.
  - `text`, `clock`, `timezone`, `template`: strings, instants, time zones and
    the message template engine.
  - `config`, `config_docs`, `config_file`, `toml_merge`: the settings, their
    descriptions, the text of a configuration file and the merge of a user's
    file over the current defaults.
  - `discord`: identity binding, forms and the shape of Discord deliveries.
  - `link_chat`: LINE signatures, event plans, routes and the lookup caches.
  - `crawler`: list and post pages, schedules, new-post selection, messages.
  - `google_calendar`: which events are announced where, and when a token is
    reused.
  - `leader_election`: the settings and decisions of the lease.
- `app/` is the program around the library: Discord, HTTP, the database, files
  and the loops that run the library's decisions.
- `tests/` runs the library on concrete values.

## What this build leaves out

The client crates for Kubernetes (`kube`, `k8s-openapi`) and JSON Web Tokens
(`jsonwebtoken`) are not part of this build. So:

- leader election is read from the environment and decided by the library,
  but taking a lease fails, and the program stops when election is switched
  on (`K8S_LEADER_ELECTION`);
- the Google Calendar sync is not run: the library decides which events are
  announced where, when a token is reused and what its claims are, but no
  token is signed and no calendar is polled.

Configuration files are reloaded by polling the `config` directory rather
than by watching it.

LINE image sets (several images sent as one post) are forwarded image by
image; they are not grouped into one Discord message.
