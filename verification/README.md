# teams-cli

A lightweight client for Microsoft Teams. The library under `src/` holds what
the client decides and computes, with contracts that Verus proves; `app/` holds
the commands, the requests, the files and the devices around it.

- `text`, `bytes`, `encoding`, `json`, `web`, `dates`, `order`: texts, byte
  strings, JSON values, addresses, dates and orders that the rest is built on.
- `config`, `event_hub`, `auth`: stored credentials and their cache, the queue of
  push events, and the course of a login.
- `api`: the requests to Graph and to the chat service, and what their replies
  say. Listings that take several requests are state machines that name the next
  path and take its reply.
- `calling`: signaling, TURN messages, compressed session descriptions,
  recording, the course of a call and the bookkeeping of its media, audio frames
  and video frames.

Functions named `law_...` are theorems about the library as a whole. Calls into
other crates stand behind `external_body` functions whose comments say what is
taken on trust.

`app/` signs in with an application that is named in the environment:
`TEAMS_CLI_CLIENT_ID`, and `TEAMS_CLI_TENANT` where it is not `common`.
