# upctl-svc

A small ticket service in front of a Gitea repository, with its rules verified in Verus.

Callers list, read, create, update, comment on and close tickets; the service turns each of these
into requests to Gitea and Gitea's replies into answers. It also stores attachments, keeps two
settings on disk, and drives agents in tmux sessions, on this machine or over SSH.

## Layout

- `src/` is the verified library. It performs no input or output: it says which request to send or
  which command to run, takes what came back, and says what follows.
  - `text`, `json`, `decode`: texts, JSON documents, and reading them with `serde_json`.
  - `access`, `response`: who may do what, and the envelope of every answer.
  - `gitea`, `labels`, `tickets`, `changes`: addresses and requests, labels, reading tickets,
    changing tickets.
  - `attachments`, `config`, `agent`: uploaded files, settings, and the agents' tmux.
- `app/` is the service around it: routes, HTTP, files, environment variables and processes.
- `tests/` runs the library on concrete values.

Laws that span several functions stand beside them as `proof fn law_...`.

## What is trusted

The library calls `serde_json`, `uuid`, `http` (through `axum`) and a few functions of the standard
library through items marked `external_body` or `assume_specification`. Each says in its doc comment
what it claims.
