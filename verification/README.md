# github_audit

Audits of a GitHub organization, such as: which repositories have deploy keys that were
added by someone who is not a member?

`src/` is the library. It makes no requests itself: it says which request is due, takes in
the answer, and says what follows. What each function does is stated in its contract and
proved with Verus, save for the calls into other crates: the functions marked
`external_body` in `json` (around `serde_json`) and in `paint` (around `colored`) make one
call each, and what their contracts say of it is trusted. Where answers are known beforehand, `retry::execute_with_retries`,
`paging::make_paginated_github_request` and `deploy_key::run_audit` play them through from
start to end.

- `deploy_key`: the audit of deploy keys
- `organization`: what is asked of an organization, and what the answers say
- `paging`: listings that come in pages
- `retry`: attempts at a request
- `request`: requests, GraphQL queries, and how an answer is read
- `listing`: items gathered once each, and filed by index
- `records`: members, collaborators, teams, repositories
- `progress`: reports of the progress of an audit
- `paint`: styled lines for the terminal
- `json`, `text`: JSON values and text

`app/` runs the audits: environment, network, terminal and files.
