# deploybot

A Discord bot that deploys a Cloudflare Pages project, fetches deployment
logs, hands out TOTP codes, and restricts each slash command to listed users,
channels and roles.

- `src/` is the verified library (Verus): the command declarations, the
  dispatch of interactions, the access rules and the state machine that checks
  them, the Cloudflare requests and the texts made of its replies, TOTP secrets
  and codes, and the replies of every command.
- `app/` is the program around it: configuration file, Discord gateway and
  HTTP, the Cloudflare HTTP calls and JSON parsing.
- `tests/` runs the library on concrete values.
