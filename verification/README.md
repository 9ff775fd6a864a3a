# webhook

A GitHub webhook that redeploys services when a signed delivery arrives.

- `src/` is the verified library: the service table (`config`), request
  headers (`headers`), signature checking (`signature`), the full webhook
  (`role`: request validation with redelivery detection, the redeployment
  sequence, log capture, issue texts and the choice of issues to close) and
  the simpler webhook (`standalone`: validation and command plans).
- `app/` is the server around it: HTTP routes, the configuration file,
  running shell commands, GitHub API calls and logging.
- `tests/` exercises the library on concrete values.
