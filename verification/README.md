# automerge_bot

A GitHub app that merges pull requests automatically when they match configured
automerge rules (for now: dependabot pull requests whose commits are authored by
dependabot and signed by GitHub, and whose dependency updates the rule admits).

The decision logic is a Verus library under `src/`, with its contracts proved:

- `config`: the rule configuration, path patterns, the choice of configuration source.
- `utils::rules` (and the basic form in `rules`): the eligibility check of a pull request
  against the rules, with the laws of what a matched rule guarantees.
- `utils::automerge` (and `automerge`): the steps that bring a pull request's automerge
  state in line with the outcome, and the debouncing of updates.
- `utils::pull_request`: the merge mutations and the cache of pull request node ids.
- `webhook`: webhook signature verification, comment commands, pull request and check
  run events.
- `graphql`: the parts of GitHub's GraphQL responses that the decisions read.

`app/` is the service around it: configuration loading, the HTTP server, GitHub API
calls, and the loops that wait and retry. `tests/` runs the library on concrete values.
