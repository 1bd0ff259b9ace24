# zeroclaw (verified core)

The logic of the coding-agent CLI provider and of the Matrix room tools,
written in Verus and proved against its contracts.

- `src/text.rs`: Unicode whitespace trimming, stripping of repeated characters,
  substring search, decimal rendering.
- `src/directive.rs`: `[PREFIX:value]` directives at the head of a message and
  their round-trip law.
- `src/claude_code.rs`: the provider: binary path, model forwarding, stderr
  excerpts, directives, the session store behind `--resume`, the command line,
  the single retry after a failed resume, output processing and the laws that
  tie storing and resuming sessions together.
- `src/encoding.rs`: percent-encoding of URL path segments, with the
  round-trip and URL-safety laws.
- `src/matrix.rs`: request planning and result formatting of the
  `matrix_history` and `matrix_rooms` tools.

`app/` runs the CLI subprocess, performs the HTTP requests and decodes JSON;
it hands plain values to the library and takes plain values back.
