# github_handler

The decisions behind collecting and analysing the contributors of GitHub
repositories, written and proved in Verus.

- `src/config.rs`: the configuration, from a file or from environment variables.
- `src/tokens.rs`: which GitHub token to use next, and when exhausted ones are
  checked again.
- `src/git.rs`: what git is asked and what its answers mean.
- `src/repository.rs`: where the clone of a repository lies.
- `src/timezone.rs`: in which time zone an author commits.
- `src/locations.rs`, `src/contributors.rs`: the course of the work on one
  repository and on its contributors, as steps from state and event to state.
- `src/model.rs`, `src/text.rs`: users, and operations on text.

The library performs no I/O. `app/` runs git, reads the environment and files,
talks to GitHub and the database through the traits in `app/services.rs`, and
hands plain values to the library. Proof functions whose names begin with `law_`
state what holds across several functions or for a whole run.

Two outside functions are relied on without proof: chrono's parsing of a date
(`git::parse_datetime`) and std's lossy UTF-8 decoding (`text::decode_lossy`).
`uuid::Uuid` and `std::path::PathBuf` are carried through and never looked into.
