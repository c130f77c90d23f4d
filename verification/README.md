# forge_workspace

The rules of a workspace in which coding agents run: which session gets what,
which workers may be spawned and what goes with one that is closed, what is
watched in Slack, and what is stored on the machine.

`src/` is a Verus library. Every function there states what it does, and the
statement is proved. A function that has to wait for something outside, such as
an agent that starts or a row that is written, is split into steps: each step
takes what came back and says in `Action`s, in order, what is to be done next.

- `session_task`: one session, from its agent's events to the actions they ask for.
- `deliver`: envelopes, crons, notifications and Slack messages, to a session or parked for one.
- `spawn`, `team`, `launch`: starting sessions, spawning and despawning workers.
- `slack`: configured workspaces, subscriptions, followed threads, drafts.
- `store`: the tables of the machine's database, over `redb`.
- `state`, `single_instance`: the state file and the lock, as far as they are decided.
- `workspace`, `workers`, `slot`, `protocol`: what the rest speaks of.
- `order`, `seqs`, `text`, `clock`: ordered maps, sequences, text, ids and time.

Each module ends with, or holds beside its functions, the laws that relate them:
public proof functions whose comments say in words what they prove.

What the library takes on trust is marked `external_body` and stands in
`store/db.rs` (the database), `launch.rs` (JSON values) and `clock.rs` (random
ids and the clock), each with a comment that names the outside function.

`app/` is the ordinary Rust around it: the wire forms of the rows, the files,
the channels, and the loop that performs the actions. `tests/` runs the library,
with a real database where it stores something.
