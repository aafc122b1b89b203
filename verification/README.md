# rust_study

A set of small Rust study programs (collections, traits and typestate,
concurrency, error handling, testing, async scheduling, web and CLI tools),
with their logic in a library verified by Verus.

## Layout

- `src/` — the verified library:
  - `linked_list` — a singly linked list with a cursor, viewed as a `Seq`;
  - `orders` — the draft → submitted → paid → shipped order typestate;
  - `account` — withdrawals with their refusal cases;
  - `calculator` — addition, truncating division, palindromes;
  - `delay_queue` — delay-queue tasks, a binary min-heap of tasks by due
    time (viewed as a `Multiset`), and the worker's next-step decision;
  - `tasky` — the to-do list behind the `tasky` command line;
  - `settings` — configuration defaults and subcommand parsing;
  - `auth` — bearer-token extraction, error responses, login claims;
  - `greeter` — the Greeter service's answer, with `str::trim`'s rule;
  - `transfer` — the decisions of a transfer between two accounts;
  - `std_examples` — the iterator and `Option` examples;
  - `clock`, `text` — the current time (std and chrono) and string helpers.
- `tests/` — tests of the library.
- `app/` — the programs: I/O, async runtimes, HTTP, Redis, SQLite, the
  command-line parser and serde formats, calling the library for the logic.
  Its first argument picks the program: `log`, `redis`, `data`, `oop`,
  `concurrency`, `web`, `std`, `net`, `delay`, `common`, `db`, `errors`,
  `tasky`, `greeter` or `tokio`.
