# codspeed

The runner of CodSpeed as a Verus library. The decisions of the runner are executable Rust with
contracts, and Verus proves them: which profile and which token a run uses, how a benchmark is
isolated and measured, what is kept of the modules it loaded, how often a request is tried, and what
an upload holds.

- `src/` is the library. Each module states what its functions return over plain sequences, maps and
  integers; the public proof functions whose names start with `law_` state what holds of several
  functions together.
- `tests/` runs the library on concrete values.
- `app/` is the program around it: arguments, files, processes and requests. It performs the steps
  that the library decides on and hands back what came of them.

Calls into outside crates stand in small functions whose doc comments name the outside function and
say what is believed of it.
