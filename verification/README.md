# simhark

Tooling around a RoboCup Small Size League simulator: the match director
and evaluator of the match runner, the referee and autoref bookkeeping, the
grSim and SimNet protocol handling, the batch test runner, the browser
viewer's state, and the command lines of the tools.

`src/` is a Verus library. Every function there carries a `requires` /
`ensures` contract. Verus proves all of them but one: `text::push_char` is
a one-line call of std's `String::push`, and its contract (the character is
appended to the string) is trusted. The cross-function properties (round
trips of the wire encodings, the director's goal debouncing, the
evaluator's agreement with the director's score, the benchmark's result
accounting, distinct per-world random streams, test-plan and batch
layout, report counts, ...) are stated as public proof functions next to
the code they are about.

`app/` is a thin command-line front end: it reads arguments, the
environment and the file system, starts the external Sumatra AI, does the
floating-point formatting, and prints what the library decides.

`tests/` exercises the library on concrete values.
