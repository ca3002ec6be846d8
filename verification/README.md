# rustbee

Rust Bee (`rb`) is a small build tool: a script defines variables and
targets, targets depend on each other and on file dates, and their bodies
call functions (`exec`, `cp`, `zip`, `display`, …) and control blocks
(`if`, `for`, `while`, `case`).

The library in `src/` is verified with Verus:

- `cmdline`: the command line, with what is wrong in it;
- `scan`, `lex`, `parse`: decoding, lexing and parsing a script into a tree of
  blocks (`block`, `vars`);
- `template`: `${name}` interpolation;
- `machine`, `interp`, `dispatch`, `builtins`, `effects`, `fsops`,
  `process`, `zipping`, `targets`: the interpreter;
- `timefmt`, `util`, `strops`, `text`, `walk`, `props`, `log`, `help`:
  formatting, paths, text and the decisions of directory walks.

The interpreter never touches the world itself. Where a step needs a file,
a process, the clock or the user, the run stops with an `IoRequest`; the
caller carries it out and runs the script again with the answers so far
(`Machine::answers`). Each function's contract states the request it makes
and what it does with every answer.

`app/` is the `rb` program around the library: the command line, reading
scripts, and carrying out the requests (including the `calc` calculator,
which computes in floating point).
