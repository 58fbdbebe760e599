# eko

The operating system, wrapped once: paths, files, directories, the environment, the clock, the
process, programs, sockets, threads, channels and memory maps.

A system call is a request that goes out and an answer that comes back. What goes out, what the
answer means and what is asked next are decided in `src/`, on plain values, and proved with Verus.
The calls themselves are made in `app/`.

## How a module is laid out

- A question the kernel answers in one go is a function from the answer to a result. Failures keep
  their `errno` as a number that can be matched.
- A loop around the kernel is a small state machine. It says what to do next, the driver does it and
  hands the answer back. Its contract is one transition; what a whole run comes to is stated and
  proved beside it, as public proof functions.
- What only computes (paths, search paths, environments, lines, page rounding) is ordinary code with
  an exact contract.

## Where things are

| module | what it decides |
| --- | --- |
| `bytes`, `text`, `lines` | byte strings, text with replacement, lines out of a stream |
| `path` | paths as bytes; `path::laws` has what joins, prefixes and names have to do with one another |
| `file`, `fs` | opening, reading and writing, listings, scratch directories, removing a tree |
| `command` | where a program is looked for, its environment, what a child does before it becomes the program, and reading its pipes |
| `daemonize`, `socket` | going into the background; addresses, connections and their lines |
| `env`, `proc`, `time`, `cpu` | variables, numbers, clock readings, processor features |
| `heap`, `mmap` | what an allocator and a mapping ask for |
| `thread`, `channel` | starting threads, values made once or per thread, a bounded queue |
| `print` | messages that give up quietly |
| `sys` | the numbers of the C headers, as Linux has them |

`tests/` runs the library on concrete values.
