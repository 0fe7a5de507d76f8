# fand

A fan controller for Apple Silicon. It reads temperatures from the SMC, follows
a curve from temperature to speed for each fan, and gives the fans back to the
firmware whenever it leaves.

`src/` is the library: everything that fand decides, with contracts that Verus
proves. `app/` is the program around it: the calls into IOKit, the files, the
threads and the signals. `tests/` runs the library, also against an SMC that is
played there.

## Layout of the library

| Module | What it holds |
|---|---|
| `flt` | binary32 as a bit pattern: a model over the integers, and arithmetic that is rounded as the model says |
| `text`, `glyph` | text, numbers in text, and messages with numbers to be printed |
| `config` | the configuration: its defaults, what is wrong with one, which files are taken in |
| `control` | fusing, smoothing, curve, hysteresis, slew limit, panic latch, and the tick that joins them |
| `smc` | the protocol of the SMC: keys, types, the connection, verified writes, the session and the ways out of it |
| `cli` | the commands: their arguments, what they do, and what they say |
| `correlation`, `log`, `security`, `launchd` | session IDs, the rate-limited log, the environment, timers |

## How the library talks to the machine

The library does no I/O. An operation that needs the machine takes an
`Exchange`: it asks for one thing after another, and each request is answered
from the replies that were supplied. When the replies run out, the first request
without one is pending, and what the operation returns does not count. The
program performs that request, supplies the reply, puts the state back to where
it was, and runs the operation again, until nothing is pending.

So an operation is a function of its state and of a `Dialog`: the actions that
were asked for, and the replies to them. The contracts say which dialog comes
out, and the laws in `smc::safety`, `smc::quiet` and `cli::safety` say what every
such dialog has in common: which operations write nothing, and which write
nothing but the modes of fans and the unlock. The laws in `smc::release` say that
fans are given back: wherever the SMC knows the modes of its fans as single
bytes, a teardown and an emergency release write a zero to every one of them,
whatever else the connection was used for.

## Numbers

Temperatures and speeds are binary32. `flt::model` says what a bit pattern
stands for, in whole units of 2^-149, and to which pattern a quotient of whole
numbers is rounded. Printing a number and reading one in free form are left to
the program.
