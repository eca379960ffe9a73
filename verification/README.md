# slurm_async_runner

Submits SLURM jobs, follows them, and asks SLURM for their state, with the rules of all of
that in a library that is proved with [Verus](https://github.com/verus-lang/verus).

## Layout

- `src/` is the verified library. It runs no command, reads no file and looks at no clock.
  Where that is needed in between, a function names the next command or the next piece to
  read, and another takes in what came of it.
  - `entities` holds the options of a submission and the states of a job: array indices,
    dependencies, resources, signals, mail events, time limits, states and reasons, each
    with the text that SLURM knows it by.
  - `manager`, `sbatch::cmd` and `sbatch::env` build command lines.
  - `runner::listing` reads what `squeue`, `sacct` and `qgroup` print, and
    `runner::query` decides which of them to ask.
  - `sbatch::handle` keeps what is known of a submitted job, `sbatch::manager` decides
    about submitting, finding, running and cancelling one, and `sbatch::tail` reads the
    end of its log.
  - `sbatch::query_shape` and `sbatch::query_cache` share listings between handles.
  - `store` names the files of snapshots, tells their kinds apart and finds them.
  - `text` holds the operations on text that all of these use.
- `tests/` runs the library on concrete values.
- `app/` is ordinary Rust around the library: it spawns processes with `tokio`, keeps
  snapshots in memory or in JSON files, and offers all of it to Python.

## What is proved

Every function of the library says in its contract what it returns, over plain values and
sequences of characters, and does not panic where its `requires` holds. The public proof
functions whose names begin with `law_` state what holds beyond a single call: that texts
read back as the values they were written from, that a query answers for every job it was
asked about with at most two commands, that a refresh never asks `sacct`, that a wait gives
up after so many failures in a row and no earlier, that a cached listing is never shown to
someone who asked for another job, that the end of a log is the end of the whole log.

What comes from other crates or from the standard library is called through small
functions marked `external_body`; the comment above each says what is taken from it without
proof.
