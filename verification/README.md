# async_forge

A toolkit for asynchronous tasks over Tokio channels, whose logic is proved
with Verus.

- `src/` is the verified library:
  - `smart_channel`: channel halves that carry an identifier, and the laws
    of binding them;
  - `channel_table`: lists kept per channel name;
  - `dispatch_center`: named channels with subscribers and creation waiters;
    subscribing, unsubscribing, cleaning, and who a message goes to;
  - `writing_handler`: the writing tasks of a broadcast, and what waiting on
    them gives;
  - `task_book`: which tasks run, which have closed, who waits for a task,
    and the cleaning of the book;
  - `task_forge`, `task_pool` (with `forge_error`): the state of a task
    forge and of a task pool on top of the task book;
  - `mpsc`: the Tokio types and the synchronous Tokio calls the library
    makes, with the contracts they are trusted to meet.
- `app/` holds the asynchronous side: the forge and the pool behind a lock
  with their listening loops, the error handlers, the spawning and awaiting
  of writing tasks, and the error types with their messages.
- `tests/` runs the library on a Tokio runtime.
