# scribium_engine

A verified evaluator for Quarkdown documents in their intermediate representation: variables,
functions, conditionals, call chains, iteration, collections, dictionaries, document state,
native content, layout components and resources.

An evaluation never reads files, parses documents or computes with floating point; JSON that its
host has read it parses itself. What it needs from its host it asks for, one question at a time:
`Evaluator::evaluate` takes the answers so far and gives either the evaluated document or the
next question.

- `src/semantics.rs` says what evaluating a document means. The methods of `Evaluator` are
  proved to compute exactly that.
- `src/host.rs` holds the questions, the answers and the session of an evaluation.
- `src/evaluator.rs`, `succession.rs`, `dispatch.rs`, `callables.rs`, `iteration.rs`,
  `layout.rs`, `data_calls.rs`, `target_content.rs` and `resource_calls.rs` are the evaluator.
- `src/ir*.rs`, `metadata.rs`, `diagnostic.rs` and `number.rs` hold the data.
- `src/laws_*.rs` state and prove what holds of the library as a whole. `src/growth*.rs` go
  through the semantics for those that speak of all of it: no step takes back a report, answers
  behind a finished evaluation change nothing, and limits that are not exceeded make no
  difference.
- `src/watch.rs` compares upstream releases with a supported baseline, `src/conformance.rs`
  looks after the cases of a conformance corpus.
- `app/` is the command line of the release watcher and the host side of an evaluation.
