# image-auditor

Finds image-delivery problems in markup and templates (`<img>` tags and JSX
`<Image>` components), proposes fixes through a language model, and applies
the patches the model returns.

The library under `src/` is verified with Verus:

- `tags`, `attrs`: the grammar of `<img …>` tags and of attribute values.
- `checks`, `scanner`: the checks on each tag and the scan of a file's text
  (wrong format, missing dimensions, lazy loading, srcset, oversized files,
  JSX components without `alt`), and the bookkeeping of a directory scan.
- `patch`: white-space-insensitive location and application of a patch.
- `llm`, `prompt`, `config`: the prompt, the request sent to each provider,
  and the parsing of the model's answer.
- `app`: the state of the terminal interface and its reaction to keys and to
  finished background work.
- `text`, `paths`, `types`: shared text operations, path operations (through
  `std::path`) and the issue types.

`app/` is the program around it: command line, directory walk, file and
network I/O, the JSON report and the terminal drawing.
