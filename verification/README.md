# fractalengine

The verified core of the FractalEngine desktop client, written in Verus.

- `src/` is the library. Every function there carries a contract that Verus
  proves: the URL policy of the embedded browser, the verse → fractal →
  petal → node tree and its node index, how database results change the
  tree, the dialogs and the inspector, the path editor's round trips, GPX
  import bookkeeping, path-asset stamping and primitive materialization
  plans, the viewport's decisions, and small parsers (blob URIs, stamp
  marker ids, hex seeds, decimal numbers). Laws that relate several
  functions are public proof functions named `law_*`.
- Calls into `url`, `ipnet`, `hex` and std functions that vstd leaves
  unspecified go through small wrappers whose contracts say what those
  crates document; everything around them is verified.
- `tests/` runs the library on concrete values.
- `app/` is the program around the library: the panic-log hook, the node
  key of the relay (read from and written to its store), and the JSON the
  webview receives.
