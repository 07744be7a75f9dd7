# syma_py

Value conversion between the Syma symbolic kernel and Python, verified with Verus.

- `src/json.rs` — tagged JSON as plain data (`Json`, `JsonNumber`) and its accessors.
- `src/decimal.rs` — reading an `i64` from decimal text, with the decimal round trip.
- `src/native.rs` — `PyNative`, the Python object to build, and its model.
- `src/convert.rs` — tagged JSON to Python: which values are wrapped in a `SymaValue`, and the native conversions.
- `src/syma_value.rs` — what a `SymaValue` shows (`str`, `repr`, `to_python`, `to_json`, `value`).
- `src/kernel.rs` — what `eval`, `eval_detailed`, `get` and `bindings` return, given the kernel's answer.
- `src/py_input.rs` — Python objects to Syma values, and the errors that setting a variable raises.
- `src/laws.rs` — properties of the conversions as a whole.
- `app/lib.rs` — the PyO3 extension module: it reads Python objects and the kernel's answers into
  the library's values, and builds Python objects from the library's plans.
