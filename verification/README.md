# rlm

A harness for recursive language models over local model servers. Long context lives in a script
environment that the model navigates (`peek`, `grep`, sub-calls over slices) instead of in its
prompt.

- `src/` is the library, verified with Verus: the root loop, the script environment, searching,
  memory, configuration, bringing up model servers, admission, the store of runs, event streams,
  the control plane's answers and the command line.
- `app/` is the program around it: files, HTTP, processes and the script engine.
- `tests/` runs the library on concrete values.

The loops of the library are machines. Each takes what came back from outside and says what to do
next, so what holds of them holds whatever a model, a script or a client does. `run_laws` and
`store_laws` state what holds of whole histories; the other modules end with the laws of their own
functions.
