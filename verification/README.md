# wgpu_ffx

FSR 3 temporal upscaling on wgpu, with the decisions verified by Verus.

- `src/` is the library. It plans a frame from plain values: which formats an
  adapter gets, what every texture, buffer and pass binds, whether a dispatch is
  valid, what the constant buffers hold and how large each dispatch is. It also
  holds the shader build: permutations of compile-time options, duplicates among
  the compiled shaders, and the source file that looks them up. Functions state
  their results in `ensures`; statements that span several functions are the
  public proof functions named `law_...`.
- `app/` is the ordinary Rust around it: wgpu objects, floating-point terms such
  as the projection, files, processes and the command line.
- `tests/` runs the library on concrete values.

Single-precision numbers are kept as their bits in `src/`; `app/` converts.

A few functions of other crates are called behind small wrappers marked
`#[verifier::external_body]`. The comment above each one names the function and
says what is taken from it without proof.
