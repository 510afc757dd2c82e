# landon

Data structures and algorithms for meshes and armatures exported from Blender, verified
with Verus.

- `src/` is the verified library.
  - `mesh`: multi indexed vertex data, triangulation, combining per corner indices into one
    index buffer, interleaving, bone influence normalization, y-up conversion, a PBR cube.
  - `armature`: bones, keyframes that stay sorted, actions with their frame ranges,
    coordinate systems, the choice of surrounding keyframes when sampling.
  - `export`: the framing of Blender's stdout into per file, per item JSON payloads, grouping
    them by file and flattening them while refusing duplicate names.
  - `str_map`, `sorting`, `float_bits`: an insertion ordered map keyed by strings, stable
    sorting by an integer key, and the sign and order of floats kept as their bits.
- `app/` is the unverified shell: JSON (serde) copies of the library's types, the floating
  point math (tangents, weighted normals, dual quaternions, interpolation) and error types.
- `tests/` runs the library on concrete values.

Floats are held by the library as their IEEE 754 bits (`u32`), so every contract speaks of
exact bit patterns; arithmetic on them happens in `app/`.
