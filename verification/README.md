# moonbuild_rupes_recta

The planning core of the MoonBit build system, written in Verus: package
discovery, the decisions of build planning, the compiler command lines and the
decisions that lower planned actions, and the execution plan handed to the
build executor. Every function in `src/` carries a contract that Verus proves.

The library holds the parts of planning and lowering that decide something
on their own: the traversals, the artifact plan, the native and prebuild
steps, the command lines, which files an action observes and whether it may
be cached. It does not hold the plan constructor or the driver that walks a
whole plan and lowers each of its actions, and nothing in `app/` runs them:
they assemble the pieces above over the resolved build environment, the
toolchain and the executor, none of which is part of this crate.

## Layout

- `src/discover/`: the packages of each module (`model.rs`), the files of a
  package folder (`package_files.rs`), the walk's decisions and checks
  (`mod.rs`), the synthetic package of single-file mode (`synth.rs`) and the
  standard library's special cases (`special_case.rs`).
- `src/build_plan/`: artifacts and their providers, package prebuild actions
  and their commands, the file sets and inputs of each build target,
  backend compatibility of dependencies, the native executable and C stub
  steps (`native_exec.rs`), the metadata of backend actions and the action of
  each plan node (`backend_plan.rs`), the traversal that orders a module's
  packages and the one that lists what is linked into an executable (with the
  proof of its dependency order in `link_order.rs`).
- `src/build_action_plan/`: the action-level view of a plan and the split of a
  standalone build into dependency preparation and script work.
- `src/build_lower/`: compiler command lines (`compiler/`, with `moonc
  check` in `check.rs` and `moonc link-core` in `link_core.rs`), the artifact layout, backend pipelines, what
  an action observes, outputs and may cache (`action_lowering.rs`), lowered
  commands and their graph.
- `src/execution_plan/`: the executable plan, its merge, and its projection to
  the build graph of the executor.
- `src/path.rs`, `src/path_set.rs`, `src/order.rs`, `src/text.rs`: paths as
  components, sorted path sets, lexicographic orders and string helpers.
- `tests/`: tests of the library on concrete values.
- `app/`: the parts that touch the host: the file-system walk of discovery,
  host facts, and serializable copies of the metadata types.

Calls into `shlex`, `relative-path` and `aho-corasick` go through a few small
trusted wrappers whose contracts are stated where they are declared.
