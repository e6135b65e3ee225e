# alpm

A verified model of the data and rules of pacman's package library:
package versions and how they order, dependency strings and what meets
them, targets such as `core/linux`, package databases, orphan and
removal detection, file lists, signature results, transaction errors and
the signature and usage settings of a pacman configuration.

The library lives in `src/` and is verified with Verus: every public
function states its result in its contract, and the laws that tie the
functions together are proof functions beside them.

- `version`: pacman's version order (`vercmp`), with its laws.
- `deps`, `satisfy`: reading and writing dependencies, and when a package
  or one of its provisions meets one.
- `target`: `repo/pkg` targets.
- `package`, `db`: packages and databases, lookups across databases,
  native and foreign packages.
- `orphans`: orphans, unneeded packages and removal closures.
- `filelist`, `signing`, `conflict`, `trans`, `types`: file lists with
  binary search, signature results, conflicts and transaction errors.
- `flags`, `conf`: flag sets and the words of a configuration that set them.
- `resolve`: when a package meets a dependency the way the package library
  decides it, the packages that depend on a package, and satisfiers.
- `events`: decoding transaction events and questions.
- `list`: lists handed to callbacks.

`app/` reads a pacman configuration with the `pacmanconf` crate and turns
it into the settings the library computes.
