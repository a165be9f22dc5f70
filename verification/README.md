# libreadymade

The verified core of the readymade installer backend, written in Verus.

- `src/` is the library. It composes the configuration files that
  post-install modules write (`locale.conf`, the X.org keyboard section,
  the `containers.conf` override), the `bootc` and partition-refresh command
  lines, the step machine that creates the first-boot marker below an
  immutable OSTree deployment, and the choice of the deployment that will
  boot. Every function there carries a contract proved by Verus, and the
  properties that span functions are stated as proof functions.
- `app/` runs what the library decides: file-system work, ioctls, child
  processes, logging, and the serde forms of the module configuration.
- `tests/` exercises the library on concrete values.
