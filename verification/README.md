# apcert_util

Semi-automation of new Autopilot cluster certificates in a PFGold
enlistment. The library under `src/` is verified with Verus; `app/` is the
command-line program around it (file system, environment, Source Depot and
editor commands).

Library modules:

- `text` — the character-level model of strings (`trim`, `lines`, `split`,
  `contains`, `replace`, decimal numbers) and the verified operations on it.
- `patterns` — regular expressions of the `regex` crate behind trusted items.
- `get_island`, `get_ini_section` — the island of a cluster and its INI section.
- `mk_ini_manager` — adding a cluster to the key rings of MasterKeys.ini.
- `sign_config_ini` — registering a cluster's virtual environment in
  SigningConfig.ini.
- `create_artifacts` — paths, file contents, the PkiCmd line and the status
  record of a new cluster.
- `invocation` — command-line arguments and the signing command.
