# warp

The verified core of a split-pane SFTP desktop client.

`src/` is the library, checked by Verus:

- `remote_path`, `remote_listing`: remote paths (normalising, joining, parents)
  and the remote pane built from what the SFTP server reports.
- `local_fs`, `local_path`: the local pane, and the host paths it acts on.
- `listing`: the order of directory rows (folders, links, files; case-folded
  names), as a stable sort.
- `trust`: trusted host keys and the verdict on a presented key.
- `session`: the remote session state machine, failure messages, the
  deletion of selected entries (folder checks, stop at the first failure), and
  the depth-first deletion of a remote folder.
- `transfer`: the transfer queue (planning, the folder-by-folder walk of
  recursive batches, enqueuing, claiming, progress, outcomes, conflicts,
  cancel, retry, pause), its messages and rate texts.
- `binary32`: single-precision rounding, for the progress the queue shows.
- `models`, `events`, `scp_compat`, `text`, `sftp_failure`: shared values.

`app/` is the Tauri shell: commands, SSH/SFTP transport, the trust file, and
the local file system. It reads each folder and hands the listing to the
library, which decides what is planned or deleted next. `tests/` exercises the library.
