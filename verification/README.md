# AutoPierCam

Unattended capture for ZWO ASI planetary cameras: stills and video segments are
captured continuously, published atomically, uploaded durably over HTTP and
reclaimed under a retention policy.

The library under `src/` holds the rules of the agent, written in Verus: each
function states in its contract what it returns, and Verus proves it. The program
under `app/` performs the I/O that these rules decide on.

| Modules | What they decide |
| --- | --- |
| `camera`, `exposure`, `capture` | camera selection and limits, frame deadlines, settling, when a still is taken |
| `control`, `flag`, `monitor`, `shutdown` | controls shared between threads, the published status, the shutdown exchange |
| `artifact`, `still`, `preview`, `video` | names of captures, image encoding, the latest-only preview, video segments |
| `retention`, `sweep`, `retention_worker`, `ledger_retention` | which captures may go, one sweep of the directory, exact deletion, what a ledger releases |
| `upload`, `http`, `upload_store`, `upload_record`, `upload_artifact`, `upload_reconcile`, `upload_schema`, `upload_load` | attempts and retries, the ledger of upload jobs, its reconciliation with the captures and its stored form |
| `ledger_schema`, `ledger_rows`, `ledger_maintenance`, `ledger_archive` | verifying, migrating and archiving a ledger offline |
| `failure` | what the errors say |
| `windows_resources` | the manifest and version resource of the Windows program |
| `text`, `unicode`, `number`, `order`, `path`, `path_order`, `hex`, `message`, `quote`, `digest`, `random` | what the others are built from |

What the library takes from other crates (hashing, randomness, HTTP header values and URIs,
image encoders, JSON lookup) stands behind small functions whose contracts are
taken on trust; the doc comment of each says what is claimed.

Upload ledgers of the maintained version are described by a JSON file that is given
to the maintenance commands with `--schema`: its `signature`, its
`delivery_binding_domain`, and its `objects`, each with a `type`, a `name` and the
`sql` that creates it.
