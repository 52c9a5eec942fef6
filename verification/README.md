# securitysmith

The verified core of SecuritySmith, a tool with which security consultants
keep client work (clients, projects, engagements, findings, evidence,
credentials, reports) as Markdown and TOML files in a workspace.

- `src/` is the library, checked by Verus: the naming and path rules of a
  workspace, entity configuration and status rules, finding and requirement
  numbering, the scanner-output parsers (Burp, Nessus, Nmap, Nuclei, ZAP,
  CSV), Markdown to Typst conversion, the sealed credential store, search,
  statistics, health checks, section assembly, the input rules of the desktop
  commands and, for each feed of a news refresh, which items are new and
  which clients they concern. Calls into outside crates
  (quick-xml, csv, serde_json, pulldown-cmark, chrono, sha2, argon2,
  chacha20poly1305, rand, base64, hex) go through small trusted wrappers whose
  contracts say what the crate promises.
- `tests/` runs the library on concrete inputs.
- `app/` is the unverified shell around it: walking the workspace on disk,
  reading and writing files, TOML/YAML/JSON (de)serialisation, and rendering.
