# ti_toolbox_core

Project analysis and conversion logic for TI MSPM0 projects built with Code
Composer Studio (CCS) or Keil MDK, written in Verus.

- `src/` is the verified library. Every function carries a `requires` /
  `ensures` contract over spec models (`Seq<char>` for text and paths,
  `ElementV` for XML documents, model structs for reports), and the
  library's laws are public proof functions named `law_*`.
  - `text`, `number`, `winpath`, `sorting`: text, version numbers, Windows
    path arithmetic and ordering.
  - `xml`, `xml_text`, `project`, `inspect`, `inspection`: the XML
    document model (namespace details included), reading and writing XML
    text with `xmltree` behind named results, and project inspection
    (devices, sources, defines, include paths) from the project files' text.
  - `pack`, `discovery`, `environment`, `tools`, `tool_search`: SDK / pack /
    SysConfig / toolchain discovery from facts the caller gathered, and the
    level-by-level tool search over directory listings.
  - `registry`, `sysconfig`, `configure`: Keil Tools-menu slots and the
    SysConfig launcher files.
  - `validation`, `builds`: build commands and judging build logs.
  - `convert`, `keil_project`, `ccs_project`: conversion plans and the
    generated project files.
  - `outside`: the few calls into `serde_json` and `zip`, each behind a
    wrapper whose contract is stated over a named result.
- `app/` is the unverified shell: file system walks, process and registry
  calls, and serde copies of the report types. It gathers facts, hands
  them to the library, and performs the actions the library decides on.
- `tests/` exercises the library on concrete inputs.
