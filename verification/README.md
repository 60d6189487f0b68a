# rustplan

A netplan-compatible network configuration tool whose core is verified
with Verus.

- `src/` is the verified library:
  - `text.rs`: decimal rendering, joining, trimming, number parsing, path
    joining, the order of texts and a sort, padding;
  - `yaml.rs` and `yaml_laws.rs`: the YAML document tree, deep merge, lookup and assignment by
    dotted path, with their laws (later documents win, a value set is read
    back, a key set to `null` is gone when the document's mappings have
    distinct keys, other paths keep their values, an assignment fails exactly
    below a non-mapping, merging twice equals merging once when the merged
    document's mappings have distinct keys; merging and assigning keep
    distinct keys distinct);
  - `config/`: the configuration model, its insertion-ordered maps
    (`indexmap`), and which files are read in which order (`load_paths`);
  - `backends/`: the systemd-networkd and NetworkManager renderers, whose
    output is specified file by file, and what each interface belongs to;
  - `cli/`: what each command decides and prints; commands that alternate
    I/O and decisions are step functions from the last outcome to the next
    action.
- `app/` is the command-line program: argument parsing (clap), reading and
  writing files, YAML (de)serialisation (serde_yaml), running programs.
- `tests/` runs the library on concrete configurations.
