# LTSC Workspace

A deployer for Windows LTSC workstations that mirrors the command-line and
desktop tools of a source Mac: it reads the Mac's tool inventory, maps each
tool to a Windows counterpart, installs what the profile lists, and applies
network, storage, privacy and developer settings with a journal that lets a
later run undo them.

The decisions are a library verified with Verus (`src/`); the program around
it (`app/`) does the I/O: the Windows GUI, child processes, the registry,
files, and the Mac inventory and online audit tools.

```text
src/
├── text.rs             character-level helpers: trimming, case, lines, search
├── inventory.rs        the Mac inventory, mapping rules, listing parsers
├── capture.rs          normal form of inventory lists, publishing a capture
├── config.rs           the profile, its validation, the parity report
├── macos_inventory.rs  when a capture is a change, when it may be published
├── audit.rs            the online checks of a profile
├── plan.rs             the steps of a run, registry tweaks, Git settings
├── session.rs          the run state the GUI follows
├── utils.rs            command results, bounded output capture, log lines
├── textfile.rs         managed blocks and INI sections in user files
├── ini_stability.rs    why an INI update of its own output changes nothing
├── system_steps.rs     the commands of the network, storage, feature and power steps
├── platform.rs         registry hives and the user Path value
├── rollback.rs         the rollback journal
├── winget_bootstrap.rs file URIs and the deployment wait loop
├── installer.rs        exact matching of package-manager listings
└── json.rs             what the library reads of JSON
app/                    GUI, processes, registry, files, command-line tools
tests/                  tests of the library
```

The program looks for its data files (`setup_profile.json`,
`parity_rules.json`, `macos_inventory.json`, the font and the agent files) in
`LTSC_ASSETS_DIR`, else in `assets` beside the executable, else in
`src/assets`.
