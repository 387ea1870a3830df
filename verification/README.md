# migrate_wicked

Migration of wicked network configurations (as XML) to the connection model
of Agama's NetworkManager back end, as a Verus-verified library.

- `src/` the verified library:
  - `interface`: wicked interfaces and bonds; the NetworkManager bond options.
  - `connection`: the connection model and the conversion of an interface.
  - `ip`: IP addresses as plain values, read and written with `cidr`.
  - `reader`: preparing the XML (namespace colons) and completing bond slaves.
  - `network`, `dbus`: bridge, bridge port, InfiniBand, TUN/TAP and VLAN
    settings and their D-Bus dictionaries.
  - `wireless`: wicked wireless networks and their connection settings.
  - `netconfig`: static DNS settings and the NetworkManager global DNS file.
  - `migrate`: linking connections to parents and bridge ports.
  - `cli`: commands and results of the command-line tools.
  - `text`, `dict`: string helpers and a string-keyed dictionary.
- `app/` the program around it: command line, files, XML deserialization,
  D-Bus values.
- `tests/` tests of the library.

Not part of this crate:

- `LocalizationHTTPClient` (and its `new` and `new_with_base`): an HTTP
  client built on agama-lib's `BaseHTTPClient`, which is not available here.
- Writing the connections to NetworkManager, and the checks that the agama
  network state (`NetworkState::add_connection`) makes when connections are
  added to it: the agama network service is not available here, so
  `app/migrate.rs` only shows the linked connections.
